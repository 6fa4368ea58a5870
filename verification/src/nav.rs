//! Where the main window may go: only to pages of the services that this process started.
//!
//! Any program on the machine can serve a page on the loopback address, so the address alone
//! proves nothing. A page is let in by its port, and a port is entered in the list only when
//! the service behind it has come up.

use std::collections::HashSet;

use vstd::prelude::*;
use vstd::string::*;

use crate::digits;
use crate::text;

verus! {

broadcast use vstd::std_specs::hash::group_hash_axioms;

/// What stands between the scheme `http` or `https` and the first slash after it.
pub open spec fn web_authority(url: Seq<char>) -> Option<Seq<char>> {
    match text::without_prefix(url, "http://"@) {
        Some(rest) => Some(text::head(rest, seq!['/'])),
        None => match text::without_prefix(url, "https://"@) {
            Some(rest) => Some(text::head(rest, seq!['/'])),
            None => None,
        },
    }
}

/// A page of the window's own, without a host.
pub open spec fn is_internal(url: Seq<char>) -> bool {
    text::begins_with(url, "tauri://"@) || text::begins_with(url, "about:"@)
}

/// A port number.
pub open spec fn port_in(text: Seq<char>) -> Option<nat> {
    digits::number_in(text, 65535)
}

/// The host and the port that `authority` names: `host`, `host:port`, `[host]` or
/// `[host]:port`. A port that is not a number counts as none. Brackets that do not close
/// name nothing.
pub open spec fn host_and_port(authority: Seq<char>) -> Option<(Seq<char>, Option<nat>)> {
    if authority.len() > 0 && authority[0] == '[' {
        let end = text::stop_at(authority, seq![']']);
        if end < authority.len() {
            Some(
                (
                    authority.subrange(1, end),
                    match text::without_prefix(authority.skip(end + 1), ":"@) {
                        Some(port) => port_in(port),
                        None => None,
                    },
                ),
            )
        } else {
            None
        }
    } else {
        let colon = text::last_position(authority, ':');
        if colon >= 0 {
            Some((authority.take(colon), port_in(authority.skip(colon + 1))))
        } else {
            Some((authority, None))
        }
    }
}

/// A name of this machine's loopback address.
pub open spec fn is_loopback(host: Seq<char>) -> bool {
    host == "127.0.0.1"@ || host == "localhost"@ || host == "::1"@
}

/// `url` may be shown by a window whose services listen on `ports`.
pub open spec fn may_visit(ports: Set<u16>, url: Seq<char>) -> bool {
    ||| is_internal(url)
    ||| match web_authority(url) {
        Some(authority) => match host_and_port(authority) {
            Some((host, Some(port))) => is_loopback(host) && ports.contains(port as u16),
            _ => false,
        },
        None => false,
    }
}

/// The ports of the services that this process started.
pub struct AllowList {
    ports: HashSet<u16>,
}

impl View for AllowList {
    type V = Set<u16>;

    closed spec fn view(&self) -> Set<u16> {
        self.ports@
    }
}

/// The list of a process that has started nothing.
pub fn allowed() -> (list: AllowList)
    ensures
        list@ == Set::<u16>::empty(),
{
    AllowList { ports: HashSet::new() }
}

impl AllowList {
    /// Enters the port of a service that has come up.
    pub fn allow_port(&mut self, port: u16)
        ensures
            final(self)@ == old(self)@.insert(port),
    {
        self.ports.insert(port);
    }

    /// Whether the main window may go to `url`.
    pub fn is_allowed(&self, url: &str) -> (out: bool)
        ensures
            out == may_visit(self@, url@),
    {
        if text::starts_with(url, "tauri://") || text::starts_with(url, "about:") {
            return true;
        }
        let slash: Vec<char> = vec!['/'];
        assert(slash@ =~= seq!['/']);
        let rest = match text::strip_prefix(url, "http://") {
            Some(rest) => rest,
            None => match text::strip_prefix(url, "https://") {
                Some(rest) => rest,
                None => {
                    return false;
                },
            },
        };
        let authority = text::first_piece(rest, &slash);
        match split_host_port(authority) {
            Some((host, Some(port))) => (text::same(host, "127.0.0.1") || text::same(
                host,
                "localhost",
            ) || text::same(host, "::1")) && self.ports.contains(&port),
            _ => false,
        }
    }
}

fn parse_port(text: &str) -> (out: Option<u16>)
    ensures
        match out {
            Some(n) => port_in(text@) == Some(n as nat),
            None => port_in(text@) is None,
        },
{
    match digits::parse_number(text, 65535) {
        Some(n) => Some(n as u16),
        None => None,
    }
}

/// The host and the port that `authority` names.
pub fn split_host_port(authority: &str) -> (out: Option<(&str, Option<u16>)>)
    ensures
        match out {
            Some((host, Some(port))) => host_and_port(authority@) == Some(
                (host@, Some(port as nat)),
            ),
            Some((host, None)) => host_and_port(authority@) == Some((host@, None::<nat>)),
            None => host_and_port(authority@) is None,
        },
{
    let count: usize = authority.unicode_len();
    if count > 0 && authority.get_char(0) == '[' {
        let close: Vec<char> = vec![']'];
        assert(close@ =~= seq![']']);
        let end: usize = text::stop(authority, &close);
        if end == count {
            return None;
        }
        proof {
            text::lemma_stop_at_bounds(authority@, close@);
            assert(authority@[0] != ']');
        }
        let host = authority.substring_char(1, end);
        let port = match text::strip_prefix(text::after(authority, end + 1), ":") {
            Some(port) => parse_port(port),
            None => None,
        };
        return Some((host, port));
    }
    match text::rfind(authority, ':') {
        Some(colon) => Some(
            (text::before(authority, colon), parse_port(text::after(authority, colon + 1))),
        ),
        None => Some((authority, None)),
    }
}

/// The host of `authority` for the check by name alone: what stands between the brackets where
/// it is written in brackets; else what stands before the last colon.
pub open spec fn bare_host(authority: Seq<char>) -> Seq<char> {
    let end = text::stop_at(authority, seq![']']);
    let colon = text::last_position(authority, ':');
    if authority.len() > 0 && authority[0] == '[' && end < authority.len() {
        authority.subrange(1, end)
    } else if colon >= 0 {
        authority.take(colon)
    } else {
        authority
    }
}

/// A host that the shell's own pages are served under.
pub open spec fn is_shell_host(host: Seq<char>) -> bool {
    is_loopback(host) || host == "dsh.internal"@ || host == "tauri.localhost"@
}

/// `url` is a page of the shell, going by its host alone.
pub open spec fn is_shell_page(url: Seq<char>) -> bool {
    ||| is_internal(url)
    ||| match web_authority(url) {
        Some(authority) => is_shell_host(bare_host(authority)),
        None => false,
    }
}

/// Whether `url` is a page of the shell, going by its host alone. The whole host has to be
/// one of the known names: `127.0.0.1.evil.com` is none.
pub fn is_allowed_navigation(url: &str) -> (out: bool)
    ensures
        out == is_shell_page(url@),
{
    if text::starts_with(url, "tauri://") || text::starts_with(url, "about:") {
        return true;
    }
    let slash: Vec<char> = vec!['/'];
    assert(slash@ =~= seq!['/']);
    let rest = match text::strip_prefix(url, "http://") {
        Some(rest) => rest,
        None => match text::strip_prefix(url, "https://") {
            Some(rest) => rest,
            None => {
                return false;
            },
        },
    };
    let authority = text::first_piece(rest, &slash);
    let close: Vec<char> = vec![']'];
    assert(close@ =~= seq![']']);
    let end: usize = text::stop(authority, &close);
    proof {
        text::lemma_stop_at_bounds(authority@, close@);
    }
    let len: usize = authority.unicode_len();
    let host = if end < len && authority.get_char(0) == '[' {
        assert(end > 0);
        authority.substring_char(1, end)
    } else {
        match text::rfind(authority, ':') {
            Some(colon) => text::before(authority, colon),
            None => authority,
        }
    };
    text::same(host, "127.0.0.1") || text::same(host, "localhost") || text::same(
        host,
        "dsh.internal",
    ) || text::same(host, "tauri.localhost") || text::same(host, "::1")
}

/// Without a port in the list the window shows no page of any server.
pub proof fn empty_list_shows_no_server(url: Seq<char>)
    ensures
        may_visit(Set::<u16>::empty(), url) == is_internal(url),
{
}

/// Entering a port shuts out no page.
pub proof fn entering_a_port_shuts_nothing_out(ports: Set<u16>, port: u16, url: Seq<char>)
    requires
        may_visit(ports, url),
    ensures
        may_visit(ports.insert(port), url),
{
}

/// Whatever page of a server the window shows, it comes from the loopback address and from a
/// port in the list.
pub proof fn visited_pages_are_registered(ports: Set<u16>, url: Seq<char>)
    requires
        may_visit(ports, url),
        !is_internal(url),
    ensures
        web_authority(url) matches Some(authority) && host_and_port(authority) matches Some(
            (host, Some(port)),
        ) && is_loopback(host) && port <= 65535 && ports.contains(port as u16),
{
}

/// Whatever page the window shows is one of the shell, going by its host too.
pub proof fn visited_pages_are_shell_pages(ports: Set<u16>, url: Seq<char>)
    requires
        may_visit(ports, url),
    ensures
        is_shell_page(url),
{
    match web_authority(url) {
        Some(authority) => {
            text::lemma_stop_at_bounds(authority, seq![']']);
        },
        None => {},
    }
}

/// The address of a service on this machine.
pub open spec fn service_url(port: nat) -> Seq<char> {
    "http://127.0.0.1:"@ + digits::decimal(port)
}

/// Every page of a service on a port in the list may be shown.
pub proof fn registered_service_is_shown(ports: Set<u16>, port: u16, path: Seq<char>)
    requires
        ports.contains(port),
        path.len() == 0 || path[0] == '/',
    ensures
        may_visit(ports, service_url(port as nat) + path),
{
    let url = service_url(port as nat) + path;
    let number = digits::decimal(port as nat);
    let authority = "127.0.0.1:"@ + number;
    reveal_strlit("http://");
    reveal_strlit("http://127.0.0.1:");
    reveal_strlit("127.0.0.1:");
    reveal_strlit("127.0.0.1");
    digits::decimal_reads_back(port as nat, 65535);
    digits::decimal_is_digits(port as nat);
    assert(url.subrange(0, 7) =~= "http://"@);
    let rest = url.skip(7);
    assert(rest =~= authority + path);
    assert forall|i: int| 0 <= i < authority.len() implies !seq!['/'].contains(
        #[trigger] authority[i],
    ) by {
        if i >= 10 {
            assert(authority[i] == number[i - 10]);
            assert(digits::is_digit(number[i - 10]));
        }
    }
    assert forall|i: int| 0 <= i < authority.len() implies !seq!['/'].contains(
        #[trigger] rest[i],
    ) by {
        assert(rest[i] == authority[i]);
    }
    if path.len() > 0 {
        assert(seq!['/'][0] == rest[authority.len() as int]);
    }
    text::lemma_stop_at_is(rest, seq!['/'], authority.len() as int);
    assert(rest.take(authority.len() as int) =~= authority);
    text::lemma_last_position(authority, ':');
    assert(authority[9] == ':');
    assert forall|i: int| 9 < i < authority.len() implies authority[i] != ':' by {
        assert(digits::is_digit(number[i - 10]));
    }
    assert(text::last_position(authority, ':') == 9);
    assert(authority.take(9) =~= "127.0.0.1"@);
    assert(authority.skip(10) =~= number);
}

/// An address of the web: its scheme, with or without encryption, what names the server, and
/// the rest.
pub open spec fn web_address(secure: bool, authority: Seq<char>, path: Seq<char>) -> Seq<char> {
    (if secure {
        "https://"@
    } else {
        "http://"@
    }) + (authority + path)
}

proof fn lemma_web_address(secure: bool, authority: Seq<char>, path: Seq<char>)
    requires
        forall|i: int| 0 <= i < authority.len() ==> #[trigger] authority[i] != '/',
        path.len() == 0 || path[0] == '/',
    ensures
        web_authority(web_address(secure, authority, path)) == Some(authority),
        !is_internal(web_address(secure, authority, path)),
{
    let url = web_address(secure, authority, path);
    let rest = authority + path;
    reveal_strlit("http://");
    reveal_strlit("https://");
    reveal_strlit("tauri://");
    reveal_strlit("about:");
    assert(url[0] == 'h' && url[4] == (if secure {
        's'
    } else {
        ':'
    }));
    if text::begins_with(url, "tauri://"@) {
        assert(url.subrange(0, 8)[0] == url[0]);
    }
    if text::begins_with(url, "about:"@) {
        assert(url.subrange(0, 6)[0] == url[0]);
    }
    if secure && text::begins_with(url, "http://"@) {
        assert(url.subrange(0, 7)[4] == url[4]);
    }
    let none: Seq<char> = seq![];
    text::part_stands_between(
        none,
        if secure {
            "https://"@
        } else {
            "http://"@
        },
        rest,
    );
    let slash = seq!['/'];
    assert(slash[0] == '/');
    assert forall|i: int| 0 <= i < authority.len() implies !slash.contains(#[trigger] rest[i]) by {
        assert(rest[i] == authority[i]);
    }
    if path.len() > 0 {
        assert(rest[authority.len() as int] == path[0]);
    }
    text::lemma_stop_at_is(rest, slash, authority.len() as int);
    assert(rest.take(authority.len() as int) =~= authority);
}

proof fn lemma_named_port(host: Seq<char>, port: u16)
    requires
        forall|i: int| 0 <= i < host.len() ==> #[trigger] host[i] != ':' && host[i] != '[' && host[i]
            != '/',
    ensures
        ({
            let authority = host + ":"@ + digits::decimal(port as nat);
            &&& host_and_port(authority) == Some((host, Some(port as nat)))
            &&& bare_host(authority) == host
            &&& forall|i: int| 0 <= i < authority.len() ==> #[trigger] authority[i] != '/'
        }),
{
    let number = digits::decimal(port as nat);
    let authority = host + ":"@ + number;
    reveal_strlit(":");
    digits::decimal_is_digits(port as nat);
    digits::decimal_reads_back(port as nat, 65535);
    let at = host.len() as int;
    assert(authority[at] == ':');
    assert forall|i: int| at < i < authority.len() implies authority[i] != ':' && digits::is_digit(
        authority[i],
    ) by {
        assert(authority[i] == number[i - at - 1]);
        assert(digits::is_digit(number[i - at - 1]));
    }
    text::lemma_last_position(authority, ':');
    assert(text::last_position(authority, ':') == at);
    assert(authority.take(at) =~= host);
    assert(authority.skip(at + 1) =~= number);
    if host.len() > 0 {
        assert(authority[0] == host[0]);
    }
    assert forall|i: int| 0 <= i < authority.len() implies #[trigger] authority[i] != '/' by {
        if i < at {
            assert(authority[i] == host[i]);
        } else if i > at {
            assert(digits::is_digit(authority[i]));
        }
    }
}

/// A page is let in exactly where its host is a name of this machine and its port is in the
/// list, with or without encryption and whatever the path. No longer name will do, nor a name
/// before an `@`.
pub proof fn pages_are_let_in_by_host_and_port(
    list: &AllowList,
    url: &str,
    out: bool,
    shell: bool,
    secure: bool,
    host: Seq<char>,
    port: u16,
    path: Seq<char>,
)
    requires
        call_ensures(AllowList::is_allowed, (list, url), out),
        call_ensures(is_allowed_navigation, (url,), shell),
        forall|i: int| 0 <= i < host.len() ==> #[trigger] host[i] != ':' && host[i] != '[' && host[i]
            != '/',
        path.len() == 0 || path[0] == '/',
        url@ == web_address(secure, host + ":"@ + digits::decimal(port as nat), path),
    ensures
        out == ((host == "127.0.0.1"@ || host == "localhost"@) && list@.contains(port)),
        shell == (host == "127.0.0.1"@ || host == "localhost"@ || host == "dsh.internal"@ || host
            == "tauri.localhost"@),
{
    lemma_named_port(host, port);
    lemma_web_address(secure, host + ":"@ + digits::decimal(port as nat), path);
    reveal_strlit("::1");
    if host == "::1"@ {
        assert(host[0] == ':');
    }
}

/// A host in brackets is let in by the same rule: it has to be a name of this machine, and its
/// port has to be in the list.
pub proof fn hosts_in_brackets_are_let_in_alike(
    list: &AllowList,
    url: &str,
    out: bool,
    shell: bool,
    secure: bool,
    host: Seq<char>,
    port: u16,
    path: Seq<char>,
)
    requires
        call_ensures(AllowList::is_allowed, (list, url), out),
        call_ensures(is_allowed_navigation, (url,), shell),
        forall|i: int| 0 <= i < host.len() ==> #[trigger] host[i] != ']' && host[i] != '/',
        path.len() == 0 || path[0] == '/',
        url@ == web_address(
            secure,
            seq!['['] + host + "]:"@ + digits::decimal(port as nat),
            path,
        ),
    ensures
        out == ((host == "127.0.0.1"@ || host == "localhost"@ || host == "::1"@) && list@.contains(
            port,
        )),
        shell == (host == "127.0.0.1"@ || host == "localhost"@ || host == "::1"@ || host
            == "dsh.internal"@ || host == "tauri.localhost"@),
{
    let number = digits::decimal(port as nat);
    let authority = seq!['['] + host + "]:"@ + number;
    reveal_strlit("]:");
    reveal_strlit(":");
    digits::decimal_is_digits(port as nat);
    digits::decimal_reads_back(port as nat, 65535);
    let end = (host.len() + 1) as int;
    let close = seq![']'];
    assert(close[0] == ']');
    assert forall|i: int| 0 <= i < end implies !close.contains(#[trigger] authority[i]) by {
        if i > 0 {
            assert(authority[i] == host[i - 1]);
        }
    }
    assert(authority[end] == ']');
    text::lemma_stop_at_is(authority, close, end);
    assert(authority.subrange(1, end) =~= host);
    let none: Seq<char> = seq![];
    text::part_stands_between(none, ":"@, number);
    assert(authority.skip(end + 1) =~= ":"@ + number);
    assert forall|i: int| 0 <= i < authority.len() implies #[trigger] authority[i] != '/' by {
        if 0 < i < end {
            assert(authority[i] == host[i - 1]);
        } else if i > end + 1 {
            assert(authority[i] == number[i - end - 2]);
            assert(digits::is_digit(number[i - end - 2]));
        }
    }
    lemma_web_address(secure, authority, path);
}

/// Without a port no page of a server is let in; going by the name alone the known names are.
pub proof fn pages_without_a_port_are_kept_out(
    list: &AllowList,
    url: &str,
    out: bool,
    shell: bool,
    secure: bool,
    host: Seq<char>,
    path: Seq<char>,
)
    requires
        call_ensures(AllowList::is_allowed, (list, url), out),
        call_ensures(is_allowed_navigation, (url,), shell),
        forall|i: int| 0 <= i < host.len() ==> #[trigger] host[i] != ':' && host[i] != '[' && host[i]
            != '/',
        path.len() == 0 || path[0] == '/',
        url@ == web_address(secure, host, path),
    ensures
        !out,
        shell == (host == "127.0.0.1"@ || host == "localhost"@ || host == "dsh.internal"@ || host
            == "tauri.localhost"@),
{
    lemma_web_address(secure, host, path);
    text::lemma_last_position(host, ':');
    if text::last_position(host, ':') >= 0 {
        assert(host[text::last_position(host, ':')] == ':');
    }
    reveal_strlit("::1");
    if host == "::1"@ {
        assert(host[0] == ':');
    }
    if host.len() > 0 {
        assert(host[0] != '[');
    }
}

/// Pages of the window's own are let in; an address that is neither such a page nor one of the
/// web is not.
pub proof fn own_pages_are_let_in(
    list: &AllowList,
    url: &str,
    out: bool,
    shell: bool,
    rest: Seq<char>,
)
    requires
        call_ensures(AllowList::is_allowed, (list, url), out),
        call_ensures(is_allowed_navigation, (url,), shell),
    ensures
        url@ == "tauri://"@ + rest ==> out && shell,
        url@ == "about:"@ + rest ==> out && shell,
        !text::begins_with(url@, "tauri://"@) && !text::begins_with(url@, "about:"@)
            && !text::begins_with(url@, "http://"@) && !text::begins_with(url@, "https://"@) ==> !out
            && !shell,
{
    let none: Seq<char> = seq![];
    text::part_stands_between(none, "tauri://"@, rest);
    text::part_stands_between(none, "about:"@, rest);
}

/// A list that is new holds no port.
pub proof fn nothing_is_registered_at_first(list: AllowList, port: u16)
    requires
        call_ensures(allowed, (), list),
    ensures
        !list@.contains(port),
{
}

/// A port that was registered lets the pages of its service in, and changes nothing for the
/// others.
pub proof fn registered_port_is_let_in(port: u16, other: u16)
    ensures
        forall|list: &mut AllowList| #[trigger]
            call_ensures(AllowList::allow_port, (list, port), ()) ==> final(list)@.contains(port) && (
            other != port ==> final(list)@.contains(other) == (*list)@.contains(other)),
{
}

/// Host and port stand before and behind the colon; without a colon there is no port.
pub proof fn host_and_port_stand_apart(
    authority: &str,
    out: Option<(&str, Option<u16>)>,
    host: Seq<char>,
    port: u16,
)
    requires
        call_ensures(split_host_port, (authority,), out),
        host.len() > 0,
        host[0] != '[',
        forall|i: int| 0 <= i < host.len() ==> #[trigger] host[i] != ':',
    ensures
        authority@ == host ==> (out matches Some((h, p)) && h@ == host && p is None),
        authority@ == host + seq![':'] + digits::decimal(port as nat) ==> (out matches Some((h, p))
            && h@ == host && p == Some(port)),
{
    reveal_strlit(":");
    assert(":"@ =~= seq![':']);
    text::lemma_last_position(host, ':');
    let number = digits::decimal(port as nat);
    let whole = host + seq![':'] + number;
    digits::decimal_is_digits(port as nat);
    digits::decimal_reads_back(port as nat, 65535);
    text::lemma_last_position(whole, ':');
    let at = text::last_position(whole, ':');
    let colon = host.len() as int;
    assert(whole[colon] == ':');
    if at > colon {
        assert(digits::is_digit(number[at - colon - 1]));
    }
    assert(at == colon);
    assert(whole[0] == host[0]);
    assert(whole.take(colon) =~= host);
    assert(whole.skip(colon + 1) =~= number);
}

} // verus!
