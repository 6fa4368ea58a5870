//! The page of the shell: who may have it, and who may call the shell's commands.
//!
//! The page is served on this machine under a path that nobody can guess. The same secret
//! stands in its address, and every command asks for it.

use vstd::prelude::*;
use vstd::string::*;

use crate::digits;
use crate::nav;
use crate::text;
use crate::unicode;

verus! {

/// What the page may load.
pub const CSP: &'static str =
    "default-src 'self'; script-src 'self' 'unsafe-inline'; style-src 'self' 'unsafe-inline'; img-src 'self' data: https:; frame-src http://127.0.0.1:* http://localhost:*; connect-src 'self' ipc: http://ipc.localhost";

/// Whether a caller holds the token. Before there is a token nobody does.
pub fn token_matches(token: &Option<String>, candidate: &str) -> (out: bool)
    ensures
        out == (text::content(*token) == Some(candidate@)),
{
    match token {
        Some(expected) => text::same(expected.as_str(), candidate),
        None => false,
    }
}

/// What a caller without the token is told.
pub const NOT_ALLOWED: &'static str = "调用凭证无效";

/// Lets a caller pass who holds the token.
pub fn guard(token: &Option<String>, candidate: &str) -> (out: Result<(), String>)
    ensures
        match out {
            Ok(_) => text::content(*token) == Some(candidate@),
            Err(message) => text::content(*token) != Some(candidate@) && message@ == NOT_ALLOWED@,
        },
{
    if token_matches(token, candidate) {
        Ok(())
    } else {
        Err(NOT_ALLOWED.to_string())
    }
}

/// The secret that two random numbers make.
pub open spec fn secret_of(a: u64, b: u64) -> Seq<char> {
    digits::hexadecimal(a as nat) + digits::hexadecimal(b as nat)
}

/// The secret that two random numbers make.
pub fn secret_text(a: u64, b: u64) -> (out: String)
    ensures
        out@ == secret_of(a, b),
{
    let mut out: String = digits::write_hexadecimal(a);
    out.append(digits::write_hexadecimal(b).as_str());
    out
}

/// The path of the page.
pub open spec fn page_path(secret: Seq<char>) -> Seq<char> {
    "/"@ + secret + "/index.html"@
}

/// The path of the page.
pub fn secret_path(secret: &str) -> (out: String)
    ensures
        out@ == page_path(secret@),
{
    let mut out: String = "/".to_string();
    out.append(secret);
    out.append("/index.html");
    out
}

/// What is asked for to get the page: its path, and the token after it.
pub open spec fn page_target(secret: Seq<char>) -> Seq<char> {
    page_path(secret) + "?k="@ + secret
}

/// The address of the page.
pub open spec fn page_url(port: nat, secret: Seq<char>) -> Seq<char> {
    nav::service_url(port) + page_target(secret)
}

/// The address of the page, for the main window.
pub fn shell_url(port: u16, secret: &str) -> (out: String)
    ensures
        out@ == page_url(port as nat, secret@),
{
    let mut out: String = "http://127.0.0.1:".to_string();
    out.append(digits::write_decimal(port as u64).as_str());
    out.append(secret_path(secret).as_str());
    out.append("?k=");
    out.append(secret);
    assert(out@ =~= page_url(port as nat, secret@));
    out
}

/// An answer: what stands before the page, and the page.
#[derive(Debug)]
pub struct Response {
    pub head: String,
    pub body: String,
}

/// The method of a request: its first word.
pub open spec fn method_of(request: Seq<char>) -> Seq<char> {
    if text::words_of(request).len() > 0 {
        text::words_of(request)[0]
    } else {
        seq![]
    }
}

/// The path of a request: its second word, up to the query.
pub open spec fn path_of(request: Seq<char>) -> Seq<char> {
    let target = if text::words_of(request).len() > 1 {
        text::words_of(request)[1]
    } else {
        "/"@
    };
    text::head(target, seq!['?', '#'])
}

/// The request asks for the page on the secret path.
pub open spec fn asks_for_page(request: Seq<char>, path: Seq<char>) -> bool {
    method_of(request) == "GET"@ && path_of(request) == path
}

/// How a request is answered.
pub open spec fn status_of(request: Seq<char>, path: Seq<char>) -> Seq<char> {
    if method_of(request) != "GET"@ {
        "405 Method Not Allowed"@
    } else if path_of(request) == path {
        "200 OK"@
    } else {
        "404 Not Found"@
    }
}

/// What stands before a page of so many bytes.
pub open spec fn head_of(status: Seq<char>, bytes: nat) -> Seq<char> {
    "HTTP/1.1 "@ + status
        + "\r\nContent-Type: text/html; charset=utf-8\r\nContent-Length: "@ + digits::decimal(bytes)
        + "\r\nCache-Control: no-store\r\nContent-Security-Policy: "@ + CSP@
        + "\r\nX-Content-Type-Options: nosniff\r\nConnection: close\r\n\r\n"@
}

/// The answer to a request.
pub open spec fn is_answer(
    response: Response,
    request: Seq<char>,
    path: Seq<char>,
    page: Seq<char>,
) -> bool {
    let body = if asks_for_page(request, path) {
        page
    } else {
        seq![]
    };
    &&& response.body@ == body
    &&& response.head@ == head_of(status_of(request, path), digits::byte_count(body))
}

fn write_head(status: &str, bytes: usize) -> (out: String)
    ensures
        out@ == head_of(status@, bytes as nat),
{
    let mut out: String = "HTTP/1.1 ".to_string();
    out.append(status);
    out.append("\r\nContent-Type: text/html; charset=utf-8\r\nContent-Length: ");
    out.append(digits::write_decimal(bytes as u64).as_str());
    out.append("\r\nCache-Control: no-store\r\nContent-Security-Policy: ");
    out.append(CSP);
    out.append("\r\nX-Content-Type-Options: nosniff\r\nConnection: close\r\n\r\n");
    out
}

/// The answer to a request: the page where it is asked for on its path, and otherwise
/// nothing.
pub fn respond(request: &str, path: &str, page: &str) -> (out: Response)
    requires
        digits::byte_count(page@) <= usize::MAX,
    ensures
        is_answer(out, request@, path@, page@),
{
    let words: Vec<String> = text::words(request);
    let ghost views = text::words_of(request@);
    let method: String = if words.len() > 0 {
        assert(views[0] == words@[0]@);
        words[0].clone()
    } else {
        let none: String = String::new();
        assert(none@ =~= seq![]);
        none
    };
    let target: String = if words.len() > 1 {
        assert(views[1] == words@[1]@);
        words[1].clone()
    } else {
        "/".to_string()
    };
    let stops: Vec<char> = vec!['?', '#'];
    assert(stops@ =~= seq!['?', '#']);
    let asked: &str = text::first_piece(target.as_str(), &stops);
    assert(digits::byte_count(Seq::<char>::empty()) == 0);
    if !text::same(method.as_str(), "GET") {
        let body: String = String::new();
        assert(body@ =~= seq![]);
        Response { head: write_head("405 Method Not Allowed", 0), body }
    } else if text::same(asked, path) {
        Response { head: write_head("200 OK", page.len()), body: page.to_string() }
    } else {
        let body: String = String::new();
        assert(body@ =~= seq![]);
        Response { head: write_head("404 Not Found", 0), body }
    }
}

/// The answer to what a caller sent.
pub fn serve(sent: &Vec<u8>, path: &str, page: &str) -> (out: Response)
    requires
        digits::byte_count(page@) <= usize::MAX,
    ensures
        is_answer(out, unicode::lossy_text(sent@), path@, page@),
{
    let request: String = unicode::decode(sent);
    respond(request.as_str(), path, page)
}

/// Whoever does not ask for the secret path gets nothing of the page.
pub proof fn page_needs_the_secret(
    response: Response,
    request: Seq<char>,
    path: Seq<char>,
    page: Seq<char>,
)
    requires
        is_answer(response, request, path, page),
        response.body@.len() > 0,
    ensures
        method_of(request) == "GET"@,
        path_of(request) == path,
        response.body@ == page,
{
}

proof fn lemma_secret_chars(a: u64, b: u64, i: int)
    requires
        0 <= i < secret_of(a, b).len(),
    ensures
        '0' <= secret_of(a, b)[i] <= '9' || 'a' <= secret_of(a, b)[i] <= 'f',
{
    digits::hexadecimal_is_digits(a as nat);
    digits::hexadecimal_is_digits(b as nat);
    let first = digits::hexadecimal(a as nat);
    if i < first.len() {
        assert(secret_of(a, b)[i] == first[i]);
    } else {
        assert(secret_of(a, b)[i] == digits::hexadecimal(b as nat)[i - first.len()]);
    }
}

proof fn lemma_first_word(word: Seq<char>, rest: Seq<char>)
    requires
        word.len() > 0,
        forall|i: int| 0 <= i < word.len() ==> !text::white_space().contains(#[trigger] word[i]),
        rest.len() > 0,
        text::white_space().contains(rest[0]),
    ensures
        text::words_of(word + rest) == seq![word] + text::words_of(rest),
{
    let all = word + rest;
    assert(all[0] == word[0]);
    assert(text::trimmed_start(all, text::white_space()) == all);
    assert forall|i: int| 0 <= i < word.len() implies !text::white_space().contains(
        #[trigger] all[i],
    ) by {
        assert(all[i] == word[i]);
    }
    assert(all[word.len() as int] == rest[0]);
    text::lemma_stop_at_is(all, text::white_space(), word.len() as int);
    assert(all.take(word.len() as int) =~= word);
    assert(all.skip(word.len() as int) =~= rest);
}

proof fn lemma_space_before(rest: Seq<char>)
    ensures
        text::words_of(seq![' '] + rest) == text::words_of(rest),
{
    let all = seq![' '] + rest;
    assert(text::white_space()[5] == ' ');
    assert(text::white_space().contains(' '));
    assert(all.skip(1) =~= rest);
    assert(all[0] == ' ');
    assert(text::trimmed_start(all, text::white_space()) == text::trimmed_start(
        rest,
        text::white_space(),
    ));
    text::lemma_trimmed_start_len(rest, text::white_space());
    let left = text::trimmed_start(rest, text::white_space());
    text::lemma_stop_at_bounds(left, text::white_space());
}

proof fn lemma_target_is_a_word(a: u64, b: u64, i: int)
    requires
        0 <= i < page_target(secret_of(a, b)).len(),
    ensures
        !text::white_space().contains(page_target(secret_of(a, b))[i]),
        i < page_path(secret_of(a, b)).len() ==> !seq!['?', '#'].contains(
            page_target(secret_of(a, b))[i],
        ),
{
    let secret = secret_of(a, b);
    let target = page_target(secret);
    reveal_strlit("/");
    reveal_strlit("/index.html");
    reveal_strlit("?k=");
    let n = secret.len() as int;
    let c = target[i];
    if i == 0 {
        assert(c == '/');
    } else if i < 1 + n {
        assert(c == secret[i - 1]);
        lemma_secret_chars(a, b, i - 1);
    } else if i < 1 + n + 11 {
        assert(c == "/index.html"@[i - 1 - n]);
    } else if i < 1 + n + 11 + 3 {
        assert(c == "?k="@[i - 12 - n]);
    } else {
        assert(c == secret[i - 15 - n]);
        lemma_secret_chars(a, b, i - 15 - n);
    }
}

/// A request that a browser makes for the address of the page: what follows the path and the
/// query is up to the browser.
pub open spec fn page_request(secret: Seq<char>, rest: Seq<char>) -> Seq<char> {
    "GET"@ + (seq![' '] + (page_target(secret) + (seq![' '] + rest)))
}

/// The window that is sent to the address of the page gets the page.
pub proof fn window_gets_the_page(a: u64, b: u64, rest: Seq<char>)
    ensures
        asks_for_page(page_request(secret_of(a, b), rest), page_path(secret_of(a, b))),
{
    let secret = secret_of(a, b);
    let target = page_target(secret);
    let tail = seq![' '] + rest;
    let after = seq![' '] + (target + tail);
    assert(text::white_space()[5] == ' ');
    assert(text::white_space().contains(' '));
    reveal_strlit("GET");
    assert forall|i: int| 0 <= i < "GET"@.len() implies !text::white_space().contains(
        #[trigger] "GET"@[i],
    ) by {}
    lemma_first_word("GET"@, after);
    lemma_space_before(target + tail);
    assert forall|i: int| 0 <= i < target.len() implies !text::white_space().contains(
        #[trigger] target[i],
    ) by {
        lemma_target_is_a_word(a, b, i);
    }
    reveal_strlit("/");
    assert(target.len() > 0);
    lemma_first_word(target, tail);
    let request = page_request(secret, rest);
    assert(text::words_of(request) =~= seq!["GET"@] + (seq![target] + text::words_of(tail)));
    assert(text::words_of(request)[0] == "GET"@);
    assert(text::words_of(request)[1] == target);
    let path = page_path(secret);
    let at = path.len() as int;
    assert forall|i: int| 0 <= i < at implies !seq!['?', '#'].contains(#[trigger] target[i]) by {
        lemma_target_is_a_word(a, b, i);
    }
    reveal_strlit("?k=");
    assert(target[at] == '?');
    assert(seq!['?', '#'][0] == '?');
    assert(seq!['?', '#'].contains('?'));
    text::lemma_stop_at_is(target, seq!['?', '#'], at);
    assert(target.take(at) =~= path);
}

/// The window may go to the address of the page once its port is registered.
pub proof fn page_may_be_shown(ports: Set<u16>, port: u16, secret: Seq<char>)
    ensures
        nav::may_visit(ports.insert(port), page_url(port as nat, secret)),
{
    reveal_strlit("/");
    let target = page_target(secret);
    assert(target[0] == '/');
    nav::registered_service_is_shown(ports.insert(port), port, target);
}

/// A caller is let pass exactly where there is a token and it is the caller's, whole.
pub proof fn only_the_token_lets_pass(
    token: &Option<String>,
    candidate: &str,
    matched: bool,
    passed: Result<(), String>,
)
    requires
        call_ensures(token_matches, (token, candidate), matched),
        call_ensures(guard, (token, candidate), passed),
    ensures
        *token is None ==> !matched && passed is Err,
        *token is Some && token->0@ == candidate@ ==> matched && passed is Ok,
        *token is Some && token->0@ != candidate@ ==> !matched && passed is Err,
        passed matches Err(message) ==> message@ == "调用凭证无效"@,
{
}

/// A request other than a GET is told that its method is not allowed, a GET of another path
/// that nothing is there, and a GET of the secret path gets the page; the head tells the
/// length of what follows.
pub proof fn requests_are_answered(
    request: &str,
    path: &str,
    page: &str,
    out: Response,
    words: Seq<Seq<char>>,
)
    requires
        call_ensures(respond, (request, path, page), out),
        words == text::words_of(request@),
    ensures
        ({
            let get = words.len() > 0 && words[0] == "GET"@;
            let here = words.len() > 1 && text::head(words[1], seq!['?', '#']) == path@;
            &&& !get ==> out.body@.len() == 0 && text::begins_with(
                out.head@,
                "HTTP/1.1 "@ + "405 Method Not Allowed"@,
            )
            &&& get && here ==> out.body@ == page@ && text::begins_with(
                out.head@,
                "HTTP/1.1 "@ + "200 OK"@,
            )
            &&& get && words.len() > 1 && !here ==> out.body@.len() == 0 && text::begins_with(
                out.head@,
                "HTTP/1.1 "@ + "404 Not Found"@,
            )
            &&& text::has_text(
                out.head@,
                "Content-Length: "@ + digits::decimal(digits::byte_count(out.body@)),
            )
            &&& text::has_text(out.head@, "Cache-Control: no-store"@)
            &&& text::has_text(
                out.head@,
                "Content-Security-Policy: "@ + "default-src 'self'; script-src 'self' 'unsafe-inline'; style-src 'self' 'unsafe-inline'; img-src 'self' data: https:; frame-src http://127.0.0.1:* http://localhost:*; connect-src 'self' ipc: http://ipc.localhost"@,
            )
        }),
{
    let none: Seq<char> = seq![];
    let status = status_of(request@, path@);
    let type_line = "\r\nContent-Type: text/html; charset=utf-8\r\nContent-Length: "@;
    let number = digits::decimal(digits::byte_count(out.body@));
    let policy_line = "\r\nCache-Control: no-store\r\nContent-Security-Policy: "@;
    let last = "\r\nX-Content-Type-Options: nosniff\r\nConnection: close\r\n\r\n"@;
    reveal_strlit("GET");
    assert("GET"@.len() == 3);
    let start = "HTTP/1.1 "@ + status;
    let after = type_line + number + policy_line + CSP@ + last;
    text::part_stands_between(none, start, after);
    assert(start + after =~= out.head@);
    reveal_strlit("\r\nContent-Type: text/html; charset=utf-8\r\nContent-Length: ");
    reveal_strlit("Content-Length: ");
    let at = type_line.len() - 16;
    assert(type_line.skip(at) =~= "Content-Length: "@);
    text::part_stands_between(
        start + type_line.take(at),
        "Content-Length: "@ + number,
        policy_line + CSP@ + last,
    );
    assert(start + type_line.take(at) + ("Content-Length: "@ + number) + (policy_line + CSP@ + last)
        =~= out.head@);
    reveal_strlit("\r\nCache-Control: no-store\r\nContent-Security-Policy: ");
    reveal_strlit("Cache-Control: no-store");
    reveal_strlit("Content-Security-Policy: ");
    assert(policy_line.subrange(2, 25) =~= "Cache-Control: no-store"@);
    assert(policy_line.skip(27) =~= "Content-Security-Policy: "@);
    let front = start + type_line + number;
    text::part_stands_between(
        front + policy_line.take(2),
        "Cache-Control: no-store"@,
        policy_line.skip(25) + CSP@ + last,
    );
    assert(front + policy_line.take(2) + "Cache-Control: no-store"@ + (policy_line.skip(25) + CSP@
        + last) =~= out.head@);
    text::part_stands_between(
        front + policy_line.take(27),
        "Content-Security-Policy: "@ + CSP@,
        last,
    );
    assert(front + policy_line.take(27) + ("Content-Security-Policy: "@ + CSP@) + last
        =~= out.head@);
}

/// The page's path and address are made of the secret: the path is the secret and the page's
/// name, and the address hands the secret on.
pub proof fn address_holds_the_secret(
    port: u16,
    secret: &str,
    path: String,
    url: String,
)
    requires
        call_ensures(secret_path, (secret,), path),
        call_ensures(shell_url, (port, secret), url),
    ensures
        path@ == "/"@ + secret@ + "/index.html"@,
        url@ == "http://127.0.0.1:"@ + digits::decimal(port as nat) + path@ + "?k="@ + secret@,
{
    assert(url@ =~= "http://127.0.0.1:"@ + digits::decimal(port as nat) + path@ + "?k="@ + secret@);
}

/// The secret is both random numbers, one after the other, in hexadecimal digits.
pub proof fn secret_is_both_numbers(a: u64, b: u64, out: String)
    requires
        call_ensures(secret_text, (a, b), out),
    ensures
        out@ == digits::hexadecimal(a as nat) + digits::hexadecimal(b as nat),
{
}

/// A request of a single word asks for the root: it is answered with the page only where that is
/// the page's path, and only where the word is `GET`. A request without a word has no method.
pub proof fn short_requests_ask_for_the_root(
    request: &str,
    path: &str,
    page: &str,
    out: Response,
    word: Seq<char>,
)
    requires
        call_ensures(respond, (request, path, page), out),
        text::words_of(request@) == seq![word] || text::words_of(request@).len() == 0,
    ensures
        text::words_of(request@).len() == 1 && word == "GET"@ && path@ == "/"@ ==> out.body@ == page@
            && text::begins_with(out.head@, "HTTP/1.1 "@ + "200 OK"@),
        text::words_of(request@).len() == 1 && word == "GET"@ && path@ != "/"@ ==> out.body@.len()
            == 0 && text::begins_with(out.head@, "HTTP/1.1 "@ + "404 Not Found"@),
        text::words_of(request@).len() == 0 ==> out.body@.len() == 0 && text::begins_with(
            out.head@,
            "HTTP/1.1 "@ + "405 Method Not Allowed"@,
        ),
{
    reveal_strlit("/");
    reveal_strlit("GET");
    let marks = seq!['?', '#'];
    assert(marks[0] == '?' && marks[1] == '#');
    text::only_piece_is_the_text("/"@, marks);
    let status = status_of(request@, path@);
    let start = "HTTP/1.1 "@ + status;
    let none: Seq<char> = seq![];
    let after = "\r\nContent-Type: text/html; charset=utf-8\r\nContent-Length: "@ + digits::decimal(
        digits::byte_count(out.body@),
    ) + "\r\nCache-Control: no-store\r\nContent-Security-Policy: "@ + CSP@
        + "\r\nX-Content-Type-Options: nosniff\r\nConnection: close\r\n\r\n"@;
    text::part_stands_between(none, start, after);
    assert(start + after =~= out.head@);
}

/// Every answer has these lines before the page, and no others.
pub proof fn answers_have_their_lines(
    sent: &Vec<u8>,
    request: &str,
    path: &str,
    page: &str,
    out: Response,
    served: Response,
)
    requires
        call_ensures(respond, (request, path, page), out),
        call_ensures(serve, (sent, path, page), served),
        request@ == unicode::lossy_text(sent@),
    ensures
        served.head@ == out.head@ && served.body@ == out.body@,
        exists|status: Seq<char>|
            (status == "200 OK"@ || status == "404 Not Found"@ || status
                == "405 Method Not Allowed"@) && out.head@ == #[trigger] ("HTTP/1.1 "@ + status)
                + "\r\nContent-Type: text/html; charset=utf-8\r\nContent-Length: "@ + digits::decimal(
                digits::byte_count(out.body@),
            ) + "\r\nCache-Control: no-store\r\nContent-Security-Policy: "@
                + "default-src 'self'; script-src 'self' 'unsafe-inline'; style-src 'self' 'unsafe-inline'; img-src 'self' data: https:; frame-src http://127.0.0.1:* http://localhost:*; connect-src 'self' ipc: http://ipc.localhost"@
                + "\r\nX-Content-Type-Options: nosniff\r\nConnection: close\r\n\r\n"@,
{
    let status = status_of(request@, path@);
    let start = "HTTP/1.1 "@ + status;
    assert(out.head@ =~= start
        + "\r\nContent-Type: text/html; charset=utf-8\r\nContent-Length: "@ + digits::decimal(
        digits::byte_count(out.body@),
    ) + "\r\nCache-Control: no-store\r\nContent-Security-Policy: "@ + CSP@
        + "\r\nX-Content-Type-Options: nosniff\r\nConnection: close\r\n\r\n"@);
}

} // verus!
