//! What an update reads and decides: the versions that can be chosen, and what the output of
//! git says.

use vstd::prelude::*;
use vstd::string::*;

use crate::digits;
use crate::order;
use crate::order::KeyView;
use crate::order::SortKey;
use crate::text;
use crate::unicode;

verus! {

/// A lock that git left behind is removed once it is this old. A younger one may belong to a
/// git that is still at work.
pub const LOCK_AGE_SECS: u64 = 60;

/// So many characters of git's error output go into a message.
pub const GIT_ERROR_CHARS: usize = 500;

/// A version's name has at most so many characters.
pub const MAX_REF_CHARS: usize = 80;

/// The first `count` characters of `text`; all of it where it has no more.
pub open spec fn first_chars(text: Seq<char>, count: nat) -> Seq<char> {
    if text.len() <= count {
        text
    } else {
        text.take(count as int)
    }
}

/// What is said of a git that failed.
pub open spec fn git_failure(args: Seq<Seq<char>>, errors: Seq<char>) -> Seq<char> {
    "git "@ + text::joined(args, " "@) + " 失败："@ + first_chars(errors, GIT_ERROR_CHARS as nat)
}

/// What a run of git gives, from what it printed: its output without the white space around
/// it where it succeeded, and otherwise a message.
pub fn git_reply(args: &Vec<String>, success: bool, output: &str, errors: &str) -> (out: Result<
    String,
    String,
>)
    ensures
        match out {
            Ok(found) => success && found@ == text::stripped(output@),
            Err(message) => !success && message@ == git_failure(text::texts(args@), errors@),
        },
{
    if success {
        Ok(text::trim(output).to_string())
    } else {
        let len: usize = errors.unicode_len();
        let shown: &str = if len <= GIT_ERROR_CHARS {
            errors
        } else {
            text::before(errors, GIT_ERROR_CHARS)
        };
        let mut message: String = "git ".to_string();
        message.append(text::join(args, " ").as_str());
        message.append(" 失败：");
        message.append(shown);
        Err(message)
    }
}

/// What a run of git gives, from the bytes that it printed.
pub fn git_output(args: &Vec<String>, success: bool, stdout: &Vec<u8>, stderr: &Vec<u8>) -> (out:
    Result<String, String>)
    ensures
        match out {
            Ok(found) => success && found@ == text::stripped(unicode::lossy_text(stdout@)),
            Err(message) => !success && message@ == git_failure(
                text::texts(args@),
                unicode::lossy_text(stderr@),
            ),
        },
{
    let output: String = unicode::decode(stdout);
    let errors: String = unicode::decode(stderr);
    git_reply(args, success, output.as_str(), errors.as_str())
}

/// What is said of a git that could not be run.
pub fn git_not_run(error: &str) -> (out: String)
    ensures
        out@ == "无法运行 git: "@ + error@,
{
    let mut out: String = "无法运行 git: ".to_string();
    out.append(error);
    out
}

/// Whether a lock of git's index is removed, given how many seconds old it is. Of a lock
/// whose age cannot be read it is assumed that it was left behind.
pub fn clear_stale_git_lock(age: Option<u64>) -> (remove: bool)
    ensures
        remove == match age {
            Some(secs) => secs >= LOCK_AGE_SECS,
            None => true,
        },
{
    match age {
        Some(secs) => secs >= LOCK_AGE_SECS,
        None => true,
    }
}

/// Whether a file that follows upstream is put back to what the commit holds: it is there,
/// and it was changed.
pub fn restore_managed_files(present: bool, unchanged: bool) -> (restore: bool)
    ensures
        restore == (present && !unchanged),
{
    present && !unchanged
}

/// The two commits that were compared, and whether they are the same.
pub fn fetch_and_compare(local: &str, remote: &str) -> (out: (String, String, bool))
    ensures
        out.0@ == local@,
        out.1@ == remote@,
        out.2 == (local@ == remote@),
{
    (local.to_string(), remote.to_string(), text::same(local, remote))
}

/// The output of git, in lower case, says that local changes stood in the way.
pub open spec fn tells_of_local_changes(lowered: Seq<char>) -> bool {
    ||| text::has_text(lowered, "your local changes"@)
    ||| text::has_text(lowered, "would be overwritten by merge"@)
    ||| text::has_text(lowered, "untracked working tree files"@)
    ||| text::has_text(lowered, "please commit your changes or stash"@)
}

/// The output of git, in lower case, says that the network failed for the moment.
pub open spec fn tells_of_network(lowered: Seq<char>) -> bool {
    ||| text::has_text(lowered, "empty reply from server"@)
    ||| text::has_text(lowered, "connection timed out"@)
    ||| text::has_text(lowered, "failed to connect"@)
    ||| text::has_text(lowered, "couldn't connect to server"@)
    ||| text::has_text(lowered, "could not connect to server"@)
    ||| text::has_text(lowered, "connect tunnel failed"@)
    ||| text::has_text(lowered, "connection reset by peer"@)
    ||| text::has_text(lowered, "unable to access"@)
    ||| text::has_text(lowered, "early eof"@)
    ||| text::has_text(lowered, "rpc failed"@)
    ||| text::has_text(lowered, "the remote end hung up"@)
}

/// Whether the output of git, in lower case, says that local changes stood in the way.
pub fn names_local_changes(lowered: &str) -> (out: bool)
    ensures
        out == tells_of_local_changes(lowered@),
{
    text::contains(lowered, "your local changes") || text::contains(
        lowered,
        "would be overwritten by merge",
    ) || text::contains(lowered, "untracked working tree files") || text::contains(
        lowered,
        "please commit your changes or stash",
    )
}

/// Whether the output of git says that local changes stood in the way.
pub fn looks_like_local_change_conflict(output: &str) -> (out: bool)
    ensures
        out == tells_of_local_changes(unicode::lower_text(output@)),
{
    let lowered: String = unicode::lower_case(output);
    names_local_changes(lowered.as_str())
}

/// Whether the output of git, in lower case, says that the network failed for the moment.
pub fn names_network(lowered: &str) -> (out: bool)
    ensures
        out == tells_of_network(lowered@),
{
    text::contains(lowered, "empty reply from server") || text::contains(
        lowered,
        "connection timed out",
    ) || text::contains(lowered, "failed to connect") || text::contains(
        lowered,
        "couldn't connect to server",
    ) || text::contains(lowered, "could not connect to server") || text::contains(
        lowered,
        "connect tunnel failed",
    ) || text::contains(lowered, "connection reset by peer") || text::contains(
        lowered,
        "unable to access",
    ) || text::contains(lowered, "early eof") || text::contains(lowered, "rpc failed")
        || text::contains(lowered, "the remote end hung up")
}

/// Whether the output of git says that the network failed for the moment, so that the same
/// command is worth another try.
pub fn looks_like_network_error(output: &str) -> (out: bool)
    ensures
        out == tells_of_network(unicode::lower_text(output@)),
{
    let lowered: String = unicode::lower_case(output);
    names_network(lowered.as_str())
}

/// A character that a version's name may have.
pub open spec fn is_ref_char(c: char) -> bool {
    ||| 'a' <= c <= 'z'
    ||| 'A' <= c <= 'Z'
    ||| '0' <= c <= '9'
    ||| c == '.'
    ||| c == '_'
    ||| c == '-'
    ||| c == '/'
}

/// A name that may be handed to git as a version: that of the upstream branch, or that of a
/// tag of a version.
pub open spec fn is_version_name(s: Seq<char>) -> bool {
    &&& 0 < s.len() <= MAX_REF_CHARS
    &&& s == "master"@ || text::begins_with(s, "dsh-v"@)
    &&& s[0] != '-'
    &&& s[0] != '/'
    &&& !text::has_text(s, ".."@)
    &&& forall|i: int| 0 <= i < s.len() ==> is_ref_char(#[trigger] s[i])
}

/// Whether `s` may be handed to git as a version: the upstream branch or the tag of a version,
/// with no way up in it and nothing but ASCII letters, digits and four signs.
pub fn is_safe_version_ref(s: &str) -> (out: bool)
    ensures
        out == is_version_name(s@),
{
    if !text::same(s, "master") && !text::starts_with(s, "dsh-v") {
        return false;
    }
    let all: Vec<char> = text::chars_of(s);
    if all.len() == 0 || all.len() > MAX_REF_CHARS || all[0] == '-' || all[0] == '/' {
        return false;
    }
    let mut i: usize = 0;
    while i < all.len()
        invariant
            i <= all@.len(),
            all@ == s@,
            forall|j: int| 0 <= j < i ==> is_ref_char(#[trigger] s@[j]),
        decreases all@.len() - i,
    {
        let c: char = all[i];
        if !('a' <= c && c <= 'z' || 'A' <= c && c <= 'Z' || '0' <= c && c <= '9' || c == '.'
            || c == '_' || c == '-' || c == '/') {
            assert(!is_ref_char(s@[i as int]));
            return false;
        }
        i = i + 1;
    }
    !text::contains(s, "..")
}

/// The version that a request names: none where it names none or only white space.
pub open spec fn chosen(target: Option<Seq<char>>) -> Option<Seq<char>> {
    match target {
        Some(t) => if text::stripped(t).len() == 0 {
            None
        } else {
            Some(text::stripped(t))
        },
        None => None,
    }
}

/// The version that a request names, or a message where it may not be handed to git.
pub fn chosen_target(target: Option<&str>) -> (out: Result<Option<String>, String>)
    ensures
        match out {
            Ok(None) => chosen(crate::repo::text_of(target)) is None,
            Ok(Some(name)) => chosen(crate::repo::text_of(target)) == Some(name@)
                && is_version_name(name@),
            Err(message) => match target {
                Some(t) => {
                    &&& chosen(Some(t@)) matches Some(name)
                    &&& !is_version_name(name)
                    &&& message@ == "非法的版本目标: "@ + t@
                },
                None => false,
            },
        },
{
    match target {
        None => Ok(None),
        Some(t) => {
            let name: &str = text::trim(t);
            if name.is_empty() {
                Ok(None)
            } else if is_safe_version_ref(name) {
                Ok(Some(name.to_string()))
            } else {
                let mut message: String = "非法的版本目标: ".to_string();
                message.append(t);
                Err(message)
            }
        },
    }
}

/// A digit of a hexadecimal number.
pub open spec fn is_hex(c: char) -> bool {
    '0' <= c <= '9' || 'a' <= c <= 'f' || 'A' <= c <= 'F'
}

/// A name that a commit can have: 7 to 40 hexadecimal digits.
pub open spec fn is_commit_name(s: Seq<char>) -> bool {
    &&& 7 <= s.len() <= 40
    &&& forall|i: int| 0 <= i < s.len() ==> is_hex(#[trigger] s[i])
}

/// `name` where it can be the name of a commit, and otherwise a message.
pub fn checked_commit(name: &str) -> (out: Result<String, String>)
    ensures
        match out {
            Ok(found) => is_commit_name(name@) && found@ == name@,
            Err(message) => !is_commit_name(name@) && message@ == "非法的提交哈希: "@ + name@,
        },
{
    let all: Vec<char> = text::chars_of(name);
    let mut good: bool = 7 <= all.len() && all.len() <= 40;
    let mut i: usize = 0;
    while good && i < all.len()
        invariant
            i <= all@.len(),
            all@ == name@,
            good ==> 7 <= all@.len() <= 40,
            good ==> forall|j: int| 0 <= j < i ==> is_hex(#[trigger] name@[j]),
            !good ==> !is_commit_name(name@),
        decreases all@.len() - i,
    {
        let c: char = all[i];
        if !('0' <= c && c <= '9' || 'a' <= c && c <= 'f' || 'A' <= c && c <= 'F') {
            assert(!is_hex(name@[i as int]));
            good = false;
        }
        i = i + 1;
    }
    if good {
        Ok(name.to_string())
    } else {
        let mut message: String = "非法的提交哈希: ".to_string();
        message.append(name);
        Err(message)
    }
}

/// The commit that a request to go back names, in lower case and without the white space
/// around it, or a message where it can be the name of no commit.
pub fn rollback_target(commit: &str) -> (out: Result<String, String>)
    ensures
        ({
            let name = unicode::lower_text(text::stripped(commit@));
            match out {
                Ok(found) => is_commit_name(name) && found@ == name,
                Err(message) => !is_commit_name(name) && message@ == "非法的提交哈希: "@ + name,
            }
        }),
{
    let name: String = unicode::lower_case(text::trim(commit));
    checked_commit(name.as_str())
}

/// A version that can be chosen.
#[derive(Debug)]
pub struct VersionEntry {
    /// What a request names it by.
    pub reference: String,
    /// The commit that it stands for.
    pub commit: String,
    /// What kind of version it is: `latest`, `alpha`, `rc` or `stable`.
    pub kind: String,
    /// It is what the repository holds now.
    pub is_current: bool,
    /// It failed to build before.
    pub known_bad: bool,
}

/// `VersionEntry` as plain values.
pub struct EntryView {
    pub reference: Seq<char>,
    pub commit: Seq<char>,
    pub kind: Seq<char>,
    pub is_current: bool,
    pub known_bad: bool,
}

impl View for VersionEntry {
    type V = EntryView;

    open spec fn view(&self) -> EntryView {
        EntryView {
            reference: self.reference@,
            commit: self.commit@,
            kind: self.kind@,
            is_current: self.is_current,
            known_bad: self.known_bad,
        }
    }
}

/// What the repository holds, and what it could hold.
#[derive(Debug)]
pub struct Versions {
    pub local: String,
    pub entries: Vec<VersionEntry>,
}

/// The entries of a list as plain values.
pub open spec fn entry_views(list: Seq<VersionEntry>) -> Seq<EntryView> {
    list.map_values(|e: VersionEntry| e@)
}

/// The entry of a commit.
pub open spec fn entry(
    reference: Seq<char>,
    commit: Seq<char>,
    kind: Seq<char>,
    local: Seq<char>,
    bad: Seq<Seq<char>>,
) -> EntryView {
    EntryView {
        reference,
        commit,
        kind,
        is_current: commit == local,
        known_bad: bad.contains(commit),
    }
}

/// The entry of the upstream branch, where its commit is known.
pub open spec fn master_entries(
    master: Option<Seq<char>>,
    local: Seq<char>,
    bad: Seq<Seq<char>>,
) -> Seq<EntryView> {
    match master {
        Some(commit) => if commit.len() == 0 {
            seq![]
        } else {
            seq![entry("master"@, commit, "latest"@, local, bad)]
        },
        None => seq![],
    }
}

/// The piece of a line at `at`; nothing where the line has fewer.
pub open spec fn column(line: Seq<char>, at: int) -> Seq<char> {
    let list = text::pieces(line, seq!['\t']);
    if 0 <= at < list.len() {
        list[at]
    } else {
        seq![]
    }
}

/// The name of a tag, from its full reference.
pub open spec fn tag_name(reference: Seq<char>) -> Seq<char> {
    match text::without_prefix(reference, "refs/tags/"@) {
        Some(name) => name,
        None => reference,
    }
}

/// The kind of version that a tag's name tells.
pub open spec fn tag_kind(name: Seq<char>) -> Seq<char> {
    if text::has_text(name, "-alpha"@) {
        "alpha"@
    } else if text::has_text(name, "-rc"@) {
        "rc"@
    } else {
        "stable"@
    }
}

/// The commit that a line tells: that which an annotated tag points to, and otherwise the
/// object itself.
pub open spec fn tag_commit(line: Seq<char>) -> Seq<char> {
    if column(line, 2).len() == 0 {
        column(line, 1)
    } else {
        column(line, 2)
    }
}

/// The entry of a line that tells a tag's reference, its object, and the object that this
/// points to. There is none where the name or the commit is missing.
pub open spec fn tag_entry(line: Seq<char>, local: Seq<char>, bad: Seq<Seq<char>>) -> Option<
    EntryView,
> {
    let name = tag_name(column(line, 0));
    if name.len() == 0 || tag_commit(line).len() == 0 {
        None
    } else {
        Some(entry(name, tag_commit(line), tag_kind(name), local, bad))
    }
}

/// The entries of lines.
pub open spec fn tag_entries(lines: Seq<Seq<char>>, local: Seq<char>, bad: Seq<Seq<char>>) -> Seq<
    EntryView,
>
    decreases lines.len(),
{
    if lines.len() == 0 {
        seq![]
    } else {
        let rest = tag_entries(lines.drop_last(), local, bad);
        match tag_entry(lines.last(), local, bad) {
            Some(new) => rest.push(new),
            None => rest,
        }
    }
}

/// Every version that can be chosen, as git tells them.
pub open spec fn listed(
    local: Seq<char>,
    master: Option<Seq<char>>,
    tags: Option<Seq<char>>,
    bad: Seq<Seq<char>>,
) -> Seq<EntryView> {
    master_entries(master, local, bad) + (match tags {
        Some(t) => tag_entries(text::lines_of(t), local, bad),
        None => seq![],
    })
}

/// What an entry is ordered by: the upstream branch goes first.
pub open spec fn entry_key(e: EntryView) -> KeyView {
    KeyView { late: e.kind != "latest"@, name: e.reference }
}

/// What the entries of a list are ordered by.
pub open spec fn entry_keys(all: Seq<EntryView>) -> Seq<KeyView> {
    all.map_values(|e: EntryView| entry_key(e))
}

/// The entries of `out` are those of `all`, the upstream branch first and then the tags from
/// the last name down.
pub open spec fn is_sorted_version_of(out: Seq<EntryView>, all: Seq<EntryView>) -> bool {
    exists|places: Seq<usize>|
        {
            &&& order::is_rearrangement(places, all.len())
            &&& #[trigger] order::in_order(entry_keys(all), places, true)
            &&& out == order::rearranged(all, places)
        }
}

fn make_entry(reference: &str, commit: &str, kind: &str, local: &str, bad: &Vec<String>) -> (out:
    VersionEntry)
    ensures
        out@ == entry(reference@, commit@, kind@, local@, text::texts(bad@)),
{
    VersionEntry {
        reference: reference.to_string(),
        commit: commit.to_string(),
        kind: kind.to_string(),
        is_current: text::same(commit, local),
        known_bad: text::list_has(bad, commit),
    }
}

fn piece_at(list: &Vec<String>, at: usize) -> (out: String)
    ensures
        out@ == (if at < list@.len() {
            text::texts(list@)[at as int]
        } else {
            seq![]
        }),
{
    if at < list.len() {
        list[at].clone()
    } else {
        let out: String = String::new();
        assert(out@ =~= seq![]);
        out
    }
}

fn read_tag(line: &str, local: &str, bad: &Vec<String>) -> (out: Option<VersionEntry>)
    ensures
        match out {
            Some(e) => tag_entry(line@, local@, text::texts(bad@)) == Some(e@),
            None => tag_entry(line@, local@, text::texts(bad@)) is None,
        },
{
    let tab: Vec<char> = vec!['\t'];
    assert(tab@ =~= seq!['\t']);
    let columns: Vec<String> = text::split(line, &tab);
    let full: String = piece_at(&columns, 0);
    let object: String = piece_at(&columns, 1);
    let peeled: String = piece_at(&columns, 2);
    let name: &str = match text::strip_prefix(full.as_str(), "refs/tags/") {
        Some(rest) => rest,
        None => full.as_str(),
    };
    let commit: &str = if peeled.as_str().is_empty() {
        object.as_str()
    } else {
        peeled.as_str()
    };
    if name.is_empty() || commit.is_empty() {
        return None;
    }
    let kind: &str = if text::contains(name, "-alpha") {
        "alpha"
    } else if text::contains(name, "-rc") {
        "rc"
    } else {
        "stable"
    };
    Some(make_entry(name, commit, kind, local, bad))
}

fn sort_entries(entries: Vec<VersionEntry>) -> (out: Vec<VersionEntry>)
    ensures
        is_sorted_version_of(entry_views(out@), entry_views(entries@)),
{
    let ghost all = entry_views(entries@);
    let mut keys: Vec<SortKey> = Vec::new();
    let mut i: usize = 0;
    while i < entries.len()
        invariant
            i <= entries@.len(),
            all == entry_views(entries@),
            keys@.len() == i,
            forall|j: int| 0 <= j < i ==> (#[trigger] keys@[j])@ == entry_key(all[j]),
        decreases entries@.len() - i,
    {
        let late: bool = !text::same(entries[i].kind.as_str(), "latest");
        keys.push(SortKey { late, name: entries[i].reference.clone() });
        i = i + 1;
    }
    let places: Vec<usize> = order::sorted_places(&keys, true);
    assert(order::key_views(keys@) =~= entry_keys(all));
    let mut out: Vec<VersionEntry> = Vec::new();
    let mut k: usize = 0;
    while k < places.len()
        invariant
            k <= places@.len(),
            all == entry_views(entries@),
            order::is_rearrangement(places@, all.len()),
            out@.len() == k,
            forall|j: int| 0 <= j < k ==> (#[trigger] out@[j])@ == all[places@[j] as int],
        decreases places@.len() - k,
    {
        assert(places@[k as int] < all.len());
        let e: &VersionEntry = &entries[places[k]];
        let copy = VersionEntry {
            reference: e.reference.clone(),
            commit: e.commit.clone(),
            kind: e.kind.clone(),
            is_current: e.is_current,
            known_bad: e.known_bad,
        };
        out.push(copy);
        k = k + 1;
    }
    assert(entry_views(out@) =~= order::rearranged(all, places@));
    out
}

/// The versions that can be chosen, from what git tells: the commit that the repository is
/// at, that of the upstream branch, and one line for each tag.
pub fn check_update_blocking(
    local: &str,
    master: Option<&str>,
    tags: Option<&str>,
    bad: &Vec<String>,
) -> (out: Versions)
    ensures
        out.local@ == local@,
        is_sorted_version_of(
            entry_views(out.entries@),
            listed(
                local@,
                crate::repo::text_of(master),
                crate::repo::text_of(tags),
                text::texts(bad@),
            ),
        ),
{
    let ghost bads = text::texts(bad@);
    let mut entries: Vec<VersionEntry> = Vec::new();
    match master {
        Some(commit) => {
            if !commit.is_empty() {
                entries.push(make_entry("master", commit, "latest", local, bad));
            }
        },
        None => {},
    }
    let ghost first = master_entries(crate::repo::text_of(master), local@, bads);
    assert(entry_views(entries@) =~= first);
    match tags {
        Some(t) => {
            let lines: Vec<String> = text::lines(t);
            let ghost views = text::texts(lines@);
            let mut i: usize = 0;
            assert(views.take(0) =~= seq![]);
            assert(first + tag_entries(views.take(0), local@, bads) =~= first);
            while i < lines.len()
                invariant
                    i <= lines@.len(),
                    views == text::texts(lines@),
                    bads == text::texts(bad@),
                    entry_views(entries@) == first + tag_entries(
                        views.take(i as int),
                        local@,
                        bads,
                    ),
                decreases lines@.len() - i,
            {
                let ghost before = entry_views(entries@);
                assert(views.take(i + 1).drop_last() =~= views.take(i as int));
                assert(views.take(i + 1).last() == views[i as int]);
                match read_tag(lines[i].as_str(), local, bad) {
                    Some(e) => {
                        let ghost view = e@;
                        entries.push(e);
                        assert(entry_views(entries@) =~= before.push(view));
                    },
                    None => {},
                }
                assert(entry_views(entries@) =~= first + tag_entries(
                    views.take(i + 1),
                    local@,
                    bads,
                ));
                i = i + 1;
            }
            assert(views.take(lines@.len() as int) =~= views);
        },
        None => {
            assert(first =~= first + Seq::<EntryView>::empty());
        },
    }
    Versions { local: local.to_string(), entries: sort_entries(entries) }
}

/// What git tells decides the list: there is no other list in that order.
pub proof fn version_list_is_unique(a: Seq<EntryView>, b: Seq<EntryView>, all: Seq<EntryView>)
    requires
        is_sorted_version_of(a, all),
        is_sorted_version_of(b, all),
    ensures
        a == b,
{
    let keys = entry_keys(all);
    let p = choose|places: Seq<usize>|
        {
            &&& order::is_rearrangement(places, all.len())
            &&& #[trigger] order::in_order(keys, places, true)
            &&& a == order::rearranged(all, places)
        };
    let q = choose|places: Seq<usize>|
        {
            &&& order::is_rearrangement(places, all.len())
            &&& #[trigger] order::in_order(keys, places, true)
            &&& b == order::rearranged(all, places)
        };
    order::arrangement_is_unique(keys, p, q, true);
}

/// Every version that git tells is in the list, and nothing else.
pub proof fn version_list_is_complete(out: Seq<EntryView>, all: Seq<EntryView>, e: EntryView)
    requires
        is_sorted_version_of(out, all),
    ensures
        out.len() == all.len(),
        out.contains(e) == all.contains(e),
{
    let p = choose|places: Seq<usize>|
        {
            &&& order::is_rearrangement(places, all.len())
            &&& #[trigger] order::in_order(entry_keys(all), places, true)
            &&& out == order::rearranged(all, places)
        };
    if out.contains(e) {
        let i = choose|i: int| 0 <= i < out.len() && out[i] == e;
        assert(all[p[i] as int] == e);
    }
    if all.contains(e) {
        let i = choose|i: int| 0 <= i < all.len() && all[i] == e;
        order::lemma_every_place_is_named(p, all.len(), i);
        let j = choose|j: int| 0 <= j < p.len() && p[j] == i;
        assert(out[j] == e);
    }
}

/// A version whose commit is recorded as one that failed is marked in the list, and no other.
pub proof fn failed_versions_are_marked(
    local: Seq<char>,
    master: Option<Seq<char>>,
    tags: Option<Seq<char>>,
    bad: Seq<Seq<char>>,
    out: Seq<EntryView>,
    at: int,
)
    requires
        is_sorted_version_of(out, listed(local, master, tags, bad)),
        0 <= at < out.len(),
    ensures
        out[at].known_bad == bad.contains(out[at].commit),
        out[at].is_current == (out[at].commit == local),
{
    let all = listed(local, master, tags, bad);
    version_list_is_complete(out, all, out[at]);
    assert(out.contains(out[at]));
    let i = choose|i: int| 0 <= i < all.len() && all[i] == out[at];
    let first = master_entries(master, local, bad);
    if i >= first.len() {
        lemma_tags_are_told(text::lines_of(tags->0), local, bad, i - first.len());
    }
}

proof fn lemma_tags_are_told(
    lines: Seq<Seq<char>>,
    local: Seq<char>,
    bad: Seq<Seq<char>>,
    i: int,
)
    requires
        0 <= i < tag_entries(lines, local, bad).len(),
    ensures
        ({
            let e = tag_entries(lines, local, bad)[i];
            e.known_bad == bad.contains(e.commit) && e.is_current == (e.commit == local)
        }),
    decreases lines.len(),
{
    let rest = tag_entries(lines.drop_last(), local, bad);
    if i < rest.len() {
        lemma_tags_are_told(lines.drop_last(), local, bad, i);
    }
}

/// The upstream branch, where it is known, stands at the top of the list.
pub proof fn upstream_goes_first(
    out: Seq<EntryView>,
    local: Seq<char>,
    master: Seq<char>,
    tags: Option<Seq<char>>,
    bad: Seq<Seq<char>>,
)
    requires
        master.len() > 0,
        is_sorted_version_of(out, listed(local, Some(master), tags, bad)),
    ensures
        out.len() > 0,
        out[0] == entry("master"@, master, "latest"@, local, bad),
{
    let all = listed(local, Some(master), tags, bad);
    let top = entry("master"@, master, "latest"@, local, bad);
    let p = choose|places: Seq<usize>|
        {
            &&& order::is_rearrangement(places, all.len())
            &&& #[trigger] order::in_order(entry_keys(all), places, true)
            &&& out == order::rearranged(all, places)
        };
    assert(all[0] == top);
    order::lemma_every_place_is_named(p, all.len(), 0);
    let j = choose|j: int| 0 <= j < p.len() && p[j] == 0;
    if j > 0 {
        assert(order::settled(entry_keys(all), p[0] as int, p[j] as int, true));
        let k = p[0] as int;
        assert(k > 0);
        let lines = text::lines_of(tags->0);
        lemma_tags_are_late(lines, local, bad);
        assert(all[k] == tag_entries(lines, local, bad)[k - 1]);
        assert(entry_keys(all)[0] == entry_key(all[0]));
        assert(entry_keys(all)[k] == entry_key(all[k]));
    }
}

proof fn lemma_tags_are_late(lines: Seq<Seq<char>>, local: Seq<char>, bad: Seq<Seq<char>>)
    ensures
        forall|i: int|
            0 <= i < tag_entries(lines, local, bad).len() ==> entry_key(
                #[trigger] tag_entries(lines, local, bad)[i],
            ).late,
    decreases lines.len(),
{
    reveal_strlit("latest");
    reveal_strlit("alpha");
    reveal_strlit("rc");
    reveal_strlit("stable");
    assert("latest"@.len() == 6 && "alpha"@.len() == 5 && "rc"@.len() == 2);
    assert("latest"@[0] == 'l' && "stable"@[0] == 's');
    if lines.len() > 0 {
        let rest = tag_entries(lines.drop_last(), local, bad);
        lemma_tags_are_late(lines.drop_last(), local, bad);
        assert forall|i: int| 0 <= i < tag_entries(lines, local, bad).len() implies entry_key(
            #[trigger] tag_entries(lines, local, bad)[i],
        ).late by {
            if i < rest.len() {
                assert(entry_key(rest[i]).late);
            } else {
                assert(tag_kind(tag_name(column(lines.last(), 0))) != "latest"@);
            }
        }
    }
}

/// Each of these phrases, wherever it stands in the output, tells that the network failed, and
/// nothing else does.
pub proof fn network_phrases_are_recognised(lowered: &str, out: bool, before: Seq<char>, after: Seq<char>)
    requires
        call_ensures(names_network, (lowered,), out),
    ensures
        lowered@ == before + "empty reply from server"@ + after ==> out,
        lowered@ == before + "connection timed out"@ + after ==> out,
        lowered@ == before + "failed to connect"@ + after ==> out,
        lowered@ == before + "couldn't connect to server"@ + after ==> out,
        lowered@ == before + "could not connect to server"@ + after ==> out,
        lowered@ == before + "connect tunnel failed"@ + after ==> out,
        lowered@ == before + "connection reset by peer"@ + after ==> out,
        lowered@ == before + "unable to access"@ + after ==> out,
        lowered@ == before + "early eof"@ + after ==> out,
        lowered@ == before + "rpc failed"@ + after ==> out,
        lowered@ == before + "the remote end hung up"@ + after ==> out,
        out ==> text::has_text(lowered@, "empty reply from server"@) || text::has_text(lowered@, "connection timed out"@) || text::has_text(lowered@, "failed to connect"@) || text::has_text(lowered@, "couldn't connect to server"@) || text::has_text(lowered@, "could not connect to server"@) || text::has_text(lowered@, "connect tunnel failed"@) || text::has_text(lowered@, "connection reset by peer"@) || text::has_text(lowered@, "unable to access"@) || text::has_text(lowered@, "early eof"@) || text::has_text(lowered@, "rpc failed"@) || text::has_text(lowered@, "the remote end hung up"@),
{
    text::part_stands_between(before, "empty reply from server"@, after);
    text::part_stands_between(before, "connection timed out"@, after);
    text::part_stands_between(before, "failed to connect"@, after);
    text::part_stands_between(before, "couldn't connect to server"@, after);
    text::part_stands_between(before, "could not connect to server"@, after);
    text::part_stands_between(before, "connect tunnel failed"@, after);
    text::part_stands_between(before, "connection reset by peer"@, after);
    text::part_stands_between(before, "unable to access"@, after);
    text::part_stands_between(before, "early eof"@, after);
    text::part_stands_between(before, "rpc failed"@, after);
    text::part_stands_between(before, "the remote end hung up"@, after);
}

/// Each of these phrases, wherever it stands in the output, tells that local changes stood in
/// the way, and nothing else does.
pub proof fn conflict_phrases_are_recognised(lowered: &str, out: bool, before: Seq<char>, after: Seq<char>)
    requires
        call_ensures(names_local_changes, (lowered,), out),
    ensures
        lowered@ == before + "your local changes"@ + after ==> out,
        lowered@ == before + "would be overwritten by merge"@ + after ==> out,
        lowered@ == before + "untracked working tree files"@ + after ==> out,
        lowered@ == before + "please commit your changes or stash"@ + after ==> out,
        out ==> text::has_text(lowered@, "your local changes"@) || text::has_text(lowered@, "would be overwritten by merge"@) || text::has_text(lowered@, "untracked working tree files"@) || text::has_text(lowered@, "please commit your changes or stash"@),
{
    text::part_stands_between(before, "your local changes"@, after);
    text::part_stands_between(before, "would be overwritten by merge"@, after);
    text::part_stands_between(before, "untracked working tree files"@, after);
    text::part_stands_between(before, "please commit your changes or stash"@, after);
}

/// Output is judged in lower case.
pub proof fn output_is_judged_in_lower_case(
    output: &str,
    lowered: &str,
    network: bool,
    conflict: bool,
    names: bool,
    tells: bool,
)
    requires
        lowered@ == unicode::lower_text(output@),
        call_ensures(looks_like_network_error, (output,), network),
        call_ensures(looks_like_local_change_conflict, (output,), conflict),
        call_ensures(names_network, (lowered,), names),
        call_ensures(names_local_changes, (lowered,), tells),
    ensures
        network == names,
        conflict == tells,
{
}

/// The upstream branch and the tags of versions may be handed to git; no other name may, nor
/// one that is longer than 80 characters, leads upwards, or has a character that a tag of a
/// version never has.
pub proof fn names_that_git_may_see(s: &str, out: bool, i: int)
    requires
        call_ensures(is_safe_version_ref, (s,), out),
    ensures
        s@ == "master"@ ==> out,
        s@.len() <= 80 && text::begins_with(s@, "dsh-v"@) && !text::has_text(s@, ".."@) && (forall|k:
            int|
            0 <= k < s@.len() ==> ('a' <= (#[trigger] s@[k]) <= 'z' || 'A' <= s@[k] <= 'Z' || '0'
                <= s@[k] <= '9' || s@[k] == '.' || s@[k] == '_' || s@[k] == '-' || s@[k] == '/'))
            ==> out,
        out ==> s@ == "master"@ || text::begins_with(s@, "dsh-v"@),
        s@.len() > 80 || s@.len() == 0 || text::has_text(s@, ".."@) ==> !out,
        0 <= i < s@.len() && !('a' <= s@[i] <= 'z' || 'A' <= s@[i] <= 'Z' || '0' <= s@[i] <= '9'
            || s@[i] == '.' || s@[i] == '_' || s@[i] == '-' || s@[i] == '/') ==> !out,
{
    reveal_strlit("master");
    reveal_strlit("dsh-v");
    reveal_strlit("..");
    if s@ == "master"@ {
        assert(s@.len() == 6);
        assert forall|k: int| 0 <= k < s@.len() implies is_ref_char(#[trigger] s@[k]) by {}
        if text::has_text(s@, ".."@) {
            let at = choose|at: int| text::occurs_at(s@, ".."@, at);
            assert(s@.subrange(at, at + 2)[0] == s@[at]);
            assert(".."@[0] == '.');
        }
    }
    if text::begins_with(s@, "dsh-v"@) {
        assert(s@.subrange(0, 5)[0] == s@[0]);
        assert("dsh-v"@[0] == 'd');
    }
    if forall|k: int|
        0 <= k < s@.len() ==> ('a' <= (#[trigger] s@[k]) <= 'z' || 'A' <= s@[k] <= 'Z' || '0'
            <= s@[k] <= '9' || s@[k] == '.' || s@[k] == '_' || s@[k] == '-' || s@[k] == '/') {
        assert forall|k: int| 0 <= k < s@.len() implies is_ref_char(#[trigger] s@[k]) by {}
    }
    if out && 0 <= i < s@.len() {
        assert(is_ref_char(s@[i]));
    }
}

/// Seven to forty hexadecimal digits are taken for a commit, as they are; nothing else is.
pub proof fn commits_are_hexadecimal(name: &str, out: Result<String, String>, i: int)
    requires
        call_ensures(checked_commit, (name,), out),
    ensures
        7 <= name@.len() <= 40 && (forall|k: int|
            0 <= k < name@.len() ==> ('0' <= (#[trigger] name@[k]) <= '9' || 'a' <= name@[k] <= 'f'
                || 'A' <= name@[k] <= 'F')) ==> (out matches Ok(found) && found@ == name@),
        name@.len() < 7 || name@.len() > 40 ==> out is Err,
        0 <= i < name@.len() && !('0' <= name@[i] <= '9' || 'a' <= name@[i] <= 'f' || 'A' <= name@[i]
            <= 'F') ==> out is Err,
        out matches Err(message) ==> message@ == "非法的提交哈希: "@ + name@,
{
    if forall|k: int|
        0 <= k < name@.len() ==> ('0' <= (#[trigger] name@[k]) <= '9' || 'a' <= name@[k] <= 'f'
            || 'A' <= name@[k] <= 'F') {
        assert forall|k: int| 0 <= k < name@.len() implies is_hex(#[trigger] name@[k]) by {}
    }
    if out is Ok && 0 <= i < name@.len() {
        assert(is_hex(name@[i]));
    }
}

/// The way back goes to the commit that the request names, without the white space around it
/// and in lower case.
pub proof fn way_back_goes_to_the_named_commit(
    commit: &str,
    out: Result<String, String>,
    before: Seq<char>,
    inner: Seq<char>,
    after: Seq<char>,
)
    requires
        call_ensures(rollback_target, (commit,), out),
        commit@ == before + inner + after,
        forall|i: int| 0 <= i < before.len() ==> text::white_space().contains(#[trigger] before[i]),
        forall|i: int| 0 <= i < after.len() ==> text::white_space().contains(#[trigger] after[i]),
        inner.len() > 0 ==> !text::white_space().contains(inner[0]) && !text::white_space().contains(
            inner.last(),
        ),
    ensures
        out matches Ok(found) ==> found@ == unicode::lower_text(inner) && is_commit_name(found@),
        out matches Err(message) ==> !is_commit_name(unicode::lower_text(inner)) && message@
            == "非法的提交哈希: "@ + unicode::lower_text(inner),
{
    text::white_space_around_is_removed(before, inner, after);
}

/// What git prints is handed on without the white space around it; where it fails, the message
/// names the command and the first 500 characters of what it said.
pub proof fn words_of_git_are_handed_on(
    args: &Vec<String>,
    success: bool,
    output: &str,
    errors: &str,
    out: Result<String, String>,
    before: Seq<char>,
    inner: Seq<char>,
    after: Seq<char>,
)
    requires
        call_ensures(git_reply, (args, success, output, errors), out),
        output@ == before + inner + after,
        forall|i: int| 0 <= i < before.len() ==> text::white_space().contains(#[trigger] before[i]),
        forall|i: int| 0 <= i < after.len() ==> text::white_space().contains(#[trigger] after[i]),
        inner.len() > 0 ==> !text::white_space().contains(inner[0]) && !text::white_space().contains(
            inner.last(),
        ),
    ensures
        success ==> (out matches Ok(found) && found@ == inner),
        !success && errors@.len() <= 500 ==> (out matches Err(message) && message@ == "git "@
            + text::joined(text::texts(args@), " "@) + " 失败："@ + errors@),
        !success && errors@.len() > 500 ==> (out matches Err(message) && message@ == "git "@
            + text::joined(text::texts(args@), " "@) + " 失败："@ + errors@.take(500)),
{
    text::white_space_around_is_removed(before, inner, after);
}

/// What git printed as bytes is judged as the text that the bytes are.
pub proof fn bytes_of_git_are_text(
    args: &Vec<String>,
    success: bool,
    stdout: &Vec<u8>,
    stderr: &Vec<u8>,
    output: &str,
    errors: &str,
    from_bytes: Result<String, String>,
    from_text: Result<String, String>,
)
    requires
        output@ == unicode::lossy_text(stdout@),
        errors@ == unicode::lossy_text(stderr@),
        call_ensures(git_output, (args, success, stdout, stderr), from_bytes),
        call_ensures(git_reply, (args, success, output, errors), from_text),
    ensures
        (from_bytes is Ok) == (from_text is Ok),
        from_bytes matches Ok(found) ==> found@ == from_text->Ok_0@,
        from_bytes matches Err(message) ==> message@ == from_text->Err_0@,
{
}

/// A lock goes once it is a minute old, or where its age cannot be told; a younger one stays.
pub proof fn young_locks_stay(age: Option<u64>, remove: bool)
    requires
        call_ensures(clear_stale_git_lock, (age,), remove),
    ensures
        age is None ==> remove,
        age is Some && age->0 < 60 ==> !remove,
        age is Some && age->0 >= 60 ==> remove,
{
}

/// A file is put back exactly where it is there and differs, and two commits are compared as
/// they are.
pub proof fn files_and_commits_are_compared(
    present: bool,
    unchanged: bool,
    restore: bool,
    local: &str,
    remote: &str,
    out: (String, String, bool),
)
    requires
        call_ensures(restore_managed_files, (present, unchanged), restore),
        call_ensures(fetch_and_compare, (local, remote), out),
    ensures
        restore ==> present && !unchanged,
        present && !unchanged ==> restore,
        out.2 == (local@ == remote@),
        out.0@ == local@,
        out.1@ == remote@,
{
}

/// A line for a tag is read: the name without the path of the tags, the commit that an
/// annotated tag points to and otherwise the object, the kind that the name tells, whether it
/// is what the repository holds, and whether it failed before.
pub proof fn tag_lines_are_read(
    name: Seq<char>,
    object: Seq<char>,
    peeled: Seq<char>,
    local: Seq<char>,
    bad: Seq<Seq<char>>,
)
    requires
        name.len() > 0,
        object.len() > 0,
        forall|i: int| 0 <= i < name.len() ==> #[trigger] name[i] != '\t',
        forall|i: int| 0 <= i < object.len() ==> #[trigger] object[i] != '\t',
        forall|i: int| 0 <= i < peeled.len() ==> #[trigger] peeled[i] != '\t',
    ensures
        ({
            let line = "refs/tags/"@ + name + seq!['\t'] + (object + seq!['\t'] + peeled);
            let commit = if peeled.len() == 0 {
                object
            } else {
                peeled
            };
            tag_entry(line, local, bad) matches Some(e) && {
                &&& e.reference == name
                &&& e.commit == commit
                &&& e.is_current == (commit == local)
                &&& e.known_bad == bad.contains(commit)
                &&& text::has_text(name, "-alpha"@) ==> e.kind == "alpha"@
                &&& !text::has_text(name, "-alpha"@) && text::has_text(name, "-rc"@) ==> e.kind
                    == "rc"@
                &&& !text::has_text(name, "-alpha"@) && !text::has_text(name, "-rc"@) ==> e.kind
                    == "stable"@
            }
        }),
{
    let tab = seq!['\t'];
    let full = "refs/tags/"@ + name;
    let rest = object + tab + peeled;
    let line = full + tab + rest;
    assert(tab[0] == '\t');
    assert(tab.contains('\t'));
    reveal_strlit("refs/tags/");
    assert forall|i: int| 0 <= i < full.len() implies !tab.contains(#[trigger] full[i]) by {
        if i >= 10 {
            assert(full[i] == name[i - 10]);
        }
    }
    text::first_piece_is_cut_off(full, '\t', rest, tab);
    assert forall|i: int| 0 <= i < object.len() implies !tab.contains(#[trigger] object[i]) by {}
    text::first_piece_is_cut_off(object, '\t', peeled, tab);
    assert forall|i: int| 0 <= i < peeled.len() implies !tab.contains(#[trigger] peeled[i]) by {}
    text::only_piece_is_the_text(peeled, tab);
    let all = text::pieces(line, tab);
    assert(all =~= seq![full, object, peeled]);
    let none: Seq<char> = seq![];
    text::part_stands_between(none, "refs/tags/"@, name);
}

/// A line without a name or without a commit is left out.
pub proof fn broken_tag_lines_are_left_out(line: Seq<char>, local: Seq<char>, bad: Seq<Seq<char>>)
    requires
        line.len() == 0 || forall|i: int| 0 <= i < line.len() ==> #[trigger] line[i] != '\t',
    ensures
        tag_entry(line, local, bad) is None,
{
    let tab = seq!['\t'];
    assert(tab[0] == '\t');
    assert forall|i: int| 0 <= i < line.len() implies !tab.contains(#[trigger] line[i]) by {}
    text::only_piece_is_the_text(line, tab);
}

/// Every line that tells a version is in the list, and every version of the list is told by the
/// upstream branch or by a line.
pub proof fn every_told_version_is_listed(
    local: Seq<char>,
    master: Option<Seq<char>>,
    tags: Seq<char>,
    bad: Seq<Seq<char>>,
    e: EntryView,
)
    ensures
        listed(local, master, Some(tags), bad).contains(e) == ((master is Some && master->0.len()
            > 0 && e == (EntryView {
            reference: "master"@,
            commit: master->0,
            kind: "latest"@,
            is_current: master->0 == local,
            known_bad: bad.contains(master->0),
        })) || exists|i: int|
            0 <= i < text::lines_of(tags).len() && tag_entry(
                #[trigger] text::lines_of(tags)[i],
                local,
                bad,
            ) == Some(e)),
{
    let first = master_entries(master, local, bad);
    let lines = text::lines_of(tags);
    let rest = tag_entries(lines, local, bad);
    lemma_tag_entries(lines, local, bad, e);
    let all = first + rest;
    if all.contains(e) {
        let i = choose|i: int| 0 <= i < all.len() && all[i] == e;
        if i >= first.len() {
            assert(rest[i - first.len()] == e);
        } else {
            assert(first[i] == e);
        }
    }
    if rest.contains(e) {
        let i = choose|i: int| 0 <= i < rest.len() && rest[i] == e;
        assert(all[first.len() + i] == e);
    }
    if first.len() > 0 {
        assert(all[0] == first[0]);
    }
}

proof fn lemma_tag_entries(
    lines: Seq<Seq<char>>,
    local: Seq<char>,
    bad: Seq<Seq<char>>,
    e: EntryView,
)
    ensures
        tag_entries(lines, local, bad).contains(e) == exists|i: int|
            0 <= i < lines.len() && tag_entry(#[trigger] lines[i], local, bad) == Some(e),
    decreases lines.len(),
{
    if lines.len() > 0 {
        let before = lines.drop_last();
        lemma_tag_entries(before, local, bad, e);
        match tag_entry(lines.last(), local, bad) {
            Some(new) => {
                vstd::seq_lib::lemma_seq_contains_after_push(
                    tag_entries(before, local, bad),
                    new,
                    e,
                );
            },
            None => {},
        }
        if tag_entries(before, local, bad).contains(e) {
            let i = choose|i: int|
                0 <= i < before.len() && tag_entry(#[trigger] before[i], local, bad) == Some(e);
            assert(lines[i] == before[i]);
        }
        if tag_entry(lines.last(), local, bad) == Some(e) {
            assert(tag_entry(lines[lines.len() - 1], local, bad) == Some(e));
        }
        if exists|i: int|
            0 <= i < lines.len() && tag_entry(#[trigger] lines[i], local, bad) == Some(e) {
            let i = choose|i: int|
                0 <= i < lines.len() && tag_entry(#[trigger] lines[i], local, bad) == Some(e);
            if i < before.len() {
                assert(before[i] == lines[i]);
            }
        }
    }
}

/// The list that the user sees: it holds the versions that git tells, the upstream branch stands
/// at its top, and below it the names go down, so that the newest version comes first.
pub proof fn newest_version_comes_first(
    local: &str,
    master: Option<&str>,
    tags: Option<&str>,
    bad: &Vec<String>,
    out: Versions,
    i: int,
    j: int,
)
    requires
        call_ensures(check_update_blocking, (local, master, tags, bad), out),
    ensures
        out.local@ == local@,
        master is Some && master->0@.len() > 0 ==> out.entries@.len() > 0
            && out.entries@[0].reference@ == "master"@ && out.entries@[0].commit@ == master->0@
            && out.entries@[0].kind@ == "latest"@,
        0 <= i < j < out.entries@.len() && out.entries@[i].kind@ != "latest"@
            ==> !order::text_before(out.entries@[i].reference@, out.entries@[j].reference@)
            && out.entries@[j].kind@ != "latest"@,
        0 <= i < out.entries@.len() ==> out.entries@[i].is_current == (out.entries@[i].commit@
            == local@) && out.entries@[i].known_bad == text::texts(bad@).contains(
            out.entries@[i].commit@,
        ),
        out.entries@.len() == listed(
            local@,
            crate::repo::text_of(master),
            crate::repo::text_of(tags),
            text::texts(bad@),
        ).len(),
{
    let all = listed(
        local@,
        crate::repo::text_of(master),
        crate::repo::text_of(tags),
        text::texts(bad@),
    );
    let views = entry_views(out.entries@);
    if master is Some && master->0@.len() > 0 {
        upstream_goes_first(
            views,
            local@,
            master->0@,
            crate::repo::text_of(tags),
            text::texts(bad@),
        );
        assert(views[0] == out.entries@[0]@);
    }
    let p = choose|places: Seq<usize>|
        {
            &&& order::is_rearrangement(places, all.len())
            &&& #[trigger] order::in_order(entry_keys(all), places, true)
            &&& views == order::rearranged(all, places)
        };
    assert(views.len() == out.entries@.len());
    if 0 <= i < j < views.len() {
        assert(views[i] == out.entries@[i]@ && views[j] == out.entries@[j]@);
        assert(order::settled(entry_keys(all), p[i] as int, p[j] as int, true));
        assert(entry_keys(all)[p[i] as int] == entry_key(views[i]));
        assert(entry_keys(all)[p[j] as int] == entry_key(views[j]));
        order::text_order_is_total(views[i].reference, views[j].reference);
    }
    if 0 <= i < views.len() {
        assert(views[i] == out.entries@[i]@);
        failed_versions_are_marked(
            local@,
            crate::repo::text_of(master),
            crate::repo::text_of(tags),
            text::texts(bad@),
            views,
            i,
        );
    }
}

/// Whether an update or an installation is at work. The window is not closed meanwhile.
pub struct Busy {
    updating: bool,
}

impl View for Busy {
    type V = bool;

    closed spec fn view(&self) -> bool {
        self.updating
    }
}

impl Busy {
    /// Nothing is at work.
    pub fn new() -> (busy: Busy)
        ensures
            !busy@,
    {
        Busy { updating: false }
    }

    /// Whether something is at work.
    pub fn is_updating(&self) -> (out: bool)
        ensures
            out == self@,
    {
        self.updating
    }

    /// Notes whether something is at work.
    pub fn set_updating(&mut self, v: bool)
        ensures
            final(self)@ == v,
    {
        self.updating = v;
    }
}

/// What something is noted to be at work is what was noted last.
pub proof fn work_is_noted(fresh: Busy, first: bool, busy: Busy, now: bool)
    requires
        call_ensures(Busy::new, (), fresh),
        call_ensures(Busy::is_updating, (&fresh,), first),
        call_ensures(Busy::is_updating, (&busy,), now),
    ensures
        !first,
        now == busy@,
{
}

/// A blank request names no version; one that names a version is taken up without the white
/// space around it where git may see the name, and refused as it was written where not.
pub proof fn chosen_version_is_checked(
    target: Option<&str>,
    out: Result<Option<String>, String>,
    before: Seq<char>,
    name: Seq<char>,
    after: Seq<char>,
)
    requires
        call_ensures(chosen_target, (target,), out),
        target is Some ==> target->0@ == before + name + after,
        forall|i: int| 0 <= i < before.len() ==> text::white_space().contains(#[trigger] before[i]),
        forall|i: int| 0 <= i < after.len() ==> text::white_space().contains(#[trigger] after[i]),
        name.len() > 0 ==> !text::white_space().contains(name[0]) && !text::white_space().contains(
            name.last(),
        ),
    ensures
        target is None || name.len() == 0 ==> (out matches Ok(found) && found is None),
        target is Some && name.len() > 0 && is_version_name(name) ==> (out matches Ok(Some(found))
            && found@ == name),
        target is Some && name.len() > 0 && !is_version_name(name) ==> (out matches Err(message)
            && message@ == "非法的版本目标: "@ + target->0@),
{
    text::white_space_around_is_removed(before, name, after);
}

/// The mark that something is at work is what was set last.
pub proof fn mark_is_what_was_set(v: bool)
    ensures
        forall|busy: &mut Busy| #[trigger]
            call_ensures(Busy::set_updating, (busy, v), ()) ==> final(busy)@ == v,
{
}

/// Where git cannot be run, the reason is told.
pub proof fn missing_git_is_told(error: &str, out: String)
    requires
        call_ensures(git_not_run, (error,), out),
    ensures
        out@ == "无法运行 git: "@ + error@,
{
}

} // verus!
