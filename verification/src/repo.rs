//! Where the harness repository is, and what the shell remembers about it.
//!
//! The shell keeps one JSON document: the place of the repository, and the commits that
//! failed to build.

use vstd::prelude::*;
use vstd::string::*;

use crate::json;
use crate::json::Json;
use crate::json::JsonView;
use crate::text;

verus! {

/// The member with the place of the repository.
pub const REPO_ROOT: &'static str = "repoRoot";

/// The member with the commits that failed to build.
pub const BAD_COMMITS: &'static str = "badRemoteCommits";

/// So many commits that failed to build are remembered.
pub const MAX_BAD_COMMITS: usize = 8;

/// So many directories, from that of the program upwards, are searched for the repository.
pub const SEARCH_LEVELS: usize = 5;

/// The document that a file holds: an object without members where there is no file or its
/// text is no JSON document.
pub open spec fn config_of(text: Option<Seq<char>>) -> JsonView {
    match text {
        Some(t) => match json::json_document(t) {
            Some(found) => found,
            None => JsonView::Object(Map::empty()),
        },
        None => JsonView::Object(Map::empty()),
    }
}

/// An optional text as its characters.
pub open spec fn text_of(text: Option<&str>) -> Option<Seq<char>> {
    match text {
        Some(t) => Some(t@),
        None => None,
    }
}

/// The place of the repository that a file names.
pub open spec fn repo_root_in(text: Option<Seq<char>>) -> Option<Seq<char>> {
    json::text_member(config_of(text), REPO_ROOT@)
}

/// The texts among the values of an array.
pub open spec fn texts_among(list: Seq<JsonView>) -> Seq<Seq<char>>
    decreases list.len(),
{
    if list.len() == 0 {
        seq![]
    } else {
        match list.last() {
            JsonView::Text(s) => texts_among(list.drop_last()).push(s),
            _ => texts_among(list.drop_last()),
        }
    }
}

/// The commits that a document records as failed to build.
pub open spec fn bad_commits(config: JsonView) -> Seq<Seq<char>> {
    match json::member(config, BAD_COMMITS@) {
        Some(JsonView::Array(list)) => texts_among(list),
        _ => seq![],
    }
}

/// The last `count` members of `list`, or all where there are no more.
pub open spec fn last_of<T>(list: Seq<T>, count: int) -> Seq<T> {
    if list.len() > count {
        list.skip(list.len() - count)
    } else {
        list
    }
}

/// An array of texts.
pub open spec fn text_array(list: Seq<Seq<char>>) -> JsonView {
    JsonView::Array(list.map_values(|s: Seq<char>| JsonView::Text(s)))
}

/// The document with `commit` recorded as failed to build. A commit that is recorded already
/// changes nothing; a new one goes to the end of the list, of which the newest are kept.
pub open spec fn with_bad(config: JsonView, commit: Seq<char>) -> JsonView {
    let list = bad_commits(config);
    if list.contains(commit) {
        config
    } else {
        json::with_member(
            config,
            BAD_COMMITS@,
            text_array(last_of(list.push(commit), MAX_BAD_COMMITS as int)),
        )
    }
}

/// The values of `list` but for the text `gone`.
pub open spec fn without_text(list: Seq<JsonView>, gone: Seq<char>) -> Seq<JsonView>
    decreases list.len(),
{
    if list.len() == 0 {
        seq![]
    } else if list.last() == JsonView::Text(gone) {
        without_text(list.drop_last(), gone)
    } else {
        without_text(list.drop_last(), gone).push(list.last())
    }
}

/// The document without the record of `commit`; nothing where it records no commits at all.
pub open spec fn without_bad(config: JsonView, commit: Seq<char>) -> Option<JsonView> {
    match json::member(config, BAD_COMMITS@) {
        Some(JsonView::Array(list)) => Some(
            json::with_member(
                config,
                BAD_COMMITS@,
                JsonView::Array(without_text(list, commit)),
            ),
        ),
        _ => None,
    }
}

/// What to do with the file that holds the document.
#[derive(Debug)]
pub enum ConfigWrite {
    /// Leave it as it is.
    Keep,
    /// Make this its text.
    Write(String),
    /// Its text is a JSON document that can have no members, so nothing can be recorded.
    NotAnObject,
}

/// The text to write is that of `config`, and read again it gives `config` but for the last
/// digits of fractions.
pub open spec fn writes(write: ConfigWrite, config: JsonView) -> bool {
    match write {
        ConfigWrite::Write(text) => {
            &&& text@ == json::json_rendering(config)
            &&& json::reads_back(text@, config)
        },
        _ => false,
    }
}

/// The text of the file once it was seen to. A file that can record nothing stays as it is.
pub open spec fn stored(text: Option<Seq<char>>, write: ConfigWrite) -> Option<Seq<char>> {
    match write {
        ConfigWrite::Write(new) => Some(new@),
        _ => text,
    }
}

/// The document that a file holds.
pub fn read_config(text: Option<&str>) -> (out: Json)
    ensures
        out@ == config_of(text_of(text)),
        out.valid(),
        json::nested_within(out@, json::MAX_LEVELS as nat),
{
    let empty: Json = Json::Object(Vec::new());
    match text {
        Some(t) => match json::parse_json(t) {
            Some(tree) => tree,
            None => empty,
        },
        None => empty,
    }
}

/// The place of the repository that a file names. The file is missing where `text` is.
pub fn parse_repo_root(text: Option<&str>) -> (out: Option<String>)
    ensures
        match out {
            Some(s) => repo_root_in(text_of(text)) == Some(s@),
            None => repo_root_in(text_of(text)) is None,
        },
{
    let config: Json = read_config(text);
    json::get_text(&config, REPO_ROOT)
}

/// The saved place of the repository, and whether the old file has to be copied to the new
/// place. The new file goes before the old one; the old one is copied where it was needed and
/// the new one does not exist.
pub fn read_repo_config(
    new_text: Option<&str>,
    legacy_text: Option<&str>,
    new_exists: bool,
) -> (out: (Option<String>, bool))
    ensures
        match out.0 {
            Some(s) => Some(s@) == (match repo_root_in(text_of(new_text)) {
                Some(root) => Some(root),
                None => repo_root_in(text_of(legacy_text)),
            }),
            None => repo_root_in(text_of(new_text)) is None && repo_root_in(
                text_of(legacy_text),
            ) is None,
        },
        out.1 == (repo_root_in(text_of(new_text)) is None && repo_root_in(
            text_of(legacy_text),
        ) is Some && !new_exists),
{
    match parse_repo_root(new_text) {
        Some(root) => (Some(root), false),
        None => match parse_repo_root(legacy_text) {
            Some(root) => (Some(root), !new_exists),
            None => (None, false),
        },
    }
}

/// The document with the repository at `repo`.
pub fn set_repo_root(config: Json, repo: &str) -> (out: Json)
    requires
        config.valid(),
        json::takes_members(config@),
    ensures
        out@ == json::with_member(config@, REPO_ROOT@, JsonView::Text(repo@)),
        out.valid(),
{
    json::set(config, REPO_ROOT, Json::Text(repo.to_string()))
}

fn accepts_members(config: &Json) -> (out: bool)
    ensures
        out == json::takes_members(config@),
{
    match config {
        Json::Null | Json::Object(_) => true,
        _ => false,
    }
}

/// What to write to the file so that it names `repo` as the place of the repository. The
/// other members stay.
pub fn write_repo_config(text: Option<&str>, repo: &str) -> (out: ConfigWrite)
    ensures
        json::takes_members(config_of(text_of(text))) ==> writes(
            out,
            json::with_member(config_of(text_of(text)), REPO_ROOT@, JsonView::Text(repo@)),
        ),
        !json::takes_members(config_of(text_of(text))) ==> out is NotAnObject,
        json::takes_members(config_of(text_of(text))) ==> repo_root_in(
            stored(text_of(text), out),
        ) == Some(repo@),
{
    let config: Json = read_config(text);
    if accepts_members(&config) {
        proof {
            json::nested_with_member(
                config@,
                REPO_ROOT@,
                JsonView::Text(repo@),
                json::MAX_LEVELS as nat,
            );
            lemma_written_root(config@, repo@);
        }
        ConfigWrite::Write(json::print_json(set_repo_root(config, repo)))
    } else {
        ConfigWrite::NotAnObject
    }
}

proof fn lemma_texts_among_push(list: Seq<JsonView>, at: int)
    requires
        0 <= at < list.len(),
    ensures
        texts_among(list.take(at + 1)) == (match list[at] {
            JsonView::Text(s) => texts_among(list.take(at)).push(s),
            _ => texts_among(list.take(at)),
        }),
{
    assert(list.take(at + 1).drop_last() =~= list.take(at));
}

/// The commits that a document records as failed to build.
pub fn bad_list(config: &Json) -> (out: Vec<String>)
    requires
        config.valid(),
    ensures
        text::texts(out@) == bad_commits(config@),
{
    let mut out: Vec<String> = Vec::new();
    match json::get(config, BAD_COMMITS) {
        Some(Json::Array(list)) => {
            let ghost views = json::trees(list@);
            proof {
                json::lemma_trees(list@);
            }
            let mut i: usize = 0;
            assert(views.take(0) =~= seq![]);
            assert(text::texts(out@) =~= texts_among(views.take(0)));
            while i < list.len()
                invariant
                    i <= list@.len(),
                    views.len() == list@.len(),
                    forall|j: int| 0 <= j < list@.len() ==> views[j] == (#[trigger] list@[j])@,
                    text::texts(out@) == texts_among(views.take(i as int)),
                decreases list@.len() - i,
            {
                let ghost done = text::texts(out@);
                proof {
                    lemma_texts_among_push(views, i as int);
                    assert(views[i as int] == list@[i as int]@);
                }
                match &list[i] {
                    Json::Text(s) => {
                        out.push(s.clone());
                        assert(text::texts(out@) =~= done.push(s@));
                    },
                    _ => {},
                }
                i = i + 1;
            }
            assert(views.take(i as int) =~= views);
        },
        _ => {
            assert(text::texts(out@) =~= seq![]);
        },
    }
    out
}

/// The commits that the file records as failed to build.
pub fn bad_remotes(text: Option<&str>) -> (out: Vec<String>)
    ensures
        text::texts(out@) == bad_commits(config_of(text_of(text))),
{
    bad_list(&read_config(text))
}

/// Whether the file records `commit` as failed to build.
pub fn is_bad_remote(text: Option<&str>, commit: &str) -> (out: bool)
    ensures
        out == bad_commits(config_of(text_of(text))).contains(commit@),
{
    text::list_has(&bad_remotes(text), commit)
}

/// The strings as an array of texts.
fn to_text_array(list: &Vec<String>) -> (out: Json)
    ensures
        out@ == text_array(text::texts(list@)),
        out.valid(),
{
    let mut values: Vec<Json> = Vec::new();
    while values.len() < list.len()
        invariant
            values@.len() <= list@.len(),
            forall|j: int|
                0 <= j < values@.len() ==> (#[trigger] values@[j])@ == JsonView::Text(list@[j]@)
                    && values@[j].valid(),
        decreases list@.len() - values@.len(),
    {
        let next: Json = Json::Text(list[values.len()].clone());
        values.push(next);
    }
    proof {
        json::lemma_trees(values@);
        assert(json::trees(values@) =~= text::texts(list@).map_values(
            |s: Seq<char>| JsonView::Text(s),
        ));
    }
    Json::Array(values)
}

/// The document with `commit` recorded as failed to build; nothing where it is recorded
/// already.
pub fn add_bad(config: Json, commit: &str) -> (out: Option<Json>)
    requires
        config.valid(),
        json::takes_members(config@),
    ensures
        match out {
            Some(new) => !bad_commits(config@).contains(commit@) && new@ == with_bad(
                config@,
                commit@,
            ) && new.valid(),
            None => bad_commits(config@).contains(commit@),
        },
{
    let mut list: Vec<String> = bad_list(&config);
    if text::list_has(&list, commit) {
        return None;
    }
    let ghost before = text::texts(list@);
    list.push(commit.to_string());
    assert(text::texts(list@) =~= before.push(commit@));
    let ghost all = text::texts(list@);
    assert(all.skip(0) =~= all);
    while list.len() > MAX_BAD_COMMITS
        invariant
            list@.len() <= all.len(),
            all.len() <= MAX_BAD_COMMITS ==> list@.len() == all.len(),
            all.len() > MAX_BAD_COMMITS ==> list@.len() >= MAX_BAD_COMMITS,
            text::texts(list@) == all.skip(all.len() - list@.len()),
        decreases list@.len(),
    {
        let ghost was = text::texts(list@);
        list.remove(0);
        assert(text::texts(list@) =~= was.skip(1));
        assert(was.skip(1) =~= all.skip(all.len() - list@.len()));
    }
    assert(text::texts(list@) =~= last_of(all, MAX_BAD_COMMITS as int));
    Some(json::set(config, BAD_COMMITS, to_text_array(&list)))
}

/// What to write to the file so that it records `commit` as failed to build.
pub fn mark_bad_remote(text: Option<&str>, commit: &str) -> (out: ConfigWrite)
    ensures
        ({
            let config = config_of(text_of(text));
            if bad_commits(config).contains(commit@) {
                out is Keep
            } else if json::takes_members(config) {
                writes(out, with_bad(config, commit@))
            } else {
                out is NotAnObject
            }
        }),
        json::takes_members(config_of(text_of(text))) ==> bad_commits(
            config_of(stored(text_of(text), out)),
        ) == bad_commits(with_bad(config_of(text_of(text)), commit@)),
        json::takes_members(config_of(text_of(text))) ==> bad_commits(
            config_of(stored(text_of(text), out)),
        ).contains(commit@),
{
    let config: Json = read_config(text);
    if accepts_members(&config) {
        proof {
            lemma_changes_stay_nested(config@, commit@);
            lemma_written_commits(with_bad(config@, commit@));
            recorded_is_bad(config@, commit@);
        }
        match add_bad(config, commit) {
            Some(new) => ConfigWrite::Write(json::print_json(new)),
            None => ConfigWrite::Keep,
        }
    } else {
        ConfigWrite::NotAnObject
    }
}

/// The document without the record of `commit`; nothing where it records no commits at all.
pub fn remove_bad(config: Json, commit: &str) -> (out: Option<Json>)
    requires
        config.valid(),
    ensures
        match out {
            Some(new) => without_bad(config@, commit@) == Some(new@) && new.valid(),
            None => without_bad(config@, commit@) is None,
        },
{
    let (rest, taken) = json::take(config, BAD_COMMITS);
    match taken {
        Some(Json::Array(mut list)) => {
            let ghost all = json::trees(list@);
            proof {
                json::lemma_trees(list@);
            }
            let mut i: usize = 0;
            let ghost mut seen: int = 0;
            assert(all.take(0) =~= seq![]);
            while i < list.len()
                invariant
                    i <= list@.len(),
                    0 <= seen <= all.len(),
                    all.len() - seen == list@.len() - i,
                    json::trees(list@).take(i as int) == without_text(all.take(seen), commit@),
                    forall|j: int|
                        #![trigger list@[j]]
                        i <= j < list@.len() ==> list@[j]@ == all[j - i + seen],
                    forall|j: int| 0 <= j < list@.len() ==> (#[trigger] list@[j]).valid(),
                decreases list@.len() - i,
            {
                let ghost before = list@;
                proof {
                    assert(all.take(seen + 1).drop_last() =~= all.take(seen));
                    assert(list@[i as int]@ == all[seen]);
                    json::lemma_trees(before);
                }
                let gone: bool = match &list[i] {
                    Json::Text(s) => text::same(s.as_str(), commit),
                    _ => false,
                };
                if gone {
                    list.remove(i);
                    proof {
                        json::lemma_trees(list@);
                        assert(json::trees(list@).take(i as int) =~= json::trees(before).take(
                            i as int,
                        ));
                    }
                } else {
                    i = i + 1;
                    proof {
                        assert(json::trees(list@).take(i as int) =~= json::trees(before).take(
                            i - 1,
                        ).push(all[seen]));
                    }
                }
                proof {
                    seen = seen + 1;
                }
            }
            proof {
                json::lemma_trees(list@);
                assert(all.take(seen) =~= all);
                assert(json::trees(list@).take(i as int) =~= json::trees(list@));
            }
            Some(json::set(rest, BAD_COMMITS, Json::Array(list)))
        },
        _ => None,
    }
}

/// What to write to the file so that it no longer records `commit` as failed to build.
pub fn clear_bad_remote(text: Option<&str>, commit: &str) -> (out: ConfigWrite)
    ensures
        match without_bad(config_of(text_of(text)), commit@) {
            Some(config) => writes(out, config),
            None => out is Keep,
        },
        !bad_commits(config_of(stored(text_of(text), out))).contains(commit@),
        forall|other: Seq<char>|
            other != commit@ ==> #[trigger] bad_commits(
                config_of(stored(text_of(text), out)),
            ).contains(other) == bad_commits(config_of(text_of(text))).contains(other),
{
    let config: Json = read_config(text);
    proof {
        lemma_changes_stay_nested(config@, commit@);
        match without_bad(config@, commit@) {
            Some(cleared) => {
                lemma_written_commits(cleared);
                assert forall|other: Seq<char>| other != commit@ implies #[trigger] bad_commits(
                    cleared,
                ).contains(other) == bad_commits(config@).contains(other) by {
                    cleared_is_not_bad(config@, commit@, other);
                }
                cleared_is_not_bad(config@, commit@, commit@);
            },
            None => {},
        }
    }
    match remove_bad(config, commit) {
        Some(new) => ConfigWrite::Write(json::print_json(new)),
        None => ConfigWrite::Keep,
    }
}

/// The version that the repository's package file names; empty where it names none.
pub open spec fn version_in(text: Option<Seq<char>>) -> Seq<char> {
    match json::text_member(config_of(text), "version"@) {
        Some(version) => version,
        None => seq![],
    }
}

/// The version that the repository's package file names.
pub fn repo_dsh_version(package: Option<&str>) -> (out: String)
    ensures
        out@ == version_in(text_of(package)),
{
    let document: Json = read_config(package);
    match json::get_text(&document, "version") {
        Some(version) => version,
        None => {
            let none: String = String::new();
            assert(none@ =~= seq![]);
            none
        },
    }
}

/// Where the repository is.
#[derive(Clone, Copy, Debug, PartialEq, Eq, Structural)]
pub enum RepoChoice {
    /// At the place that the environment names.
    FromEnv,
    /// At the saved place.
    Saved,
    /// Beside the program: so many directories above the program's own.
    Above(usize),
    /// Nowhere: the user has to say.
    NotFound,
}

/// The place to take. A place that the environment names is taken or none is; then comes the
/// saved place; then the nearest of the directories above the program.
pub open spec fn is_repo_choice(
    out: RepoChoice,
    from_env: Option<bool>,
    saved: Option<bool>,
    above: Seq<bool>,
) -> bool {
    match out {
        RepoChoice::FromEnv => from_env == Some(true),
        RepoChoice::Saved => from_env is None && saved == Some(true),
        RepoChoice::Above(level) => {
            &&& from_env is None
            &&& saved != Some(true)
            &&& level < SEARCH_LEVELS
            &&& level < above.len()
            &&& above[level as int]
            &&& forall|i: int| 0 <= i < level ==> !#[trigger] above[i]
        },
        RepoChoice::NotFound => {
            ||| from_env == Some(false)
            ||| {
                &&& from_env is None
                &&& saved != Some(true)
                &&& forall|i: int| 0 <= i < above.len() && i < SEARCH_LEVELS ==> !#[trigger] above[i]
            }
        },
    }
}

/// Where the repository is. Each argument says whether the place is the root of a
/// repository: the one that the environment names, if it names one; the saved one, if there
/// is one; and the candidates in the program's directory and in those above it.
pub fn locate_repo(from_env: Option<bool>, saved: Option<bool>, above: &Vec<bool>) -> (out:
    RepoChoice)
    ensures
        is_repo_choice(out, from_env, saved, above@),
{
    match from_env {
        Some(true) => {
            return RepoChoice::FromEnv;
        },
        Some(false) => {
            return RepoChoice::NotFound;
        },
        None => {},
    }
    if let Some(true) = saved {
        return RepoChoice::Saved;
    }
    let mut level: usize = 0;
    while level < SEARCH_LEVELS && level < above.len()
        invariant
            from_env is None,
            saved != Some(true),
            level <= SEARCH_LEVELS,
            level <= above@.len(),
            forall|i: int| 0 <= i < level ==> !#[trigger] above@[i],
        decreases SEARCH_LEVELS - level,
    {
        if above[level] {
            return RepoChoice::Above(level);
        }
        level = level + 1;
    }
    RepoChoice::NotFound
}

/// The answers decide the place: no two places are right.
pub proof fn repo_choice_is_unique(
    a: RepoChoice,
    b: RepoChoice,
    from_env: Option<bool>,
    saved: Option<bool>,
    above: Seq<bool>,
)
    requires
        is_repo_choice(a, from_env, saved, above),
        is_repo_choice(b, from_env, saved, above),
    ensures
        a == b,
{
    match (a, b) {
        (RepoChoice::Above(i), RepoChoice::Above(j)) => {
            if i < j {
                assert(!above[i as int]);
            } else if j < i {
                assert(!above[j as int]);
            }
        },
        _ => {},
    }
}

proof fn lemma_texts_among_array(list: Seq<Seq<char>>)
    ensures
        texts_among(list.map_values(|s: Seq<char>| JsonView::Text(s))) == list,
    decreases list.len(),
{
    let values = list.map_values(|s: Seq<char>| JsonView::Text(s));
    if list.len() > 0 {
        lemma_texts_among_array(list.drop_last());
        assert(values.drop_last() =~= list.drop_last().map_values(
            |s: Seq<char>| JsonView::Text(s),
        ));
        assert(list.drop_last().push(list.last()) =~= list);
    } else {
        assert(values =~= seq![]);
        assert(list =~= seq![]);
    }
}

/// The member names differ, so that writing one leaves the other.
proof fn lemma_names_differ()
    ensures
        REPO_ROOT@ != BAD_COMMITS@,
{
    reveal_strlit("repoRoot");
    reveal_strlit("badRemoteCommits");
    assert(REPO_ROOT@.len() == 8);
    assert(BAD_COMMITS@.len() == 16);
}

/// What the list of failed commits is after one was recorded: the newest ones, the new one
/// last. Only eight are kept.
pub proof fn recorded_commits(config: JsonView, commit: Seq<char>)
    requires
        !bad_commits(config).contains(commit),
    ensures
        bad_commits(with_bad(config, commit)) == last_of(
            bad_commits(config).push(commit),
            MAX_BAD_COMMITS as int,
        ),
        bad_commits(with_bad(config, commit)).len() <= MAX_BAD_COMMITS,
{
    lemma_texts_among_array(last_of(bad_commits(config).push(commit), MAX_BAD_COMMITS as int));
}

/// A commit that was recorded is found again.
pub proof fn recorded_is_bad(config: JsonView, commit: Seq<char>)
    ensures
        bad_commits(with_bad(config, commit)).contains(commit),
{
    if !bad_commits(config).contains(commit) {
        recorded_commits(config, commit);
        let list = bad_commits(with_bad(config, commit));
        assert(list.last() == commit);
        assert(list[list.len() - 1] == commit);
    }
}

/// To record a commit twice is to record it once.
pub proof fn recording_twice_is_once(config: JsonView, commit: Seq<char>)
    ensures
        with_bad(with_bad(config, commit), commit) == with_bad(config, commit),
{
    recorded_is_bad(config, commit);
}

proof fn lemma_without_text(list: Seq<JsonView>, gone: Seq<char>, other: Seq<char>)
    ensures
        !texts_among(without_text(list, gone)).contains(gone),
        other != gone ==> (texts_among(without_text(list, gone)).contains(other) == texts_among(
            list,
        ).contains(other)),
    decreases list.len(),
{
    if list.len() > 0 {
        let rest = list.drop_last();
        lemma_without_text(rest, gone, other);
        let kept = without_text(rest, gone);
        let before = texts_among(rest);
        let after = texts_among(kept);
        assert(kept.push(list.last()).drop_last() =~= kept);
        match list.last() {
            JsonView::Text(s) => {
                assert forall|t: Seq<char>| before.push(s).contains(t) == (before.contains(t) || t
                    == s) by {
                    lemma_push_contains(before, s, t);
                }
                assert forall|t: Seq<char>| after.push(s).contains(t) == (after.contains(t) || t
                    == s) by {
                    lemma_push_contains(after, s, t);
                }
            },
            _ => {},
        }
    }
}

proof fn lemma_push_contains(list: Seq<Seq<char>>, new: Seq<char>, t: Seq<char>)
    ensures
        list.push(new).contains(t) == (list.contains(t) || t == new),
{
    if list.contains(t) {
        let i = choose|i: int| 0 <= i < list.len() && list[i] == t;
        assert(list.push(new)[i] == t);
    }
    assert(list.push(new)[list.len() as int] == new);
    if list.push(new).contains(t) && t != new {
        let i = choose|i: int| 0 <= i < list.push(new).len() && list.push(new)[i] == t;
        assert(list[i] == t);
    }
}

/// A commit whose record was removed is no longer found; every other one is found as before.
pub proof fn cleared_is_not_bad(config: JsonView, commit: Seq<char>, other: Seq<char>)
    requires
        without_bad(config, commit) is Some,
    ensures
        !bad_commits(without_bad(config, commit)->0).contains(commit),
        other != commit ==> bad_commits(without_bad(config, commit)->0).contains(other)
            == bad_commits(config).contains(other),
{
    let list = json::member(config, BAD_COMMITS@)->0->Array_0;
    lemma_without_text(list, commit, other);
}

/// A document that records a commit can have the record removed, and then it is gone.
pub proof fn record_can_be_cleared(config: JsonView, commit: Seq<char>)
    requires
        bad_commits(config).contains(commit),
    ensures
        without_bad(config, commit) matches Some(cleared) && !bad_commits(cleared).contains(commit),
{
    cleared_is_not_bad(config, commit, commit);
}

/// The place of the repository, once written, is what is read.
pub proof fn written_root_is_read(config: JsonView, repo: Seq<char>)
    ensures
        json::text_member(
            json::with_member(config, REPO_ROOT@, JsonView::Text(repo)),
            REPO_ROOT@,
        ) == Some(repo),
{
}

/// Writing the place of the repository leaves the failed commits; recording and removing a
/// failed commit leaves the place of the repository; no write touches any other member.
pub proof fn writes_keep_the_rest(
    config: JsonView,
    repo: Seq<char>,
    commit: Seq<char>,
    name: Seq<char>,
)
    ensures
        bad_commits(json::with_member(config, REPO_ROOT@, JsonView::Text(repo))) == bad_commits(
            config,
        ),
        name != REPO_ROOT@ ==> json::member(
            json::with_member(config, REPO_ROOT@, JsonView::Text(repo)),
            name,
        ) == json::member(config, name) || !(config is Object),
        name != BAD_COMMITS@ ==> json::member(with_bad(config, commit), name) == json::member(
            config,
            name,
        ),
        name != BAD_COMMITS@ && without_bad(config, commit) is Some ==> json::member(
            without_bad(config, commit)->0,
            name,
        ) == json::member(config, name),
        json::member(with_bad(config, commit), REPO_ROOT@) == json::member(config, REPO_ROOT@),
{
    lemma_names_differ();
}

proof fn lemma_alike_texts(a: Seq<JsonView>, b: Seq<JsonView>, levels: nat)
    requires
        a.len() == b.len(),
        forall|i: int|
            #![trigger a[i]]
            #![trigger b[i]]
            0 <= i < a.len() ==> json::alike(a[i], b[i], levels),
    ensures
        texts_among(a) == texts_among(b),
    decreases a.len(),
{
    if a.len() > 0 {
        let x = a.drop_last();
        let y = b.drop_last();
        assert forall|i: int|
            #![trigger x[i]]
            #![trigger y[i]]
            0 <= i < x.len() implies json::alike(x[i], y[i], levels) by {
            assert(x[i] == a[i] && y[i] == b[i]);
        }
        lemma_alike_texts(x, y, levels);
        assert(json::alike(a[a.len() - 1], b[b.len() - 1], levels));
    }
}

/// Documents that are the same but for fractions record the same commits and name the same
/// place.
pub proof fn alike_documents_record_the_same(a: JsonView, b: JsonView)
    requires
        json::alike(a, b, json::MAX_LEVELS as nat),
    ensures
        bad_commits(a) == bad_commits(b),
        json::text_member(a, REPO_ROOT@) == json::text_member(b, REPO_ROOT@),
{
    json::alike_members(a, b, json::MAX_LEVELS as nat, REPO_ROOT@);
    json::alike_members(a, b, json::MAX_LEVELS as nat, BAD_COMMITS@);
    match (json::member(a, BAD_COMMITS@), json::member(b, BAD_COMMITS@)) {
        (Some(JsonView::Array(x)), Some(JsonView::Array(y))) => {
            lemma_alike_texts(x, y, (json::MAX_LEVELS - 2) as nat);
        },
        _ => {},
    }
}

proof fn lemma_written_commits(config: JsonView)
    ensures
        forall|text: Seq<char>|
            #[trigger] json::reads_back(text, config) ==> bad_commits(config_of(Some(text))) == bad_commits(config),
{
    assert forall|text: Seq<char>|
        #[trigger] json::reads_back(text, config) implies bad_commits(config_of(Some(text))) == bad_commits(config) by {
        alike_documents_record_the_same(json::json_document(text)->0, config);
    }
}

proof fn lemma_written_root(config: JsonView, repo: Seq<char>)
    ensures
        forall|text: Seq<char>|
            #[trigger] json::reads_back(
                text,
                json::with_member(config, REPO_ROOT@, JsonView::Text(repo)),
            ) ==> repo_root_in(Some(text)) == Some(repo),
{
    let new = json::with_member(config, REPO_ROOT@, JsonView::Text(repo));
    assert forall|text: Seq<char>|
        #[trigger] json::reads_back(text, new) implies repo_root_in(Some(text)) == Some(repo) by {
        alike_documents_record_the_same(json::json_document(text)->0, new);
        written_root_is_read(config, repo);
    }
}

proof fn lemma_kept_were_there(list: Seq<JsonView>, gone: Seq<char>, i: int)
    requires
        0 <= i < without_text(list, gone).len(),
    ensures
        list.contains(without_text(list, gone)[i]),
    decreases list.len(),
{
    let rest = list.drop_last();
    let kept = without_text(rest, gone);
    if i < kept.len() {
        lemma_kept_were_there(rest, gone, i);
        let j = choose|j: int| 0 <= j < rest.len() && rest[j] == kept[i];
        assert(list[j] == kept[i]);
    } else {
        assert(list[list.len() - 1] == list.last());
    }
}

proof fn lemma_text_array_within(list: Seq<Seq<char>>, levels: nat)
    requires
        levels > 0,
    ensures
        json::nested_within(text_array(list), levels),
        json::plain_within(text_array(list), levels),
{
    let values = list.map_values(|s: Seq<char>| JsonView::Text(s));
    assert forall|i: int| 0 <= i < values.len() implies json::nested_within(
        #[trigger] values[i],
        (levels - 1) as nat,
    ) && json::plain_within(values[i], (levels - 1) as nat) by {
        assert(values[i] == JsonView::Text(list[i]));
    }
}

proof fn lemma_changes_stay_nested(config: JsonView, commit: Seq<char>)
    requires
        json::nested_within(config, json::MAX_LEVELS as nat),
    ensures
        json::takes_members(config) ==> json::nested_within(
            with_bad(config, commit),
            json::MAX_LEVELS as nat,
        ),
        without_bad(config, commit) matches Some(cleared) ==> json::nested_within(
            cleared,
            json::MAX_LEVELS as nat,
        ),
        json::takes_members(config) && json::plain_within(config, json::MAX_LEVELS as nat)
            ==> json::plain_within(with_bad(config, commit), json::MAX_LEVELS as nat),
        json::plain_within(config, json::MAX_LEVELS as nat) ==> (without_bad(
            config,
            commit,
        ) matches Some(cleared) ==> json::plain_within(cleared, json::MAX_LEVELS as nat)),
{
    let levels = json::MAX_LEVELS as nat;
    let list = last_of(bad_commits(config).push(commit), MAX_BAD_COMMITS as int);
    lemma_text_array_within(list, (levels - 1) as nat);
    if json::takes_members(config) {
        json::nested_with_member(config, BAD_COMMITS@, text_array(list), levels);
    }
    match json::member(config, BAD_COMMITS@) {
        Some(JsonView::Array(old_list)) => {
            let kept = JsonView::Array(without_text(old_list, commit));
            assert(config->Object_0.contains_key(BAD_COMMITS@));
            assert(json::nested_within(JsonView::Array(old_list), (levels - 1) as nat));
            let list = without_text(old_list, commit);
            assert forall|i: int| 0 <= i < list.len() implies json::nested_within(
                #[trigger] list[i],
                (levels - 2) as nat,
            ) by {
                lemma_kept_were_there(old_list, commit, i);
                let j = choose|j: int| 0 <= j < old_list.len() && old_list[j] == list[i];
                assert(json::nested_within(old_list[j], (levels - 2) as nat));
            }
            assert(json::nested_within(kept, (levels - 1) as nat));
            if json::plain_within(config, levels) {
                assert(json::plain_within(JsonView::Array(old_list), (levels - 1) as nat));
                assert forall|i: int| 0 <= i < list.len() implies json::plain_within(
                    #[trigger] list[i],
                    (levels - 2) as nat,
                ) by {
                    lemma_kept_were_there(old_list, commit, i);
                    let j = choose|j: int| 0 <= j < old_list.len() && old_list[j] == list[i];
                    assert(json::plain_within(old_list[j], (levels - 2) as nat));
                }
                assert(json::plain_within(kept, (levels - 1) as nat));
            }
            json::nested_with_member(config, BAD_COMMITS@, kept, levels);
        },
        _ => {},
    }
}

/// What is written to the file is found in it: a commit that was recorded; of a commit whose
/// record was removed no trace, and every other one as before; and the place of the
/// repository.
pub proof fn records_survive_the_file(
    write: ConfigWrite,
    config: JsonView,
    repo: Seq<char>,
    commit: Seq<char>,
    other: Seq<char>,
)
    ensures
        writes(write, with_bad(config, commit)) ==> bad_commits(
            config_of(Some(write->Write_0@)),
        ).contains(commit),
        (without_bad(config, commit) matches Some(cleared) && writes(write, cleared)) ==> {
            &&& !bad_commits(config_of(Some(write->Write_0@))).contains(commit)
            &&& other != commit ==> bad_commits(config_of(Some(write->Write_0@))).contains(other)
                == bad_commits(config).contains(other)
        },
        writes(
            write,
            json::with_member(config, REPO_ROOT@, JsonView::Text(repo)),
        ) ==> repo_root_in(Some(write->Write_0@)) == Some(repo),
{
    lemma_written_commits(with_bad(config, commit));
    recorded_is_bad(config, commit);
    lemma_written_root(config, repo);
    match without_bad(config, commit) {
        Some(cleared) => {
            lemma_written_commits(cleared);
            cleared_is_not_bad(config, commit, other);
        },
        None => {},
    }
}

/// A document without fractions that the shell changes and writes reads back exactly.
pub proof fn written_documents_read_back(
    write: ConfigWrite,
    config: JsonView,
    repo: Seq<char>,
    commit: Seq<char>,
)
    requires
        json::takes_members(config),
        json::plain_within(config, json::MAX_LEVELS as nat),
    ensures
        ({
            let new = json::with_member(config, REPO_ROOT@, JsonView::Text(repo));
            writes(write, new) ==> config_of(Some(write->Write_0@)) == new
        }),
        writes(write, with_bad(config, commit)) ==> config_of(Some(write->Write_0@)) == with_bad(
            config,
            commit,
        ),
        (without_bad(config, commit) matches Some(cleared) && writes(write, cleared))
            ==> config_of(Some(write->Write_0@)) == without_bad(config, commit)->0,
{
    let levels = json::MAX_LEVELS as nat;
    json::plain_is_nested(config, levels);
    lemma_changes_stay_nested(config, commit);
    json::nested_with_member(config, REPO_ROOT@, JsonView::Text(repo), levels);
    match write {
        ConfigWrite::Write(text) => match json::json_document(text@) {
            Some(read) => {
                let new = json::with_member(config, REPO_ROOT@, JsonView::Text(repo));
                if json::alike(read, new, levels) {
                    json::alike_is_same(read, new, levels);
                }
                if json::alike(read, with_bad(config, commit), levels) {
                    json::alike_is_same(read, with_bad(config, commit), levels);
                }
                match without_bad(config, commit) {
                    Some(cleared) => {
                        if json::alike(read, cleared, levels) {
                            json::alike_is_same(read, cleared, levels);
                        }
                    },
                    None => {},
                }
            },
            None => {},
        },
        _ => {},
    }
}

/// Where the environment names a place, that one is taken or none; else a saved place that is
/// still right; else, whether nothing is saved or what is saved is right no longer, the nearest
/// of the first five directories upwards that holds the repository.
pub proof fn repository_is_found_where_it_is(
    from_env: Option<bool>,
    saved: Option<bool>,
    above: &Vec<bool>,
    out: RepoChoice,
    level: int,
)
    requires
        call_ensures(locate_repo, (from_env, saved, above), out),
    ensures
        from_env == Some(true) ==> out == RepoChoice::FromEnv,
        from_env == Some(false) ==> out == RepoChoice::NotFound,
        from_env is None && saved == Some(true) ==> out == RepoChoice::Saved,
        from_env is None && saved != Some(true) && 0 <= level < above@.len() && level < 5
            && above@[level] && (forall|i: int| 0 <= i < level ==> !#[trigger] above@[i]) ==> (
        out matches RepoChoice::Above(at) && at == level),
        from_env is None && saved != Some(true) && (forall|i: int|
            0 <= i < above@.len() && i < 5 ==> !#[trigger] above@[i]) ==> out
            == RepoChoice::NotFound,
        out matches RepoChoice::Above(at) ==> at < 5 && at < above@.len() && above@[at as int],
{
    match out {
        RepoChoice::Above(at) => {
            if 0 <= level < above@.len() && above@[level] && level < 5 {
                if level < at {
                    assert(!above@[level]);
                }
            }
        },
        _ => {},
    }
}

/// The place of the repository is the text under `repoRoot` in the file; there is none where
/// the file is missing, is no document, or has something else there.
pub proof fn root_is_read_from_the_file(text: Option<&str>, out: Option<String>)
    requires
        call_ensures(parse_repo_root, (text,), out),
    ensures
        text is None ==> out is None,
        text is Some && json::json_document(text->0@) is None ==> out is None,
        text is Some && (json::json_document(text->0@) matches Some(JsonView::Object(map))
            && map.contains_key("repoRoot"@) && map["repoRoot"@] is Text) ==> (out matches Some(root)
            && json::json_document(text->0@)->0->Object_0["repoRoot"@] == JsonView::Text(root@)),
        out matches Some(root) ==> text is Some && (json::json_document(text->0@) matches Some(
            JsonView::Object(map),
        ) && map.contains_key("repoRoot"@) && map["repoRoot"@] == JsonView::Text(root@)),
{
}

/// The new file counts before the old one, and the old one is taken over exactly where it was
/// needed and there is no new one.
pub proof fn new_file_goes_before_the_old(
    new_text: Option<&str>,
    legacy_text: Option<&str>,
    new_exists: bool,
    out: (Option<String>, bool),
    from_new: Option<String>,
    from_old: Option<String>,
)
    requires
        call_ensures(read_repo_config, (new_text, legacy_text, new_exists), out),
        call_ensures(parse_repo_root, (new_text,), from_new),
        call_ensures(parse_repo_root, (legacy_text,), from_old),
    ensures
        from_new is Some ==> text::content(out.0) == text::content(from_new) && !out.1,
        from_new is None && from_old is Some ==> text::content(out.0) == text::content(from_old)
            && out.1 == !new_exists,
        from_new is None && from_old is None ==> out.0 is None && !out.1,
{
}

/// The commits that failed are the texts in the array under `badRemoteCommits`, in their order,
/// and nothing else that stands there.
pub proof fn failed_commits_are_read_from_the_file(
    text: Option<&str>,
    out: Vec<String>,
    map: Map<Seq<char>, JsonView>,
    list: Seq<Seq<char>>,
)
    requires
        call_ensures(bad_remotes, (text,), out),
    ensures
        text is None ==> out@.len() == 0,
        text is Some && json::json_document(text->0@) is None ==> out@.len() == 0,
        text is Some && json::json_document(text->0@) == Some(JsonView::Object(map))
            && !map.contains_key("badRemoteCommits"@) ==> out@.len() == 0,
        text is Some && json::json_document(text->0@) == Some(JsonView::Object(map))
            && map.contains_key("badRemoteCommits"@) && map["badRemoteCommits"@]
            == JsonView::Array(list.map_values(|s: Seq<char>| JsonView::Text(s))) ==> text::texts(
            out@,
        ) == list,
{
    lemma_texts_among_array(list);
    assert(text::texts(out@).len() == out@.len());
}

/// Only texts count among the values of an array, and each of them does.
pub proof fn every_text_counts(list: Seq<JsonView>, s: Seq<char>)
    ensures
        texts_among(list).contains(s) == list.contains(JsonView::Text(s)),
    decreases list.len(),
{
    if list.len() > 0 {
        let rest = list.drop_last();
        every_text_counts(rest, s);
        assert(list =~= rest.push(list.last()));
        vstd::seq_lib::lemma_seq_contains_after_push(rest, list.last(), JsonView::Text(s));
        match list.last() {
            JsonView::Text(t) => {
                lemma_push_contains(texts_among(rest), t, s);
            },
            _ => {},
        }
    }
}

/// The files before and after a commit is recorded as failed: it is recorded, at the end of the
/// list; what was recorded stays, but that of more than eight the oldest go; and a commit that
/// is recorded already changes nothing.
pub proof fn recorded_commits_are_the_newest_eight(
    text: Option<&str>,
    commit: &str,
    out: ConfigWrite,
)
    requires
        call_ensures(mark_bad_remote, (text, commit), out),
        json::takes_members(config_of(text_of(text))),
    ensures
        ({
            let before = bad_commits(config_of(text_of(text)));
            let after = bad_commits(config_of(stored(text_of(text), out)));
            &&& before.contains(commit@) ==> out is Keep && after == before
            &&& !before.contains(commit@) ==> out is Write
            &&& !before.contains(commit@) && before.len() < 8 ==> after == before.push(commit@)
            &&& !before.contains(commit@) && before.len() >= 8 ==> after == before.skip(
                before.len() - 7,
            ).push(commit@)
            &&& after.contains(commit@)
        }),
{
    let config = config_of(text_of(text));
    let before = bad_commits(config);
    if !before.contains(commit@) {
        recorded_commits(config, commit@);
        if before.len() >= 8 {
            assert(last_of(before.push(commit@), 8) =~= before.skip(before.len() - 7).push(commit@));
        }
    }
}

/// Whether a commit is recorded as failed is whether it is among those that are.
pub proof fn recorded_commits_are_known(
    text: Option<&str>,
    commit: &str,
    out: bool,
    list: Vec<String>,
)
    requires
        call_ensures(is_bad_remote, (text, commit), out),
        call_ensures(bad_remotes, (text,), list),
    ensures
        out == text::texts(list@).contains(commit@),
{
}

/// The version of the harness is the text under `version` in its package file, and nothing
/// where that is missing.
pub proof fn version_is_read_from_the_package(package: Option<&str>, out: String)
    requires
        call_ensures(repo_dsh_version, (package,), out),
    ensures
        package is None ==> out@.len() == 0,
        package is Some && (json::json_document(package->0@) matches Some(JsonView::Object(map))
            && map.contains_key("version"@) && map["version"@] is Text) ==> JsonView::Text(out@)
            == json::json_document(package->0@)->0->Object_0["version"@],
        out@.len() > 0 ==> package is Some && (json::json_document(package->0@) matches Some(
            JsonView::Object(map),
        ) && map.contains_key("version"@) && map["version"@] == JsonView::Text(out@)),
{
}

/// After the record of a commit was removed it is not found, and every other one is found as
/// before; a file that records no commits is left alone.
pub proof fn removed_commits_leave_the_others(
    text: Option<&str>,
    commit: &str,
    out: ConfigWrite,
    other: Seq<char>,
)
    requires
        call_ensures(clear_bad_remote, (text, commit), out),
    ensures
        ({
            let before = bad_commits(config_of(text_of(text)));
            let after = bad_commits(config_of(stored(text_of(text), out)));
            &&& !after.contains(commit@)
            &&& other != commit@ ==> after.contains(other) == before.contains(other)
        }),
        text is None ==> out is Keep,
        before_has_commit(text, commit@) ==> out is Write,
{
    if before_has_commit(text, commit@) {
        record_can_be_cleared(config_of(text_of(text)), commit@);
    }
}

/// The file records the commit.
pub open spec fn before_has_commit(text: Option<&str>, commit: Seq<char>) -> bool {
    bad_commits(config_of(text_of(text))).contains(commit)
}

/// A place that was written is the place that is read, and the failed commits stay recorded.
pub proof fn written_place_is_found(text: Option<&str>, repo: &str, out: ConfigWrite)
    requires
        call_ensures(write_repo_config, (text, repo), out),
    ensures
        json::takes_members(config_of(text_of(text))) ==> {
            &&& out is Write
            &&& repo_root_in(stored(text_of(text), out)) == Some(repo@)
            &&& bad_commits(config_of(stored(text_of(text), out))) == bad_commits(
                config_of(text_of(text)),
            )
        },
        text is None ==> out is Write,
        !json::takes_members(config_of(text_of(text))) ==> out is NotAnObject,
{
    let config = config_of(text_of(text));
    lemma_written_commits(json::with_member(config, REPO_ROOT@, JsonView::Text(repo@)));
    writes_keep_the_rest(config, repo@, repo@, repo@);
}

/// A place can be written to every file that holds an object or null, and to one that is not
/// there or holds no document; to any other document it cannot.
pub proof fn place_is_written_to_objects(text: Option<&str>, repo: &str, out: ConfigWrite)
    requires
        call_ensures(write_repo_config, (text, repo), out),
    ensures
        ({
            let document = if text is Some {
                json::json_document(text->0@)
            } else {
                None
            };
            &&& document is None ==> out is Write
            &&& document is Some && (document->0 is Object || document->0 is Null) ==> out is Write
            &&& document is Some && !(document->0 is Object) && !(document->0 is Null) ==> out
                is NotAnObject
        }),
{
}

} // verus!
