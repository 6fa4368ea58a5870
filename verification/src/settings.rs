//! The user's settings in the harness, and when they have changed.
//!
//! Older versions of the harness keep them in one mapping, by section. Newer ones keep a list
//! of patches for each profile; a patch has the section as its `id` and the values under
//! `config`.

use vstd::prelude::*;
use vstd::string::*;

use crate::order;
use crate::order::KeyView;
use crate::order::SortKey;
use crate::paths;
use crate::paths::PathPlan;
use crate::paths::PathView;
use crate::repo;
use crate::text;
use crate::yaml;
use crate::yaml::Yaml;
use crate::yaml::YamlView;

verus! {

/// The profile that the shell starts.
pub const SHELL_PROFILE: &'static str = "web";

/// The document with a profile's patches.
pub const PROFILE_PATCH_FILENAME: &'static str = "cordis.patch.yml";

/// The settings are read again after so many seconds, whatever the file system tells.
pub const RECHECK_SECS: u64 = 30;

/// After a change the settings are read so many milliseconds later.
pub const SETTLE_MS: u64 = 50;

/// Where the file system tells nothing, the settings are read every so many milliseconds.
pub const POLL_MS: u64 = 500;

/// The value that a mapping of sections holds.
pub open spec fn section_value(doc: YamlView, entry: Seq<char>, key: Seq<char>) -> Option<Seq<char>> {
    match yaml::field(doc, entry) {
        Some(section) => yaml::text_field(section, key),
        None => None,
    }
}

/// The value that a patch holds for this section.
pub open spec fn patch_value(patch: YamlView, entry: Seq<char>, key: Seq<char>) -> Option<Seq<char>> {
    if yaml::text_field(patch, "id"@) == Some(entry) {
        section_value(patch, "config"@, key)
    } else {
        None
    }
}

/// The value that the first patch with one holds.
pub open spec fn patched(patches: Seq<YamlView>, entry: Seq<char>, key: Seq<char>) -> Option<Seq<char>>
    decreases patches.len(),
{
    if patches.len() == 0 {
        None
    } else {
        match patch_value(patches[0], entry, key) {
            Some(found) => Some(found),
            None => patched(patches.skip(1), entry, key),
        }
    }
}

/// The value that a document holds: read as a mapping of sections first, and then as a list
/// of patches.
pub open spec fn held(doc: YamlView, entry: Seq<char>, key: Seq<char>) -> Option<Seq<char>> {
    match section_value(doc, entry, key) {
        Some(found) => Some(found),
        None => match yaml::items(doc) {
            Some(patches) => patched(patches, entry, key),
            None => None,
        },
    }
}

fn section_text<'a>(doc: &'a Yaml, entry: &str, key: &str) -> (out: Option<&'a str>)
    ensures
        repo::text_of(out) == section_value(doc@, entry@, key@),
{
    match yaml::get(doc, entry) {
        Some(section) => yaml::get_text(section, key),
        None => None,
    }
}

fn patch_text<'a>(patch: &'a Yaml, entry: &str, key: &str) -> (out: Option<&'a str>)
    ensures
        repo::text_of(out) == patch_value(patch@, entry@, key@),
{
    match yaml::get_text(patch, "id") {
        Some(id) => if text::same(id, entry) {
            section_text(patch, "config", key)
        } else {
            None
        },
        None => None,
    }
}

/// The value that a document holds for a section.
pub fn lookup(value: &Yaml, entry: &str, key: &str) -> (out: Option<String>)
    ensures
        text::content(out) == held(value@, entry@, key@),
{
    match section_text(value, entry, key) {
        Some(found) => {
            return Some(found.to_string());
        },
        None => {},
    }
    match yaml::read_items(value) {
        None => None,
        Some(patches) => {
            let ghost views = yaml::trees(patches@);
            proof {
                yaml::lemma_trees(patches@);
            }
            let mut i: usize = 0;
            assert(views.skip(0) =~= views);
            while i < patches.len()
                invariant
                    i <= patches@.len(),
                    views == yaml::trees(patches@),
                    views.len() == patches@.len(),
                    held(value@, entry@, key@) == patched(views.skip(i as int), entry@, key@),
                decreases patches@.len() - i,
            {
                proof {
                    yaml::lemma_trees(patches@);
                }
                assert(views.skip(i as int)[0] == patches@[i as int]@);
                assert(views.skip(i as int).skip(1) =~= views.skip(i + 1));
                match patch_text(&patches[i], entry, key) {
                    Some(found) => {
                        return Some(found.to_string());
                    },
                    None => {},
                }
                i = i + 1;
            }
            assert(views.skip(i as int).len() == 0);
            None
        },
    }
}

/// The value that the first document with one holds. A document that is missing or cannot be
/// read is passed over.
pub open spec fn first_held(docs: Seq<Option<YamlView>>, entry: Seq<char>, key: Seq<char>) -> Option<
    Seq<char>,
>
    decreases docs.len(),
{
    if docs.len() == 0 {
        None
    } else {
        let found = match docs[0] {
            Some(doc) => held(doc, entry, key),
            None => None,
        };
        match found {
            Some(value) => Some(value),
            None => first_held(docs.skip(1), entry, key),
        }
    }
}

/// Documents as plain values.
pub open spec fn doc_views(docs: Seq<Option<Yaml>>) -> Seq<Option<YamlView>> {
    docs.map_values(
        |doc: Option<Yaml>|
            match doc {
                Some(d) => Some(d@),
                None => None,
            },
    )
}

/// The value that the first document with one holds.
pub fn first_match(docs: &Vec<Option<Yaml>>, entry: &str, key: &str) -> (out: Option<String>)
    ensures
        text::content(out) == first_held(doc_views(docs@), entry@, key@),
{
    let ghost views = doc_views(docs@);
    let mut i: usize = 0;
    assert(views.skip(0) =~= views);
    while i < docs.len()
        invariant
            i <= docs@.len(),
            views == doc_views(docs@),
            first_held(views, entry@, key@) == first_held(views.skip(i as int), entry@, key@),
        decreases docs@.len() - i,
    {
        assert(views.skip(i as int)[0] == views[i as int]);
        assert(views.skip(i as int).skip(1) =~= views.skip(i + 1));
        match &docs[i] {
            Some(doc) => match lookup(doc, entry, key) {
                Some(found) => {
                    return Some(found);
                },
                None => {},
            },
            None => {},
        }
        i = i + 1;
    }
    assert(views.skip(i as int).len() == 0);
    None
}

/// The document that a file holds, where there is a file and its text is a document.
pub open spec fn document_in(file: Option<Seq<char>>) -> Option<YamlView> {
    match file {
        Some(t) => yaml::yaml_document(t),
        None => None,
    }
}

/// The documents that files hold.
pub open spec fn documents_in(files: Seq<Option<String>>) -> Seq<Option<YamlView>> {
    files.map_values(|file: Option<String>| document_in(text::content(file)))
}

/// The value that the first file with one holds. Each file is given by its text, or by nothing
/// where it cannot be read.
pub fn entry_string(files: &Vec<Option<String>>, entry: &str, key: &str) -> (out: Option<String>)
    ensures
        text::content(out) == first_held(documents_in(files@), entry@, key@),
{
    let mut docs: Vec<Option<Yaml>> = Vec::new();
    let mut i: usize = 0;
    while i < files.len()
        invariant
            i <= files@.len(),
            docs@.len() == i,
            forall|j: int|
                0 <= j < i ==> #[trigger] doc_views(docs@)[j] == documents_in(files@)[j],
        decreases files@.len() - i,
    {
        let doc: Option<Yaml> = match &files[i] {
            Some(t) => yaml::parse_yaml(t.as_str()),
            None => None,
        };
        let ghost before = docs@;
        docs.push(doc);
        assert forall|j: int| 0 <= j < i + 1 implies #[trigger] doc_views(docs@)[j]
            == documents_in(files@)[j] by {
            if j < i {
                assert(doc_views(before)[j] == documents_in(files@)[j]);
                assert(docs@[j] == before[j]);
            }
        }
        i = i + 1;
    }
    assert(doc_views(docs@) =~= documents_in(files@));
    first_match(&docs, entry, key)
}

/// The name is that of a profile's directory.
pub open spec fn names_profile(name: Seq<char>) -> bool {
    name != "node_modules"@ && !text::begins_with(name, "."@)
}

/// Whether a directory of this name is a profile's: not the one with the dependencies that
/// they share, and not a hidden one.
pub fn is_profile_dir_name(name: &str) -> (out: bool)
    ensures
        out == names_profile(name@),
{
    !text::same(name, "node_modules") && !text::starts_with(name, ".")
}

/// The profiles among directories.
pub open spec fn profiles_among(names: Seq<Seq<char>>) -> Seq<Seq<char>>
    decreases names.len(),
{
    if names.len() == 0 {
        seq![]
    } else {
        let rest = profiles_among(names.drop_last());
        if names_profile(names.last()) {
            rest.push(names.last())
        } else {
            rest
        }
    }
}

/// What a profile is ordered by: that of the shell goes first.
pub open spec fn profile_key(name: Seq<char>) -> KeyView {
    KeyView { late: name != SHELL_PROFILE@, name }
}

/// What profiles are ordered by.
pub open spec fn profile_keys(names: Seq<Seq<char>>) -> Seq<KeyView> {
    names.map_values(|name: Seq<char>| profile_key(name))
}

/// The profiles of `out` are those of `all`, that of the shell first and then the others by
/// name.
pub open spec fn is_sorted_version_of(out: Seq<Seq<char>>, all: Seq<Seq<char>>) -> bool {
    exists|places: Seq<usize>|
        {
            &&& order::is_rearrangement(places, all.len())
            &&& #[trigger] order::in_order(profile_keys(all), places, false)
            &&& out == order::rearranged(all, places)
        }
}

fn pick_profiles(names: &Vec<String>) -> (out: Vec<String>)
    ensures
        text::texts(out@) == profiles_among(text::texts(names@)),
{
    let ghost views = text::texts(names@);
    let mut out: Vec<String> = Vec::new();
    let mut i: usize = 0;
    assert(views.take(0) =~= seq![]);
    assert(text::texts(out@) =~= seq![]);
    while i < names.len()
        invariant
            i <= names@.len(),
            views == text::texts(names@),
            text::texts(out@) == profiles_among(views.take(i as int)),
        decreases names@.len() - i,
    {
        let ghost before = text::texts(out@);
        assert(views.take(i + 1).drop_last() =~= views.take(i as int));
        assert(views.take(i + 1).last() == names@[i as int]@);
        if is_profile_dir_name(names[i].as_str()) {
            out.push(names[i].clone());
            assert(text::texts(out@) =~= before.push(names@[i as int]@));
        }
        i = i + 1;
    }
    assert(views.take(names@.len() as int) =~= views);
    out
}

/// The profiles among the directories of these names, that of the shell first.
pub fn sorted_profiles(names: &Vec<String>) -> (out: Vec<String>)
    ensures
        is_sorted_version_of(text::texts(out@), profiles_among(text::texts(names@))),
{
    let picked: Vec<String> = pick_profiles(names);
    let ghost all = text::texts(picked@);
    let mut keys: Vec<SortKey> = Vec::new();
    let mut i: usize = 0;
    while i < picked.len()
        invariant
            i <= picked@.len(),
            all == text::texts(picked@),
            keys@.len() == i,
            forall|j: int| 0 <= j < i ==> (#[trigger] keys@[j])@ == profile_key(all[j]),
        decreases picked@.len() - i,
    {
        let late: bool = !text::same(picked[i].as_str(), SHELL_PROFILE);
        keys.push(SortKey { late, name: picked[i].clone() });
        i = i + 1;
    }
    let places: Vec<usize> = order::sorted_places(&keys, false);
    assert(order::key_views(keys@) =~= profile_keys(all));
    let mut out: Vec<String> = Vec::new();
    let mut k: usize = 0;
    while k < places.len()
        invariant
            k <= places@.len(),
            all == text::texts(picked@),
            order::is_rearrangement(places@, all.len()),
            out@.len() == k,
            forall|j: int| 0 <= j < k ==> (#[trigger] out@[j])@ == all[places@[j] as int],
        decreases places@.len() - k,
    {
        assert(places@[k as int] < all.len());
        out.push(picked[places[k]].clone());
        k = k + 1;
    }
    assert(text::texts(out@) =~= order::rearranged(all, places@));
    out
}

/// The document with the patches of a profile.
pub open spec fn patch_path(env: Option<Seq<char>>, name: Seq<char>) -> PathView {
    paths::joined(
        paths::joined(paths::joined(paths::home_of_dsh(env), "profiles"@), name),
        PROFILE_PATCH_FILENAME@,
    )
}

/// The documents with the patches of profiles.
pub open spec fn patch_paths(env: Option<Seq<char>>, names: Seq<Seq<char>>) -> Seq<PathView> {
    names.map_values(|name: Seq<char>| patch_path(env, name))
}

/// The documents to read, each before the next: the patches of each profile, the settings
/// file, and what was left of it.
pub open spec fn candidates(env: Option<Seq<char>>, names: Seq<Seq<char>>) -> Seq<PathView> {
    patch_paths(env, names) + seq![
        paths::joined(paths::home_of_dsh(env), "settings.yaml"@),
        paths::joined(paths::home_of_dsh(env), "settings.yaml.imported"@),
    ]
}

/// The directories of the documents, each once, in the order in which they come up.
pub open spec fn directories(files: Seq<PathView>) -> Seq<PathView>
    decreases files.len(),
{
    if files.len() == 0 {
        seq![]
    } else {
        let rest = directories(files.drop_last());
        let dir = paths::parent(files.last());
        if rest.contains(dir) {
            rest
        } else {
            rest.push(dir)
        }
    }
}

/// The documents to read, and the directories to watch.
#[derive(Debug)]
pub struct Sources {
    pub files: Vec<PathPlan>,
    pub dirs: Vec<PathPlan>,
}

/// The documents with the patches of each profile, that of the shell first. `names` are the
/// directories in that of the profiles.
pub fn patch_documents(env: Option<&str>, names: &Vec<String>) -> (out: Vec<PathPlan>)
    ensures
        exists|profiles: Seq<Seq<char>>|
            #[trigger] is_sorted_version_of(profiles, profiles_among(text::texts(names@)))
                && paths::path_views(out@) == patch_paths(repo::text_of(env), profiles),
{
    let profiles: Vec<String> = sorted_profiles(names);
    let ghost views = text::texts(profiles@);
    let mut out: Vec<PathPlan> = Vec::new();
    let mut i: usize = 0;
    while i < profiles.len()
        invariant
            i <= profiles@.len(),
            views == text::texts(profiles@),
            out@.len() == i,
            forall|j: int|
                0 <= j < i ==> (#[trigger] out@[j])@ == patch_path(repo::text_of(env), views[j]),
        decreases profiles@.len() - i,
    {
        out.push(
            paths::dsh_profiles_dir(env).join(profiles[i].as_str()).join(PROFILE_PATCH_FILENAME),
        );
        i = i + 1;
    }
    assert(paths::path_views(out@) =~= patch_paths(repo::text_of(env), views));
    out
}

fn list_holds(list: &Vec<PathPlan>, path: &PathPlan) -> (out: bool)
    ensures
        out == paths::path_views(list@).contains(path@),
{
    let mut i: usize = 0;
    while i < list.len()
        invariant
            i <= list@.len(),
            forall|j: int| 0 <= j < i ==> #[trigger] paths::path_views(list@)[j] != path@,
        decreases list@.len() - i,
    {
        if list[i].same(path) {
            assert(paths::path_views(list@)[i as int] == path@);
            return true;
        }
        i = i + 1;
    }
    false
}

fn directories_of(files: &Vec<PathPlan>) -> (out: Vec<PathPlan>)
    requires
        forall|i: int| 0 <= i < files@.len() ==> (#[trigger] files@[i])@.parts.len() > 0,
    ensures
        paths::path_views(out@) == directories(paths::path_views(files@)),
{
    let ghost views = paths::path_views(files@);
    let mut out: Vec<PathPlan> = Vec::new();
    let mut i: usize = 0;
    assert(views.take(0) =~= seq![]);
    assert(paths::path_views(out@) =~= seq![]);
    while i < files.len()
        invariant
            i <= files@.len(),
            views == paths::path_views(files@),
            forall|j: int| 0 <= j < files@.len() ==> (#[trigger] files@[j])@.parts.len() > 0,
            paths::path_views(out@) == directories(views.take(i as int)),
        decreases files@.len() - i,
    {
        let ghost before = paths::path_views(out@);
        assert(views.take(i + 1).drop_last() =~= views.take(i as int));
        assert(views.take(i + 1).last() == files@[i as int]@);
        let dir: PathPlan = files[i].parent_dir();
        if !list_holds(&out, &dir) {
            let ghost view = dir@;
            out.push(dir);
            assert(paths::path_views(out@) =~= before.push(view));
        }
        i = i + 1;
    }
    assert(views.take(files@.len() as int) =~= views);
    out
}

/// The documents to read, and the directories to watch. `names` are the directories in that of
/// the profiles.
pub fn sources(env: Option<&str>, names: &Vec<String>) -> (out: Sources)
    ensures
        exists|profiles: Seq<Seq<char>>|
            #[trigger] is_sorted_version_of(profiles, profiles_among(text::texts(names@)))
                && paths::path_views(out.files@) == candidates(repo::text_of(env), profiles),
        paths::path_views(out.dirs@) == directories(paths::path_views(out.files@)),
{
    let mut files: Vec<PathPlan> = patch_documents(env, names);
    let ghost profiles = choose|profiles: Seq<Seq<char>>|
        #[trigger] is_sorted_version_of(profiles, profiles_among(text::texts(names@)))
            && paths::path_views(files@) == patch_paths(repo::text_of(env), profiles);
    let ghost first = paths::path_views(files@);
    files.push(paths::dsh_settings_path(env));
    files.push(paths::dsh_imported_settings_path(env));
    assert(paths::path_views(files@) =~= candidates(repo::text_of(env), profiles));
    assert forall|i: int| 0 <= i < files@.len() implies (#[trigger] files@[i])@.parts.len() > 0 by {
        assert(paths::path_views(files@)[i] == files@[i]@);
        assert(candidates(repo::text_of(env), profiles)[i].parts.len() > 0);
    }
    let dirs: Vec<PathPlan> = directories_of(&files);
    Sources { files, dirs }
}

/// Whether the settings are read again: the file system tells of a change, and `touched` says
/// for each path that it names whether it is one of the documents. Without `touched` it told
/// of an error, or of nothing for so long that the settings are read again anyway.
pub fn is_hit(touched: Option<&Vec<bool>>) -> (out: bool)
    ensures
        out == (match touched {
            Some(list) => list@.contains(true),
            None => true,
        }),
{
    match touched {
        None => true,
        Some(list) => {
            let mut i: usize = 0;
            while i < list.len()
                invariant
                    i <= list@.len(),
                    touched == Some(list),
                    forall|j: int| 0 <= j < i ==> list@[j] != true,
                decreases list@.len() - i,
            {
                if list[i] {
                    assert(list@[i as int] == true);
                    return true;
                }
                i = i + 1;
            }
            false
        },
    }
}

/// Whether the settings are read at intervals: no directory could be watched.
pub fn needs_polling(watched: usize) -> (out: bool)
    ensures
        out == (watched == 0),
{
    watched == 0
}

/// Follows a setting: what it was when it was read last.
pub struct Watch {
    last: String,
}

impl View for Watch {
    type V = Seq<char>;

    closed spec fn view(&self) -> Seq<char> {
        self.last@
    }
}

impl Watch {
    /// Begins with what the setting is.
    pub fn new(first: String) -> (watch: Watch)
        ensures
            watch@ == first@,
    {
        Watch { last: first }
    }

    /// Takes what the setting is now, and gives it back where it has changed.
    pub fn read(&mut self, now: String) -> (changed: Option<String>)
        ensures
            final(self)@ == now@,
            text::content(changed) == (if now@ == old(self)@ {
                None
            } else {
                Some(now@)
            }),
    {
        if text::same(now.as_str(), self.last.as_str()) {
            None
        } else {
            self.last = now.clone();
            Some(now)
        }
    }
}

/// What following a setting asks for.
#[derive(Debug)]
pub enum WatchAction {
    /// Wait for what the file system tells, for so many seconds at most.
    AwaitEvent(u64),
    /// Wait so many milliseconds.
    Sleep(u64),
    /// Read the setting.
    Read,
    /// Tell the new value.
    Tell(String),
}

/// `WatchAction` as plain values.
pub enum WatchActionView {
    AwaitEvent(int),
    Sleep(int),
    Read,
    Tell(Seq<char>),
}

impl View for WatchAction {
    type V = WatchActionView;

    open spec fn view(&self) -> WatchActionView {
        match *self {
            WatchAction::AwaitEvent(secs) => WatchActionView::AwaitEvent(secs as int),
            WatchAction::Sleep(ms) => WatchActionView::Sleep(ms as int),
            WatchAction::Read => WatchActionView::Read,
            WatchAction::Tell(value) => WatchActionView::Tell(value@),
        }
    }
}

/// What came of it.
#[derive(Debug)]
pub struct WatchReply {
    /// For each path that the file system names, whether it is one of the documents; nothing
    /// where it told of an error or of nothing at all.
    pub touched: Option<Vec<bool>>,
    /// What the setting is, where it was read.
    pub value: String,
}

/// `WatchReply` as plain values.
pub struct WatchReplyView {
    pub touched: Option<Seq<bool>>,
    pub value: Seq<char>,
}

impl View for WatchReply {
    type V = WatchReplyView;

    open spec fn view(&self) -> WatchReplyView {
        WatchReplyView {
            touched: match self.touched {
                Some(list) => Some(list@),
                None => None,
            },
            value: self.value@,
        }
    }
}

/// What following a setting waits for.
#[derive(Clone, Copy, Debug, PartialEq, Eq, Structural)]
pub enum WatchPhase {
    /// The file system.
    Event,
    /// The time before the setting is read.
    Pause,
    /// The setting.
    Value,
    /// The new value is being told.
    Telling,
}

/// Following a setting.
pub struct WatchRun {
    polling: bool,
    phase: WatchPhase,
    watch: Watch,
}

/// `WatchRun` as plain values.
pub struct WatchView {
    /// The setting is read at intervals.
    pub polling: bool,
    /// What is waited for.
    pub phase: WatchPhase,
    /// What the setting was when it was read last.
    pub last: Seq<char>,
}

impl View for WatchRun {
    type V = WatchView;

    closed spec fn view(&self) -> WatchView {
        WatchView { polling: self.polling, phase: self.phase, last: self.watch@ }
    }
}

/// The next round begins.
pub open spec fn round(run: WatchView) -> (WatchView, WatchActionView) {
    if run.polling {
        (WatchView { phase: WatchPhase::Pause, ..run }, WatchActionView::Sleep(POLL_MS as int))
    } else {
        (
            WatchView { phase: WatchPhase::Event, ..run },
            WatchActionView::AwaitEvent(RECHECK_SECS as int),
        )
    }
}

/// A change of one of the documents is told, or an error, or nothing for long.
pub open spec fn hits(touched: Option<Seq<bool>>) -> bool {
    match touched {
        Some(list) => list.contains(true),
        None => true,
    }
}

/// What comes after what came back. The setting is told only where it has changed.
pub open spec fn watch_next(run: WatchView, reply: WatchReplyView) -> (WatchView, WatchActionView) {
    match run.phase {
        WatchPhase::Event => if hits(reply.touched) {
            (
                WatchView { phase: WatchPhase::Pause, ..run },
                WatchActionView::Sleep(SETTLE_MS as int),
            )
        } else {
            round(run)
        },
        WatchPhase::Pause => (WatchView { phase: WatchPhase::Value, ..run }, WatchActionView::Read),
        WatchPhase::Value => if reply.value == run.last {
            round(run)
        } else {
            (
                WatchView { phase: WatchPhase::Telling, last: reply.value, ..run },
                WatchActionView::Tell(reply.value),
            )
        },
        WatchPhase::Telling => round(run),
    }
}

/// Following begins: the file system is listened to, or the setting is read at intervals where
/// no directory could be watched.
pub open spec fn watch_begun(first: Seq<char>, watched: nat) -> WatchView {
    round(
        WatchView { polling: watched == 0, phase: WatchPhase::Telling, last: first },
    ).0
}

impl WatchRun {
    fn to_round(&mut self) -> (out: WatchAction)
        ensures
            (final(self)@, out@) == round(old(self)@),
    {
        if self.polling {
            self.phase = WatchPhase::Pause;
            WatchAction::Sleep(POLL_MS)
        } else {
            self.phase = WatchPhase::Event;
            WatchAction::AwaitEvent(RECHECK_SECS)
        }
    }

    /// Following begins, with what the setting is and how many directories are watched.
    pub fn start(first: String, watched: usize) -> (out: (WatchRun, WatchAction))
        ensures
            out.0@ == watch_begun(first@, watched as nat),
            out.1@ == round(out.0@).1,
    {
        let mut run = WatchRun {
            polling: needs_polling(watched),
            phase: WatchPhase::Telling,
            watch: Watch::new(first),
        };
        let action: WatchAction = run.to_round();
        (run, action)
    }

    /// Takes what came of it, and says what to do next.
    pub fn advance(&mut self, reply: WatchReply) -> (out: WatchAction)
        ensures
            (final(self)@, out@) == watch_next(old(self)@, reply@),
    {
        match self.phase {
            WatchPhase::Event => {
                let hit: bool = match &reply.touched {
                    Some(list) => is_hit(Some(list)),
                    None => is_hit(None),
                };
                if hit {
                    self.phase = WatchPhase::Pause;
                    WatchAction::Sleep(SETTLE_MS)
                } else {
                    self.to_round()
                }
            },
            WatchPhase::Pause => {
                self.phase = WatchPhase::Value;
                WatchAction::Read
            },
            WatchPhase::Value => match self.watch.read(reply.value) {
                Some(value) => {
                    self.phase = WatchPhase::Telling;
                    WatchAction::Tell(value)
                },
                None => self.to_round(),
            },
            WatchPhase::Telling => self.to_round(),
        }
    }
}

/// Where following stands once it was told `replies`.
pub open spec fn watch_after(start: WatchView, replies: Seq<WatchReplyView>) -> WatchView
    decreases replies.len(),
{
    if replies.len() == 0 {
        start
    } else {
        watch_next(watch_after(start, replies.drop_last()), replies.last()).0
    }
}

/// What was read meanwhile.
pub open spec fn reads_in(start: WatchView, replies: Seq<WatchReplyView>) -> Seq<Seq<char>>
    decreases replies.len(),
{
    if replies.len() == 0 {
        seq![]
    } else {
        let before = reads_in(start, replies.drop_last());
        if watch_after(start, replies.drop_last()).phase is Value {
            before.push(replies.last().value)
        } else {
            before
        }
    }
}

/// What was told meanwhile.
pub open spec fn tells_in(start: WatchView, replies: Seq<WatchReplyView>) -> Seq<Seq<char>>
    decreases replies.len(),
{
    if replies.len() == 0 {
        seq![]
    } else {
        let before = tells_in(start, replies.drop_last());
        match watch_next(watch_after(start, replies.drop_last()), replies.last()).1 {
            WatchActionView::Tell(value) => before.push(value),
            _ => before,
        }
    }
}

/// Whatever the file system tells, and in whichever way the setting is followed, what is told
/// is what changed among what was read.
pub proof fn only_changes_are_told(first: Seq<char>, watched: nat, replies: Seq<WatchReplyView>)
    ensures
        ({
            let start = watch_begun(first, watched);
            tells_in(start, replies) == told(first, reads_in(start, replies))
        }),
{
    lemma_tells(watch_begun(first, watched), replies);
}

proof fn lemma_tells(start: WatchView, replies: Seq<WatchReplyView>)
    ensures
        tells_in(start, replies) == told(start.last, reads_in(start, replies)),
        watch_after(start, replies).last == (if reads_in(start, replies).len() == 0 {
            start.last
        } else {
            reads_in(start, replies).last()
        }),
    decreases replies.len(),
{
    if replies.len() > 0 {
        let before = replies.drop_last();
        lemma_tells(start, before);
        let run = watch_after(start, before);
        if run.phase is Value {
            lemma_told_push(start.last, reads_in(start, before), replies.last().value);
        }
    }
}

proof fn lemma_told_push(last: Seq<char>, reads: Seq<Seq<char>>, new: Seq<char>)
    ensures
        told(last, reads.push(new)) == (if new == (if reads.len() == 0 {
            last
        } else {
            reads.last()
        }) {
            told(last, reads)
        } else {
            told(last, reads).push(new)
        }),
    decreases reads.len(),
{
    let all = reads.push(new);
    if reads.len() > 0 {
        let rest = reads.skip(1);
        assert(all.skip(1) =~= rest.push(new));
        if rest.len() > 0 {
            assert(rest.last() == reads.last());
        }
        if reads[0] == last {
            lemma_told_push(last, rest, new);
        } else {
            lemma_told_push(reads[0], rest, new);
            assert(told(last, all) =~= seq![reads[0]] + told(reads[0], rest.push(new)));
            assert(seq![reads[0]] + told(reads[0], rest).push(new) =~= (seq![reads[0]] + told(
                reads[0],
                rest,
            )).push(new));
        }
    } else {
        assert(all.skip(1) =~= seq![]);
        assert(all[0] == new);
        assert(told(last, all.skip(1)) =~= seq![]);
        assert(told(new, all.skip(1)) =~= seq![]);
        assert(told(last, reads) =~= seq![]);
        assert(told(last, all) =~= (if new == last {
            told(last, reads)
        } else {
            told(last, reads).push(new)
        }));
    }
}

/// What a follower is told when the setting was `last` and is then read as `reads`.
pub open spec fn told(last: Seq<char>, reads: Seq<Seq<char>>) -> Seq<Seq<char>>
    decreases reads.len(),
{
    if reads.len() == 0 {
        seq![]
    } else if reads[0] == last {
        told(last, reads.skip(1))
    } else {
        seq![reads[0]] + told(reads[0], reads.skip(1))
    }
}

/// A follower is told each change once: never the value that it knows, and in the end it knows
/// what was read last.
pub proof fn changes_are_told_once(last: Seq<char>, reads: Seq<Seq<char>>)
    ensures
        forall|i: int|
            0 <= i < told(last, reads).len() ==> #[trigger] told(last, reads)[i] != (if i == 0 {
                last
            } else {
                told(last, reads)[i - 1]
            }),
        reads.len() > 0 ==> (if told(last, reads).len() == 0 {
            last
        } else {
            told(last, reads).last()
        }) == reads.last(),
    decreases reads.len(),
{
    if reads.len() > 0 {
        let rest = reads.skip(1);
        if rest.len() > 0 {
            assert(rest.last() == reads.last());
        }
        if reads[0] == last {
            changes_are_told_once(last, rest);
        } else {
            changes_are_told_once(reads[0], rest);
            let later = told(reads[0], rest);
            let all = told(last, reads);
            assert(all == seq![reads[0]] + later);
            assert forall|i: int| 0 <= i < all.len() implies #[trigger] all[i] != (if i == 0 {
                last
            } else {
                all[i - 1]
            }) by {
                if i > 0 {
                    assert(all[i] == later[i - 1]);
                    if i > 1 {
                        assert(all[i - 1] == later[i - 2]);
                    }
                }
            }
        }
    }
}

/// A document that holds the value goes before every later one.
pub proof fn earlier_document_wins(
    docs: Seq<Option<YamlView>>,
    at: int,
    entry: Seq<char>,
    key: Seq<char>,
    value: Seq<char>,
)
    requires
        0 <= at < docs.len(),
        docs[at] is Some,
        held(docs[at]->0, entry, key) == Some(value),
        forall|i: int|
            0 <= i < at ==> ((#[trigger] docs[i]) is None || held(docs[i]->0, entry, key) is None),
    ensures
        first_held(docs, entry, key) == Some(value),
    decreases at,
{
    if at > 0 {
        let rest = docs.skip(1);
        assert(docs[0] is None || held(docs[0]->0, entry, key) is None);
        assert forall|i: int| 0 <= i < at - 1 implies ((#[trigger] rest[i]) is None || held(
            rest[i]->0,
            entry,
            key,
        ) is None) by {
            assert(rest[i] == docs[i + 1]);
        }
        assert(rest[at - 1] == docs[at]);
        earlier_document_wins(rest, at - 1, entry, key, value);
    }
}

/// There is no value only where no document holds one.
pub proof fn value_is_found_if_held(docs: Seq<Option<YamlView>>, entry: Seq<char>, key: Seq<char>)
    ensures
        first_held(docs, entry, key) is None <==> forall|i: int|
            0 <= i < docs.len() ==> ((#[trigger] docs[i]) is None || held(
                docs[i]->0,
                entry,
                key,
            ) is None),
    decreases docs.len(),
{
    if docs.len() > 0 {
        let rest = docs.skip(1);
        value_is_found_if_held(rest, entry, key);
        assert forall|i: int| 0 <= i < rest.len() implies rest[i] == #[trigger] docs[i + 1] by {}
        if first_held(docs, entry, key) is None {
            assert forall|i: int| 0 <= i < docs.len() implies ((#[trigger] docs[i]) is None
                || held(docs[i]->0, entry, key) is None) by {
                if i > 0 {
                    assert(rest[i - 1] == docs[i]);
                }
            }
        }
        if forall|i: int|
            0 <= i < docs.len() ==> ((#[trigger] docs[i]) is None || held(
                docs[i]->0,
                entry,
                key,
            ) is None) {
            assert(docs[0] is None || held(docs[0]->0, entry, key) is None);
            assert forall|i: int| 0 <= i < rest.len() implies ((#[trigger] rest[i]) is None
                || held(rest[i]->0, entry, key) is None) by {
                assert(rest[i] == docs[i + 1]);
            }
        }
    }
}

/// A section in the mapping of older versions.
pub open spec fn as_section(entry: Seq<char>, config: YamlView) -> YamlView {
    YamlView::Fields(seq![(YamlView::Text(entry), config)])
}

/// The same section as a patch of newer versions.
pub open spec fn as_patch(entry: Seq<char>, config: YamlView) -> YamlView {
    YamlView::Items(
        seq![
            YamlView::Fields(
                seq![
                    (YamlView::Text("id"@), YamlView::Text(entry)),
                    (YamlView::Text("config"@), config),
                ],
            ),
        ],
    )
}

/// A section reads the same in both layouts.
pub proof fn layouts_agree(entry: Seq<char>, config: YamlView, key: Seq<char>)
    ensures
        held(as_section(entry, config), entry, key) == yaml::text_field(config, key),
        held(as_patch(entry, config), entry, key) == yaml::text_field(config, key),
{
    reveal_strlit("id");
    reveal_strlit("config");
    assert("id"@.len() == 2 && "config"@.len() == 6);
    let patch = seq![
        (YamlView::Text("id"@), YamlView::Text(entry)),
        (YamlView::Text("config"@), config),
    ];
    assert(yaml::first_field(patch, "id"@) == Some(YamlView::Text(entry)));
    assert(patch.skip(1)[0] == patch[1]);
    assert(yaml::first_field(patch.skip(1), "config"@) == Some(config));
    assert(yaml::first_field(patch, "config"@) == Some(config));
    let patches = seq![YamlView::Fields(patch)];
    assert(patches[0] == YamlView::Fields(patch));
    assert(patched(patches.skip(1), entry, key) is None);
    let section = seq![(YamlView::Text(entry), config)];
    assert(yaml::first_field(section, entry) == Some(config));
}

/// The directories decide the order of the profiles.
pub proof fn profile_order_is_unique(a: Seq<Seq<char>>, b: Seq<Seq<char>>, all: Seq<Seq<char>>)
    requires
        is_sorted_version_of(a, all),
        is_sorted_version_of(b, all),
    ensures
        a == b,
{
    let keys = profile_keys(all);
    let p = choose|places: Seq<usize>|
        {
            &&& order::is_rearrangement(places, all.len())
            &&& #[trigger] order::in_order(keys, places, false)
            &&& a == order::rearranged(all, places)
        };
    let q = choose|places: Seq<usize>|
        {
            &&& order::is_rearrangement(places, all.len())
            &&& #[trigger] order::in_order(keys, places, false)
            &&& b == order::rearranged(all, places)
        };
    order::arrangement_is_unique(keys, p, q, false);
}

/// The profile of the shell, where it is there, goes first.
pub proof fn shell_profile_goes_first(out: Seq<Seq<char>>, all: Seq<Seq<char>>)
    requires
        is_sorted_version_of(out, all),
        all.contains(SHELL_PROFILE@),
    ensures
        out.len() > 0,
        out[0] == SHELL_PROFILE@,
{
    let p = choose|places: Seq<usize>|
        {
            &&& order::is_rearrangement(places, all.len())
            &&& #[trigger] order::in_order(profile_keys(all), places, false)
            &&& out == order::rearranged(all, places)
        };
    let at = choose|i: int| 0 <= i < all.len() && all[i] == SHELL_PROFILE@;
    order::lemma_every_place_is_named(p, all.len(), at);
    let j = choose|j: int| 0 <= j < p.len() && p[j] == at;
    if j > 0 {
        assert(order::settled(profile_keys(all), p[0] as int, p[j] as int, false));
        assert(profile_keys(all)[at] == profile_key(all[at]));
        assert(profile_keys(all)[p[0] as int] == profile_key(all[p[0] as int]));
    }
}

/// In a mapping of sections the value is the text under its key in its section.
pub proof fn value_is_read_from_its_section(
    doc: &Yaml,
    entry: &str,
    key: &str,
    out: Option<String>,
    section: YamlView,
)
    requires
        call_ensures(lookup, (doc, entry, key), out),
        yaml::field(doc@, entry@) == Some(section),
        yaml::text_field(section, key@) is Some,
    ensures
        text::content(out) == yaml::text_field(section, key@),
{
}

/// In a list of patches the value is that of the first patch whose `id` is the section and
/// whose `config` has the key; patches of other sections and those without the key are passed
/// over.
pub proof fn first_patch_with_the_value_wins(
    doc: &Yaml,
    entry: &str,
    key: &str,
    out: Option<String>,
    patches: Seq<YamlView>,
    at: int,
    config: YamlView,
)
    requires
        call_ensures(lookup, (doc, entry, key), out),
        doc@ == YamlView::Items(patches),
        0 <= at < patches.len(),
        yaml::text_field(patches[at], "id"@) == Some(entry@),
        yaml::field(patches[at], "config"@) == Some(config),
        yaml::text_field(config, key@) is Some,
        forall|i: int|
            0 <= i < at ==> yaml::text_field(#[trigger] patches[i], "id"@) != Some(entry@)
                || yaml::field(patches[i], "config"@) is None || yaml::text_field(
                yaml::field(patches[i], "config"@)->0,
                key@,
            ) is None,
    ensures
        text::content(out) == yaml::text_field(config, key@),
{
    yaml::missing_fields_are_not_found(doc@, entry@);
    lemma_patched(patches, at, entry@, key@, config);
}

proof fn lemma_patched(
    patches: Seq<YamlView>,
    at: int,
    entry: Seq<char>,
    key: Seq<char>,
    config: YamlView,
)
    requires
        0 <= at < patches.len(),
        yaml::text_field(patches[at], "id"@) == Some(entry),
        yaml::field(patches[at], "config"@) == Some(config),
        yaml::text_field(config, key) is Some,
        forall|i: int|
            0 <= i < at ==> yaml::text_field(#[trigger] patches[i], "id"@) != Some(entry)
                || yaml::field(patches[i], "config"@) is None || yaml::text_field(
                yaml::field(patches[i], "config"@)->0,
                key,
            ) is None,
    ensures
        patched(patches, entry, key) == yaml::text_field(config, key),
    decreases at,
{
    if at > 0 {
        let rest = patches.skip(1);
        assert(patch_value(patches[0], entry, key) is None);
        assert forall|i: int| 0 <= i < at - 1 implies yaml::text_field(
            #[trigger] rest[i],
            "id"@,
        ) != Some(entry) || yaml::field(rest[i], "config"@) is None || yaml::text_field(
            yaml::field(rest[i], "config"@)->0,
            key,
        ) is None by {
            assert(rest[i] == patches[i + 1]);
        }
        assert(rest[at - 1] == patches[at]);
        lemma_patched(rest, at - 1, entry, key, config);
    }
}

/// The value is that of the first file that holds one; a file that is missing or is no document
/// is passed over.
pub proof fn first_file_with_the_value_wins(
    files: &Vec<Option<String>>,
    entry: &str,
    key: &str,
    out: Option<String>,
    at: int,
)
    requires
        call_ensures(entry_string, (files, entry, key), out),
    ensures
        0 <= at < files@.len() && files@[at] is Some && (yaml::yaml_document(
            files@[at]->0@,
        ) matches Some(doc) && held(doc, entry@, key@) is Some) && (forall|i: int|
            0 <= i < at ==> (#[trigger] files@[i]) is None || yaml::yaml_document(
                files@[i]->0@,
            ) is None || held(yaml::yaml_document(files@[i]->0@)->0, entry@, key@) is None)
            ==> text::content(out) == held(
            yaml::yaml_document(files@[at]->0@)->0,
            entry@,
            key@,
        ),
        (forall|i: int|
            0 <= i < files@.len() ==> (#[trigger] files@[i]) is None || yaml::yaml_document(
                files@[i]->0@,
            ) is None || held(yaml::yaml_document(files@[i]->0@)->0, entry@, key@) is None)
            ==> out is None,
{
    let docs = documents_in(files@);
    assert forall|i: int| 0 <= i < files@.len() implies #[trigger] docs[i] == document_in(
        text::content(files@[i]),
    ) by {}
    if 0 <= at < files@.len() && files@[at] is Some && (yaml::yaml_document(
        files@[at]->0@,
    ) matches Some(doc) && held(doc, entry@, key@) is Some) && (forall|i: int|
        0 <= i < at ==> (#[trigger] files@[i]) is None || yaml::yaml_document(
            files@[i]->0@,
        ) is None || held(yaml::yaml_document(files@[i]->0@)->0, entry@, key@) is None) {
        assert(docs[at] == yaml::yaml_document(files@[at]->0@));
        assert forall|i: int| 0 <= i < at implies ((#[trigger] docs[i]) is None || held(
            docs[i]->0,
            entry@,
            key@,
        ) is None) by {
            assert(files@[i] is None || files@[i] is Some);
        }
        earlier_document_wins(docs, at, entry@, key@, held(docs[at]->0, entry@, key@)->0);
    }
    if forall|i: int|
        0 <= i < files@.len() ==> (#[trigger] files@[i]) is None || yaml::yaml_document(
            files@[i]->0@,
        ) is None || held(yaml::yaml_document(files@[i]->0@)->0, entry@, key@) is None {
        assert forall|i: int| 0 <= i < docs.len() implies ((#[trigger] docs[i]) is None || held(
            docs[i]->0,
            entry@,
            key@,
        ) is None) by {
            assert(files@[i] is None || files@[i] is Some);
        }
        value_is_found_if_held(docs, entry@, key@);
    }
}

/// Every directory is a profile's but for the one with shared dependencies and hidden ones.
pub proof fn profiles_are_the_other_directories(name: &str, out: bool)
    requires
        call_ensures(is_profile_dir_name, (name,), out),
    ensures
        name@ == "node_modules"@ ==> !out,
        name@.len() > 0 && name@[0] == '.' ==> !out,
        name@ != "node_modules"@ && (name@.len() == 0 || name@[0] != '.') ==> out,
{
    reveal_strlit(".");
    if name@.len() > 0 {
        let first = name@.subrange(0, 1);
        assert(first[0] == name@[0]);
        if name@[0] == '.' {
            assert(first =~= "."@);
        }
    }
}

proof fn lemma_profiles_among(names: Seq<Seq<char>>, name: Seq<char>)
    ensures
        profiles_among(names).contains(name) == (names.contains(name) && names_profile(name)),
    decreases names.len(),
{
    if names.len() > 0 {
        let rest = names.drop_last();
        lemma_profiles_among(rest, name);
        assert(names =~= rest.push(names.last()));
        vstd::seq_lib::lemma_seq_contains_after_push(rest, names.last(), name);
        vstd::seq_lib::lemma_seq_contains_after_push(profiles_among(rest), names.last(), name);
    }
}

/// The profiles that are read are those among the directories, every one and no other; that of
/// the shell goes first, and the others go by name.
pub proof fn profiles_stand_in_their_order(
    names: &Vec<String>,
    out: Vec<String>,
    name: Seq<char>,
    i: int,
    j: int,
)
    requires
        call_ensures(sorted_profiles, (names,), out),
    ensures
        text::texts(out@).contains(name) == (text::texts(names@).contains(name) && name
            != "node_modules"@ && !text::begins_with(name, "."@)),
        text::texts(names@).contains("web"@) ==> out@.len() > 0 && out@[0]@ == "web"@,
        0 <= i < j < out@.len() && out@[i]@ != "web"@ ==> !order::text_before(out@[j]@, out@[i]@)
            && out@[j]@ != "web"@,
{
    let all = profiles_among(text::texts(names@));
    let sorted = text::texts(out@);
    lemma_profiles_among(text::texts(names@), name);
    let p = choose|places: Seq<usize>|
        {
            &&& order::is_rearrangement(places, all.len())
            &&& #[trigger] order::in_order(profile_keys(all), places, false)
            &&& sorted == order::rearranged(all, places)
        };
    assert(sorted.len() == out@.len());
    if sorted.contains(name) {
        let k = choose|k: int| 0 <= k < sorted.len() && sorted[k] == name;
        assert(all[p[k] as int] == name);
    }
    if all.contains(name) {
        let k = choose|k: int| 0 <= k < all.len() && all[k] == name;
        order::lemma_every_place_is_named(p, all.len(), k);
        let m = choose|m: int| 0 <= m < p.len() && p[m] == k;
        assert(sorted[m] == name);
    }
    if text::texts(names@).contains("web"@) {
        lemma_profiles_among(text::texts(names@), "web"@);
        reveal_strlit("web");
        reveal_strlit("node_modules");
        reveal_strlit(".");
        assert("web"@.len() == 3 && "node_modules"@.len() == 12);
        assert("web"@.subrange(0, 1)[0] == 'w');
        shell_profile_goes_first(sorted, all);
        assert(sorted[0] == out@[0]@);
    }
    if 0 <= i < j < out@.len() && out@[i]@ != "web"@ {
        assert(sorted[i] == out@[i]@ && sorted[j] == out@[j]@);
        assert(order::settled(profile_keys(all), p[i] as int, p[j] as int, false));
        assert(profile_keys(all)[p[i] as int] == profile_key(sorted[i]));
        assert(profile_keys(all)[p[j] as int] == profile_key(sorted[j]));
        order::text_order_is_total(sorted[i], sorted[j]);
    }
}

proof fn lemma_directories(files: Seq<PathView>, dir: PathView)
    ensures
        directories(files).contains(dir) == exists|i: int|
            0 <= i < files.len() && paths::parent(#[trigger] files[i]) == dir,
        directories(files).no_duplicates(),
    decreases files.len(),
{
    if files.len() > 0 {
        let rest = files.drop_last();
        let last = paths::parent(files.last());
        lemma_directories(rest, dir);
        lemma_directories(rest, last);
        vstd::seq_lib::lemma_seq_contains_after_push(directories(rest), last, dir);
        if exists|i: int| 0 <= i < rest.len() && paths::parent(#[trigger] rest[i]) == dir {
            let i = choose|i: int| 0 <= i < rest.len() && paths::parent(#[trigger] rest[i]) == dir;
            assert(files[i] == rest[i]);
        }
        if exists|i: int| 0 <= i < files.len() && paths::parent(#[trigger] files[i]) == dir {
            let i = choose|i: int| 0 <= i < files.len() && paths::parent(#[trigger] files[i]) == dir;
            if i < rest.len() {
                assert(rest[i] == files[i]);
            }
        }
        if last == dir {
            assert(paths::parent(files[files.len() - 1]) == dir);
        }
    }
}

/// What is read: the patches of each profile, then the settings file of older versions, then
/// what was left of it when it was taken over; and what is watched is the directory of each of
/// these files, once.
pub proof fn patches_are_read_before_the_settings_file(
    env: Option<&str>,
    names: &Vec<String>,
    out: Sources,
    dir: PathView,
)
    requires
        call_ensures(sources, (env, names), out),
    ensures
        ({
            let files = paths::path_views(out.files@);
            let dirs = paths::path_views(out.dirs@);
            let home = paths::home_of_dsh(repo::text_of(env));
            let count = files.len() - 2;
            &&& count >= 0
            &&& files[count] == (PathView { parts: home.parts.push("settings.yaml"@), ..home })
            &&& files[count + 1] == (PathView {
                parts: home.parts.push("settings.yaml.imported"@),
                ..home
            })
            &&& forall|i: int|
                0 <= i < count ==> (#[trigger] files[i]).base == home.base && files[i].parts.len()
                    == home.parts.len() + 3 && files[i].parts[home.parts.len() as int]
                    == "profiles"@ && files[i].parts.last() == "cordis.patch.yml"@
            &&& dirs.no_duplicates()
            &&& dirs.contains(dir) == exists|i: int|
                0 <= i < files.len() && (PathView {
                    parts: (#[trigger] files[i]).parts.drop_last(),
                    ..files[i]
                }) == dir
        }),
{
    let files = paths::path_views(out.files@);
    let profiles = choose|profiles: Seq<Seq<char>>|
        #[trigger] is_sorted_version_of(profiles, profiles_among(text::texts(names@)))
            && files == candidates(repo::text_of(env), profiles);
    lemma_directories(files, dir);
    let home = paths::home_of_dsh(repo::text_of(env));
    assert(files.len() == profiles.len() + 2);
    assert forall|i: int| 0 <= i < files.len() - 2 implies (#[trigger] files[i]).base == home.base
        && files[i].parts.len() == home.parts.len() + 3 && files[i].parts[home.parts.len() as int]
        == "profiles"@ && files[i].parts.last() == "cordis.patch.yml"@ by {
        assert(files[i] == patch_path(repo::text_of(env), profiles[i]));
    }
    if directories(files).contains(dir) {
        let i = choose|i: int| 0 <= i < files.len() && paths::parent(#[trigger] files[i]) == dir;
        assert((PathView { parts: files[i].parts.drop_last(), ..files[i] }) == dir);
    }
}

/// The setting is read again where one of the documents was touched, where the file system told
/// of an error, and where it told nothing for long; not where other files were touched.
pub proof fn touched_documents_are_read_again(touched: Option<&Vec<bool>>, out: bool, i: int)
    requires
        call_ensures(is_hit, (touched,), out),
    ensures
        touched is None ==> out,
        touched is Some && 0 <= i < touched->0@.len() && touched->0@[i] ==> out,
        touched is Some && out ==> exists|j: int|
            0 <= j < touched->0@.len() && #[trigger] touched->0@[j],
{
    if touched is Some && out {
        let j = choose|j: int| 0 <= j < touched->0@.len() && touched->0@[j] == true;
        assert(touched->0@[j]);
    }
}

/// Following a setting: where one of the documents was touched it is read 50 milliseconds
/// later, and at least every 30 seconds; where no directory can be watched, every 500
/// milliseconds. It is told exactly where it is another than the one before.
pub proof fn setting_is_followed(run: WatchView, reply: WatchReplyView, i: int)
    ensures
        ({
            let (later, new) = watch_next(run, reply);
            let again = if run.polling {
                WatchActionView::Sleep(500)
            } else {
                WatchActionView::AwaitEvent(30)
            };
            let hit = reply.touched is None || 0 <= i < reply.touched->0.len()
                && reply.touched->0[i];
            let idle = reply.touched is Some && forall|j: int|
                0 <= j < reply.touched->0.len() ==> !#[trigger] reply.touched->0[j];
            &&& run.phase is Event && hit ==> new == WatchActionView::Sleep(50) && later.phase is Pause
            &&& run.phase is Event && idle ==> new == again
            &&& run.phase is Pause ==> new is Read && later.phase is Value
            &&& run.phase is Value && reply.value != run.last ==> new == WatchActionView::Tell(
                reply.value,
            ) && later.last == reply.value && later.phase is Telling
            &&& run.phase is Value && reply.value == run.last ==> new == again && later.last
                == run.last
            &&& run.phase is Telling ==> new == again
            &&& !(run.phase is Value) ==> later.last == run.last
            &&& later.polling == run.polling
            &&& new is Sleep ==> later.phase is Pause
            &&& new is AwaitEvent ==> later.phase is Event
        }),
{
    if reply.touched is Some {
        let list = reply.touched->0;
        if 0 <= i < list.len() && list[i] {
            assert(list[i] == true);
            assert(list.contains(true));
        }
    }
}

/// Following begins with the file system where a directory is watched, and with reading at
/// intervals where none is.
pub proof fn following_begins(first: String, watched: usize, out: (WatchRun, WatchAction))
    requires
        call_ensures(WatchRun::start, (first, watched), out),
    ensures
        watched == 0 ==> out.1@ == WatchActionView::Sleep(500) && out.0@.polling && out.0@.phase
            is Pause,
        watched > 0 ==> out.1@ == WatchActionView::AwaitEvent(30) && !out.0@.polling
            && out.0@.phase is Event,
        out.0@.last == first@,
{
}

/// A setting that was read again is told only where it is not the one that was known, and is
/// known from then on.
pub proof fn reading_again_tells_a_change(now: String, changed: Option<String>)
    ensures
        forall|watch: &mut Watch| #[trigger]
            call_ensures(Watch::read, (watch, now), changed) ==> final(watch)@ == now@ && (changed
                is Some <==> (*watch)@ != now@) && (changed is Some ==> changed->0@ == now@),
{
}

/// The watch goes on as the last reply says.
pub proof fn run_takes_the_next_step(reply: WatchReply, out: WatchAction)
    ensures
        forall|run: &mut WatchRun| #[trigger]
            call_ensures(WatchRun::advance, (run, reply), out) ==> (final(run)@, out@) == watch_next(
                (*run)@,
                reply@,
            ),
{
}

/// The files are looked at again and again only where no directory can be watched.
pub proof fn looking_again_is_the_last_resort(watched: usize, out: bool)
    requires
        call_ensures(needs_polling, (watched,), out),
    ensures
        out <==> watched < 1,
{
}

} // verus!
