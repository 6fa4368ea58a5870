//! Where files are: a place that the machine knows, and the names that lead on from there.

use vstd::prelude::*;
use vstd::string::*;

use crate::repo;
use crate::text;

verus! {

/// Where a path begins.
#[derive(Debug)]
pub enum Base {
    /// The directory of the program.
    App,
    /// The user's home directory.
    Home,
    /// What someone wrote.
    Given(String),
}

/// `Base` as plain values.
pub enum BaseView {
    App,
    Home,
    Given(Seq<char>),
}

impl View for Base {
    type V = BaseView;

    open spec fn view(&self) -> BaseView {
        match *self {
            Base::App => BaseView::App,
            Base::Home => BaseView::Home,
            Base::Given(path) => BaseView::Given(path@),
        }
    }
}

/// A path: where it begins, and the parts that are joined to that.
#[derive(Debug)]
pub struct PathPlan {
    pub base: Base,
    pub parts: Vec<String>,
}

/// `PathPlan` as plain values.
pub struct PathView {
    pub base: BaseView,
    pub parts: Seq<Seq<char>>,
}

impl View for PathPlan {
    type V = PathView;

    open spec fn view(&self) -> PathView {
        PathView { base: self.base@, parts: text::texts(self.parts@) }
    }
}

/// The paths of a list as plain values.
pub open spec fn path_views(list: Seq<PathPlan>) -> Seq<PathView> {
    list.map_values(|p: PathPlan| p@)
}

/// The path with one more part.
pub open spec fn joined(path: PathView, part: Seq<char>) -> PathView {
    PathView { parts: path.parts.push(part), ..path }
}

/// The directory that a path with a part is in.
pub open spec fn parent(path: PathView) -> PathView {
    PathView { parts: path.parts.drop_last(), ..path }
}

impl Base {
    fn copy(&self) -> (out: Base)
        ensures
            out@ == self@,
    {
        match self {
            Base::App => Base::App,
            Base::Home => Base::Home,
            Base::Given(path) => Base::Given(path.clone()),
        }
    }

    fn same(&self, other: &Base) -> (out: bool)
        ensures
            out == (self@ == other@),
    {
        match (self, other) {
            (Base::App, Base::App) => true,
            (Base::Home, Base::Home) => true,
            (Base::Given(a), Base::Given(b)) => text::same(a.as_str(), b.as_str()),
            _ => false,
        }
    }
}

fn plain(base: Base) -> (out: PathPlan)
    ensures
        out@ == (PathView { base: base@, parts: seq![] }),
{
    let out = PathPlan { base, parts: Vec::new() };
    assert(out@.parts =~= seq![]);
    out
}

impl PathPlan {
    /// The path with one more part.
    pub fn join(self, part: &str) -> (out: PathPlan)
        ensures
            out@ == joined(self@, part@),
    {
        PathPlan { base: self.base, parts: text::pushed(self.parts, part) }
    }

    /// The directory that the path is in.
    pub fn parent_dir(&self) -> (out: PathPlan)
        requires
            self@.parts.len() > 0,
        ensures
            out@ == parent(self@),
    {
        let mut parts: Vec<String> = text::copy_list(&self.parts);
        let ghost before = text::texts(parts@);
        assert(before.len() == self@.parts.len());
        let _ = parts.pop();
        assert(text::texts(parts@) =~= before.drop_last());
        PathPlan { base: self.base.copy(), parts }
    }

    /// Whether the two paths are made of the same parts.
    pub fn same(&self, other: &PathPlan) -> (out: bool)
        ensures
            out == (self@ == other@),
    {
        if !self.base.same(&other.base) || self.parts.len() != other.parts.len() {
            assert(self@.parts.len() == self.parts@.len());
            assert(other@.parts.len() == other.parts@.len());
            return false;
        }
        let mut i: usize = 0;
        while i < self.parts.len()
            invariant
                i <= self.parts@.len(),
                self.parts@.len() == other.parts@.len(),
                forall|j: int| 0 <= j < i ==> self@.parts[j] == #[trigger] other@.parts[j],
            decreases self.parts@.len() - i,
        {
            if !text::same(self.parts[i].as_str(), other.parts[i].as_str()) {
                assert(self@.parts[i as int] != other@.parts[i as int]);
                return false;
            }
            assert(self@.parts[i as int] == other@.parts[i as int]);
            i = i + 1;
        }
        assert(self@.parts =~= other@.parts);
        true
    }
}

/// The directory with the settings of the harness: what the environment says, where a leading
/// `~` stands for the home directory, and otherwise `.dsh` in the home directory.
pub open spec fn home_of_dsh(env: Option<Seq<char>>) -> PathView {
    match env {
        Some(e) => {
            let t = text::stripped(e);
            if t.len() == 0 {
                PathView { base: BaseView::Home, parts: seq![".dsh"@] }
            } else if t == "~"@ {
                PathView { base: BaseView::Home, parts: seq![] }
            } else if text::begins_with(t, "~/"@) {
                PathView { base: BaseView::Home, parts: seq![t.skip("~/"@.len() as int)] }
            } else if text::begins_with(t, "~\\"@) {
                PathView { base: BaseView::Home, parts: seq![t.skip("~\\"@.len() as int)] }
            } else {
                PathView { base: BaseView::Given(t), parts: seq![] }
            }
        },
        None => PathView { base: BaseView::Home, parts: seq![".dsh"@] },
    }
}

fn under_home(part: &str) -> (out: PathPlan)
    ensures
        out@ == (PathView { base: BaseView::Home, parts: seq![part@] }),
{
    let out: PathPlan = plain(Base::Home).join(part);
    assert(out@.parts =~= seq![part@]);
    out
}

/// The directory with the settings of the harness. The argument is what the environment says.
pub fn dsh_home(env: Option<&str>) -> (out: PathPlan)
    ensures
        out@ == home_of_dsh(repo::text_of(env)),
{
    match env {
        Some(e) => {
            let t: &str = text::trim(e);
            if t.is_empty() {
                return under_home(".dsh");
            }
            if text::same(t, "~") {
                return plain(Base::Home);
            }
            match text::strip_prefix(t, "~/") {
                Some(rest) => {
                    return under_home(rest);
                },
                None => {},
            }
            match text::strip_prefix(t, "~\\") {
                Some(rest) => {
                    return under_home(rest);
                },
                None => {},
            }
            plain(Base::Given(t.to_string()))
        },
        None => under_home(".dsh"),
    }
}

/// The settings file of older versions of the harness.
pub fn dsh_settings_path(env: Option<&str>) -> (out: PathPlan)
    ensures
        out@ == joined(home_of_dsh(repo::text_of(env)), "settings.yaml"@),
{
    dsh_home(env).join("settings.yaml")
}

/// What that file is called once a newer version has taken it over.
pub fn dsh_imported_settings_path(env: Option<&str>) -> (out: PathPlan)
    ensures
        out@ == joined(home_of_dsh(repo::text_of(env)), "settings.yaml.imported"@),
{
    dsh_home(env).join("settings.yaml.imported")
}

/// The directory with a directory for each profile.
pub fn dsh_profiles_dir(env: Option<&str>) -> (out: PathPlan)
    ensures
        out@ == joined(home_of_dsh(repo::text_of(env)), "profiles"@),
{
    dsh_home(env).join("profiles")
}

/// A path in the directory of the program.
pub open spec fn in_app(parts: Seq<Seq<char>>) -> PathView {
    PathView { base: BaseView::App, parts }
}

/// The directory with what the shell remembers.
pub fn data_dir() -> (out: PathPlan)
    ensures
        out@ == in_app(seq!["data"@]),
{
    let out: PathPlan = plain(Base::App).join("data");
    assert(out@.parts =~= seq!["data"@]);
    out
}

/// The document with the place of the repository.
pub fn config_path() -> (out: PathPlan)
    ensures
        out@ == in_app(seq!["data"@, "config.json"@]),
{
    let out: PathPlan = data_dir().join("config.json");
    assert(out@.parts =~= seq!["data"@, "config.json"@]);
    out
}

/// Where earlier versions of the shell kept that document.
pub fn legacy_config_path() -> (out: PathPlan)
    ensures
        out@ == in_app(seq!["config.json"@]),
{
    let out: PathPlan = plain(Base::App).join("config.json");
    assert(out@.parts =~= seq!["config.json"@]);
    out
}

/// The file with the number of the server's process.
pub fn pid_file() -> (out: PathPlan)
    ensures
        out@ == in_app(seq!["data"@, "server.pid"@]),
{
    let out: PathPlan = data_dir().join("server.pid");
    assert(out@.parts =~= seq!["data"@, "server.pid"@]);
    out
}

/// The directory of the log.
pub fn log_dir() -> (out: PathPlan)
    ensures
        out@ == in_app(seq!["logs"@]),
{
    let out: PathPlan = plain(Base::App).join("logs");
    assert(out@.parts =~= seq!["logs"@]);
    out
}

/// The log.
pub fn log_file() -> (out: PathPlan)
    ensures
        out@ == in_app(seq!["logs"@, "desktop.log"@]),
{
    let out: PathPlan = log_dir().join("desktop.log");
    assert(out@.parts =~= seq!["logs"@, "desktop.log"@]);
    out
}

/// Where a log goes that has grown too long.
pub fn old_log_file() -> (out: PathPlan)
    ensures
        out@ == in_app(seq!["logs"@, "desktop.log.1"@]),
{
    let out: PathPlan = log_dir().join("desktop.log.1");
    assert(out@.parts =~= seq!["logs"@, "desktop.log.1"@]);
    out
}

/// The document with the place of the window.
pub fn window_state_path() -> (out: PathPlan)
    ensures
        out@ == in_app(seq!["data"@, "window.json"@]),
{
    let out: PathPlan = data_dir().join("window.json");
    assert(out@.parts =~= seq!["data"@, "window.json"@]);
    out
}

/// What the directory of the repository is called.
pub const REPO_NAME: &'static str = "deepseek-harness";

/// Where an installation goes if the user does not say.
pub fn default_install_dir() -> (out: PathPlan)
    ensures
        out@ == in_app(seq![REPO_NAME@]),
{
    let out: PathPlan = plain(Base::App).join(REPO_NAME);
    assert(out@.parts =~= seq![REPO_NAME@]);
    out
}

/// The repository in the directory `dir`.
pub open spec fn repo_in(dir: Seq<char>) -> PathView {
    PathView { base: BaseView::Given(dir), parts: seq![REPO_NAME@] }
}

/// The places where the repository is looked for on the way up: in the nearest of the
/// directories `dirs`, as many as are searched.
pub open spec fn way_up(dirs: Seq<Seq<char>>) -> Seq<PathView> {
    let count = if dirs.len() < repo::SEARCH_LEVELS {
        dirs.len()
    } else {
        repo::SEARCH_LEVELS as nat
    };
    dirs.take(count as int).map_values(|dir: Seq<char>| repo_in(dir))
}

/// The places where the repository is looked for on the way up. `dirs` are the directory of the
/// program and those above it, each followed by the one that it is in.
pub fn places_above(dirs: &Vec<String>) -> (out: Vec<PathPlan>)
    ensures
        path_views(out@) == way_up(text::texts(dirs@)),
{
    let mut out: Vec<PathPlan> = Vec::new();
    let mut level: usize = 0;
    while level < dirs.len() && level < repo::SEARCH_LEVELS
        invariant
            level <= dirs@.len(),
            level <= repo::SEARCH_LEVELS,
            out@.len() == level,
            forall|i: int| 0 <= i < level ==> (#[trigger] out@[i])@ == repo_in(dirs@[i]@),
        decreases dirs@.len() - level,
    {
        let place: PathPlan = plain(Base::Given(dirs[level].clone())).join(REPO_NAME);
        assert(place@.parts =~= seq![REPO_NAME@]);
        out.push(place);
        level = level + 1;
    }
    assert(path_views(out@) =~= way_up(text::texts(dirs@)));
    out
}

/// A path in the repository at `root`.
pub open spec fn in_repo(root: Seq<char>, parts: Seq<Seq<char>>) -> PathView {
    PathView { base: BaseView::Given(root), parts }
}

/// The directory that git keeps in a repository.
pub fn git_dir(root: &str) -> (out: PathPlan)
    ensures
        out@ == in_repo(root@, seq![".git"@]),
{
    let out: PathPlan = plain(Base::Given(root.to_string())).join(".git");
    assert(out@.parts =~= seq![".git"@]);
    out
}

/// The lock of git's index in a repository.
pub fn index_lock(root: &str) -> (out: PathPlan)
    ensures
        out@ == in_repo(root@, seq![".git"@, "index.lock"@]),
{
    let out: PathPlan = git_dir(root).join("index.lock");
    assert(out@.parts =~= seq![".git"@, "index.lock"@]);
    out
}

/// The directory with the dependencies of a repository.
pub fn modules_dir(root: &str) -> (out: PathPlan)
    ensures
        out@ == in_repo(root@, seq!["node_modules"@]),
{
    let out: PathPlan = plain(Base::Given(root.to_string())).join("node_modules");
    assert(out@.parts =~= seq!["node_modules"@]);
    out
}

/// The file by which the root of a repository is known.
pub fn repo_marker(root: &str) -> (out: PathPlan)
    ensures
        out@ == in_repo(root@, seq!["apps"@, "cli"@, "package.json"@]),
{
    let out: PathPlan = plain(Base::Given(root.to_string())).join("apps").join("cli").join(
        "package.json",
    );
    assert(out@.parts =~= seq!["apps"@, "cli"@, "package.json"@]);
    out
}

/// The entry of the built server in a repository.
pub fn built_entry(root: &str) -> (out: PathPlan)
    ensures
        out@ == in_repo(root@, seq!["apps"@, "cli"@, "lib"@, "bin.js"@]),
{
    let out: PathPlan = plain(Base::Given(root.to_string())).join("apps").join("cli").join(
        "lib",
    ).join("bin.js");
    assert(out@.parts =~= seq!["apps"@, "cli"@, "lib"@, "bin.js"@]);
    out
}

/// The entry of the server's source in a repository.
pub fn source_entry(root: &str) -> (out: PathPlan)
    ensures
        out@ == in_repo(root@, seq!["apps"@, "cli"@, "src"@, "bin.ts"@]),
{
    let out: PathPlan = plain(Base::Given(root.to_string())).join("apps").join("cli").join(
        "src",
    ).join("bin.ts");
    assert(out@.parts =~= seq!["apps"@, "cli"@, "src"@, "bin.ts"@]);
    out
}

/// Where nothing or only white space is given, the settings lie in `.dsh` in the home directory.
pub proof fn settings_lie_in_the_home_directory(env: Option<&str>, out: PathPlan)
    requires
        call_ensures(dsh_home, (env,), out),
        env is None || forall|k: int|
            0 <= k < env->0@.len() ==> text::white_space().contains(#[trigger] env->0@[k]),
    ensures
        out.base is Home,
        text::texts(out.parts@) == seq![".dsh"@],
{
    let none: Seq<char> = seq![];
    if let Some(e) = env {
        text::white_space_around_is_removed(e@, none, none);
        assert(e@ + none + none =~= e@);
    }
    assert(out@.base is Home);
}

/// A given directory is taken as it is, without the white space around it; a tilde alone, or
/// before a slash of either kind, stands for the home directory.
pub proof fn given_directory_is_taken(
    env: &str,
    before: Seq<char>,
    path: Seq<char>,
    after: Seq<char>,
    out: PathPlan,
)
    requires
        call_ensures(dsh_home, (Some(env),), out),
        env@ == before + path + after,
        forall|k: int|
            0 <= k < before.len() ==> text::white_space().contains(#[trigger] before[k]),
        forall|k: int|
            0 <= k < after.len() ==> text::white_space().contains(#[trigger] after[k]),
        path.len() > 0,
        !text::white_space().contains(path[0]),
        !text::white_space().contains(path.last()),
    ensures
        path[0] != '~' ==> (out.base matches Base::Given(given) && given@ == path)
            && out.parts@.len() == 0,
        path == seq!['~'] ==> out.base is Home && out.parts@.len() == 0,
        path.len() > 1 && path[0] == '~' && (path[1] == '/' || path[1] == '\\') ==> out.base is Home
            && text::texts(out.parts@) == seq![path.skip(2)],
        path.len() > 1 && path[0] == '~' && path[1] != '/' && path[1] != '\\' ==> (
        out.base matches Base::Given(given) && given@ == path) && out.parts@.len() == 0,
{
    text::white_space_around_is_removed(before, path, after);
    reveal_strlit("~");
    reveal_strlit("~/");
    reveal_strlit("~\\");
    assert("~"@ =~= seq!['~']);
    if path == "~"@ {
        assert(path.len() == 1);
    }
    if path.len() >= 2 {
        assert(path.take(2)[0] == path[0] && path.take(2)[1] == path[1]);
        if path[0] == '~' && path[1] == '/' {
            assert(path.take(2) =~= "~/"@);
        }
        if path[0] == '~' && path[1] == '\\' {
            assert(path.take(2) =~= "~\\"@);
        }
    }
    assert(out.parts@.len() == out@.parts.len());
    match out.base {
        Base::Given(given) => {
            assert(out@.base == BaseView::Given(given@));
        },
        Base::Home => {
            assert(out@.base is Home);
        },
        Base::App => {
            assert(out@.base is App);
        },
    }
}

/// The files with the settings lie in that directory.
pub proof fn settings_lie_in_their_directory(
    env: Option<&str>,
    home: PathPlan,
    settings: PathPlan,
    imported: PathPlan,
    profiles: PathPlan,
)
    requires
        call_ensures(dsh_home, (env,), home),
        call_ensures(dsh_settings_path, (env,), settings),
        call_ensures(dsh_imported_settings_path, (env,), imported),
        call_ensures(dsh_profiles_dir, (env,), profiles),
    ensures
        settings@.base == home@.base && settings@.parts == home@.parts.push("settings.yaml"@),
        imported@.base == home@.base && imported@.parts == home@.parts.push(
            "settings.yaml.imported"@,
        ),
        profiles@.base == home@.base && profiles@.parts == home@.parts.push("profiles"@),
{
}

/// What the shell keeps lies beside the program: what it remembers in `data`, its log in `logs`.
pub proof fn shell_keeps_its_files_beside_the_program(
    data: PathPlan,
    config: PathPlan,
    legacy: PathPlan,
    pid: PathPlan,
    window: PathPlan,
    logs: PathPlan,
    log: PathPlan,
    old_log: PathPlan,
    install: PathPlan,
)
    requires
        call_ensures(data_dir, (), data),
        call_ensures(config_path, (), config),
        call_ensures(legacy_config_path, (), legacy),
        call_ensures(pid_file, (), pid),
        call_ensures(window_state_path, (), window),
        call_ensures(log_dir, (), logs),
        call_ensures(log_file, (), log),
        call_ensures(old_log_file, (), old_log),
        call_ensures(default_install_dir, (), install),
    ensures
        data@.base is App && data@.parts == seq!["data"@],
        config@.base is App && config@.parts == seq!["data"@, "config.json"@],
        legacy@.base is App && legacy@.parts == seq!["config.json"@],
        pid@.base is App && pid@.parts == seq!["data"@, "server.pid"@],
        window@.base is App && window@.parts == seq!["data"@, "window.json"@],
        logs@.base is App && logs@.parts == seq!["logs"@],
        log@.base is App && log@.parts == seq!["logs"@, "desktop.log"@],
        old_log@.base is App && old_log@.parts == seq!["logs"@, "desktop.log.1"@],
        install@.base is App && install@.parts == seq!["deepseek-harness"@],
{
}

/// What is looked for in a repository lies at its place in it.
pub proof fn files_lie_in_the_repository(
    root: &str,
    git: PathPlan,
    lock: PathPlan,
    modules: PathPlan,
    marker: PathPlan,
    built: PathPlan,
    source: PathPlan,
)
    requires
        call_ensures(git_dir, (root,), git),
        call_ensures(index_lock, (root,), lock),
        call_ensures(modules_dir, (root,), modules),
        call_ensures(repo_marker, (root,), marker),
        call_ensures(built_entry, (root,), built),
        call_ensures(source_entry, (root,), source),
    ensures
        git@.base == BaseView::Given(root@) && git@.parts == seq![".git"@],
        lock@.base == BaseView::Given(root@) && lock@.parts == seq![".git"@, "index.lock"@],
        modules@.base == BaseView::Given(root@) && modules@.parts == seq!["node_modules"@],
        marker@.base == BaseView::Given(root@) && marker@.parts == seq![
            "apps"@,
            "cli"@,
            "package.json"@,
        ],
        built@.base == BaseView::Given(root@) && built@.parts == seq![
            "apps"@,
            "cli"@,
            "lib"@,
            "bin.js"@,
        ],
        source@.base == BaseView::Given(root@) && source@.parts == seq![
            "apps"@,
            "cli"@,
            "src"@,
            "bin.ts"@,
        ],
{
}

/// On the way up the repository is looked for under its name in the directory of the program
/// and in those above it, the nearest first, five in all.
pub proof fn five_directories_are_searched(dirs: &Vec<String>, out: Vec<PathPlan>, i: int)
    requires
        call_ensures(places_above, (dirs,), out),
    ensures
        dirs@.len() <= 5 ==> out@.len() == dirs@.len(),
        dirs@.len() > 5 ==> out@.len() == 5,
        0 <= i < out@.len() ==> out@[i]@.base == BaseView::Given(dirs@[i]@) && out@[i]@.parts == seq![
            "deepseek-harness"@,
        ],
{
    assert(path_views(out@).len() == out@.len());
    assert(text::texts(dirs@).len() == dirs@.len());
    if 0 <= i < out@.len() {
        assert(path_views(out@)[i] == out@[i]@);
        assert(text::texts(dirs@)[i] == dirs@[i]@);
    }
}

/// The directory of a path that was led on by one part is the path before, and two paths are the
/// same only where they begin alike and have the same parts.
pub proof fn joined_part_is_left_again(
    path: PathPlan,
    part: &str,
    longer: PathPlan,
    back: PathPlan,
    alike: bool,
)
    requires
        call_ensures(PathPlan::join, (path, part), longer),
        call_ensures(PathPlan::parent_dir, (&longer,), back),
        call_ensures(PathPlan::same, (&path, &back), alike),
    ensures
        longer@.parts.len() == path@.parts.len() + 1,
        longer@.parts.last() == part@,
        back@.base == path@.base && back@.parts == path@.parts,
        alike,
{
    assert(back@.parts =~= path@.parts);
}

} // verus!
