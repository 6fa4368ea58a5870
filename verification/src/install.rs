//! What an installation needs: the tools on this machine, and a directory to go to.

use vstd::prelude::*;
use vstd::string::*;

use crate::digits;
use crate::repo;
use crate::steps::Tool;
use crate::steps::ToolView;
use crate::text;
use crate::unicode;

verus! {

/// Where the harness is cloned from.
pub const OFFICIAL_REPO_URL: &'static str = "https://github.com/deepseek-ai/deepseek-harness.git";

/// What the address of a clone of the harness holds.
pub const OFFICIAL_REPO_NAME: &'static str = "deepseek-ai/deepseek-harness";

/// So many places are known where git is installed.
pub const GIT_PLACES: usize = 3;

/// A tool on this machine.
#[derive(Debug)]
pub struct ToolInfo {
    /// It can be used. A Node.js that is too old cannot.
    pub found: bool,
    /// The first line of what it says of its version.
    pub version: String,
    /// Nothing where all is well, and otherwise `missing`, `old` or `via_corepack`.
    pub note: String,
}

/// `ToolInfo` as plain values.
pub struct InfoView {
    pub found: bool,
    pub version: Seq<char>,
    pub note: Seq<char>,
}

impl View for ToolInfo {
    type V = InfoView;

    open spec fn view(&self) -> InfoView {
        InfoView { found: self.found, version: self.version@, note: self.note@ }
    }
}

/// The tools that an installation needs.
#[derive(Debug)]
pub struct EnvReport {
    pub git: ToolInfo,
    pub node: ToolInfo,
    pub pnpm: ToolInfo,
    /// All of them can be used.
    pub ok: bool,
}

/// What a tool says of its version: the first line of its output, or of its error output
/// where it printed nothing else.
pub open spec fn version_line(output: Seq<char>, errors: Seq<char>) -> Option<Seq<char>> {
    let shown = if text::stripped(output).len() == 0 {
        text::stripped(errors)
    } else {
        text::stripped(output)
    };
    if text::lines_of(shown).len() == 0 {
        None
    } else {
        Some(text::lines_of(shown)[0])
    }
}

/// What a tool says of its version, from what it printed.
pub fn first_line(output: &str, errors: &str) -> (out: Option<String>)
    ensures
        text::content(out) == version_line(output@, errors@),
{
    let shown: &str = if text::trim(output).is_empty() {
        text::trim(errors)
    } else {
        text::trim(output)
    };
    let list: Vec<String> = text::lines(shown);
    if list.len() == 0 {
        None
    } else {
        assert(text::texts(list@)[0] == list@[0]@);
        Some(list[0].clone())
    }
}

/// What a tool says of its version, from the bytes that it printed: nothing where it failed.
pub fn probe_version(success: bool, stdout: &Vec<u8>, stderr: &Vec<u8>) -> (out: Option<String>)
    ensures
        text::content(out) == (if success {
            version_line(unicode::lossy_text(stdout@), unicode::lossy_text(stderr@))
        } else {
            None
        }),
{
    if !success {
        return None;
    }
    let output: String = unicode::decode(stdout);
    let errors: String = unicode::decode(stderr);
    first_line(output.as_str(), errors.as_str())
}

/// The first file of `found` that is there: the directories go before each other in their
/// order, and within a directory the names do.
pub open spec fn is_first_hit(found: Seq<Vec<bool>>, dir: int, name: int) -> bool {
    &&& 0 <= dir < found.len()
    &&& 0 <= name < found[dir]@.len()
    &&& found[dir]@[name]
    &&& forall|n: int| 0 <= n < name ==> !#[trigger] found[dir]@[n]
    &&& forall|d: int, n: int|
        0 <= d < dir && 0 <= n < found[d]@.len() ==> !#[trigger] found[d]@[n]
}

/// None of the files of `found` is there.
pub open spec fn has_no_hit(found: Seq<Vec<bool>>) -> bool {
    forall|d: int, n: int|
        0 <= d < found.len() && 0 <= n < found[d]@.len() ==> !#[trigger] found[d]@[n]
}

/// Which file to take: `found` says for each directory of the search path, and for each name
/// in it, whether there is such a file.
pub fn find_on_path(found: &Vec<Vec<bool>>) -> (out: Option<(usize, usize)>)
    ensures
        match out {
            Some((dir, name)) => is_first_hit(found@, dir as int, name as int),
            None => has_no_hit(found@),
        },
{
    let mut dir: usize = 0;
    while dir < found.len()
        invariant
            dir <= found@.len(),
            forall|d: int, n: int|
                0 <= d < dir && 0 <= n < found@[d]@.len() ==> !#[trigger] found@[d]@[n],
        decreases found@.len() - dir,
    {
        let names: &Vec<bool> = &found[dir];
        let mut name: usize = 0;
        while name < names.len()
            invariant
                dir < found@.len(),
                names == &found@[dir as int],
                name <= names@.len(),
                forall|n: int| 0 <= n < name ==> !#[trigger] found@[dir as int]@[n],
                forall|d: int, n: int|
                    0 <= d < dir && 0 <= n < found@[d]@.len() ==> !#[trigger] found@[d]@[n],
            decreases names@.len() - name,
        {
            if names[name] {
                return Some((dir, name));
            }
            name = name + 1;
        }
        dir = dir + 1;
    }
    None
}

/// A program that is looked for on Windows.
#[derive(Clone, Copy, Debug, PartialEq, Eq, Structural)]
pub enum Program {
    Git,
    Node,
    Pnpm,
    Corepack,
}

/// The names under which a program is looked for in each directory of the search path, in the
/// order in which they count. Windows starts no file whose name lacks its ending.
pub open spec fn file_names(program: Program) -> Seq<Seq<char>> {
    match program {
        Program::Git => seq!["git.exe"@],
        Program::Node => seq!["node.exe"@],
        Program::Pnpm => seq!["pnpm.cmd"@, "pnpm.exe"@],
        Program::Corepack => seq!["corepack.cmd"@, "corepack.exe"@],
    }
}

/// The name that counts first.
pub fn first_name(program: Program) -> (out: &'static str)
    ensures
        out@ == file_names(program)[0],
{
    match program {
        Program::Git => "git.exe",
        Program::Node => "node.exe",
        Program::Pnpm => "pnpm.cmd",
        Program::Corepack => "corepack.cmd",
    }
}

/// The names under which a program is looked for in each directory of the search path, in the
/// order in which they count.
pub fn names_on_path(program: Program) -> (out: Vec<String>)
    ensures
        text::texts(out@) == file_names(program),
{
    let first: &str = first_name(program);
    match program {
        Program::Git | Program::Node => {
            let out: Vec<String> = vec![first.to_string()];
            assert(text::texts(out@) =~= file_names(program));
            out
        },
        Program::Pnpm => text::two(first, "pnpm.exe"),
        Program::Corepack => text::two(first, "corepack.exe"),
    }
}

/// What a program is asked for its version with, after the arguments that call it.
pub fn version_args(prefix: &Vec<String>) -> (out: Vec<String>)
    ensures
        text::texts(out@) == text::texts(prefix@).push("--version"@),
{
    text::pushed(text::copy_list(prefix), "--version")
}

/// What git is asked for the address that a repository was cloned from.
pub fn remote_args() -> (out: Vec<String>)
    ensures
        text::texts(out@) == seq!["remote"@, "get-url"@, "origin"@],
{
    text::three("remote", "get-url", "origin")
}

/// The places where git is installed on Windows.
pub open spec fn git_places() -> Seq<Seq<char>> {
    seq![
        "C:\\Program Files\\Git\\cmd\\git.exe"@,
        "C:\\Program Files (x86)\\Git\\cmd\\git.exe"@,
        "C:\\Soft\\Git\\cmd\\git.exe"@,
    ]
}

/// A place where git is installed on Windows.
pub fn git_place(at: usize) -> (out: &'static str)
    requires
        at < GIT_PLACES,
    ensures
        out@ == git_places()[at as int],
{
    match at {
        0 => "C:\\Program Files\\Git\\cmd\\git.exe",
        1 => "C:\\Program Files (x86)\\Git\\cmd\\git.exe",
        _ => "C:\\Soft\\Git\\cmd\\git.exe",
    }
}

/// How git is called: on Windows what the search path holds, and otherwise the first of the
/// known places where it is; elsewhere by its name.
pub open spec fn git_program(windows: bool, on_path: Option<Seq<char>>, installed: Seq<bool>) -> Option<
    Seq<char>,
> {
    if !windows {
        Some("git"@)
    } else if on_path is Some {
        on_path
    } else if installed.len() > 0 && installed[0] {
        Some(git_places()[0])
    } else if installed.len() > 1 && installed[1] {
        Some(git_places()[1])
    } else if installed.len() > 2 && installed[2] {
        Some(git_places()[2])
    } else {
        None
    }
}

/// How git is called. `installed` says of each known place whether git is there.
pub fn locate_git(windows: bool, on_path: Option<&str>, installed: &Vec<bool>) -> (out: Option<
    String,
>)
    ensures
        text::content(out) == git_program(windows, repo::text_of(on_path), installed@),
{
    if !windows {
        return Some("git".to_string());
    }
    match on_path {
        Some(path) => {
            return Some(path.to_string());
        },
        None => {},
    }
    if installed.len() > 0 && installed[0] {
        Some(git_place(0).to_string())
    } else if installed.len() > 1 && installed[1] {
        Some(git_place(1).to_string())
    } else if installed.len() > 2 && installed[2] {
        Some(git_place(2).to_string())
    } else {
        None
    }
}

/// The place where Node.js is installed on Windows.
pub const NODE_PLACE: &'static str = "C:\\Program Files\\nodejs\\node.exe";

/// How Node.js is called: on Windows what the search path holds, and otherwise the known
/// place where it is there; elsewhere by its name.
pub open spec fn node_program(windows: bool, on_path: Option<Seq<char>>, installed: bool) -> Option<
    Seq<char>,
> {
    if !windows {
        Some("node"@)
    } else if on_path is Some {
        on_path
    } else if installed {
        Some(NODE_PLACE@)
    } else {
        None
    }
}

/// How Node.js is called.
pub fn locate_node(windows: bool, on_path: Option<&str>, installed: bool) -> (out: Option<String>)
    ensures
        text::content(out) == node_program(windows, repo::text_of(on_path), installed),
{
    if !windows {
        return Some("node".to_string());
    }
    match on_path {
        Some(path) => Some(path.to_string()),
        None => if installed {
            Some(NODE_PLACE.to_string())
        } else {
            None
        },
    }
}

/// pnpm called by its own program.
pub open spec fn direct(program: Seq<char>) -> ToolView {
    ToolView { program, prefix: seq![] }
}

/// pnpm called through corepack.
pub open spec fn through_corepack(program: Seq<char>) -> ToolView {
    ToolView { program, prefix: seq!["pnpm"@] }
}

/// The one of the two that is there; pnpm itself goes first.
pub open spec fn pnpm_or_corepack(pnpm: Option<Seq<char>>, corepack: Option<Seq<char>>) -> Option<
    ToolView,
> {
    match pnpm {
        Some(program) => Some(direct(program)),
        None => match corepack {
            Some(program) => Some(through_corepack(program)),
            None => None,
        },
    }
}

/// An optional tool as plain values.
pub open spec fn tool_view(tool: Option<Tool>) -> Option<ToolView> {
    match tool {
        Some(t) => Some(t@),
        None => None,
    }
}

fn pick_tool(pnpm: Option<&str>, corepack: Option<&str>) -> (out: Option<Tool>)
    ensures
        tool_view(out) == pnpm_or_corepack(repo::text_of(pnpm), repo::text_of(corepack)),
{
    match pnpm {
        Some(program) => {
            let out = Tool { program: program.to_string(), prefix: Vec::new() };
            assert(out@.prefix =~= seq![]);
            Some(out)
        },
        None => match corepack {
            Some(program) => {
                let mut prefix: Vec<String> = Vec::new();
                prefix.push("pnpm".to_string());
                let out = Tool { program: program.to_string(), prefix };
                assert(out@.prefix =~= seq!["pnpm"@]);
                Some(out)
            },
            None => None,
        },
    }
}

/// How pnpm is called: on Windows by the full path that the search path holds, or through
/// corepack; elsewhere by its name.
pub fn locate_pnpm(windows: bool, pnpm: Option<&str>, corepack: Option<&str>) -> (out: Option<Tool>)
    ensures
        tool_view(out) == (if windows {
            pnpm_or_corepack(repo::text_of(pnpm), repo::text_of(corepack))
        } else {
            Some(direct("pnpm"@))
        }),
{
    if windows {
        pick_tool(pnpm, corepack)
    } else {
        pick_tool(Some("pnpm"), None)
    }
}

/// How pnpm is called: the usual way, and otherwise by what lies beside Node.js on Windows.
pub fn locate_pnpm_ex(
    usual: Option<Tool>,
    windows: bool,
    pnpm_beside: Option<&str>,
    corepack_beside: Option<&str>,
) -> (out: Option<Tool>)
    ensures
        tool_view(out) == (match usual {
            Some(tool) => Some(tool@),
            None => if windows {
                pnpm_or_corepack(repo::text_of(pnpm_beside), repo::text_of(corepack_beside))
            } else {
                None
            },
        }),
{
    match usual {
        Some(tool) => Some(tool),
        None => if windows {
            pick_tool(pnpm_beside, corepack_beside)
        } else {
            None
        },
    }
}

/// The text without the letter v before a version.
pub open spec fn bare_version(version: Seq<char>) -> Seq<char> {
    text::trimmed_start(text::stripped(version), seq!['v', 'V'])
}

/// The numbers of a version: the first, and the second, which is 0 where it is missing.
/// Nothing where one of them is no number.
pub open spec fn version_numbers(version: Seq<char>) -> Option<(nat, nat)> {
    let parts = text::pieces(bare_version(version), seq!['.']);
    let major = digits::number_in(parts[0], u32::MAX as nat);
    let minor = if parts.len() > 1 {
        digits::number_in(parts[1], u32::MAX as nat)
    } else {
        Some(0nat)
    };
    match (major, minor) {
        (Some(a), Some(b)) => Some((a, b)),
        _ => None,
    }
}

/// The versions that the harness runs on: 22 from 22.19 on, and everything from 24 on.
pub open spec fn is_supported(major: nat, minor: nat) -> bool {
    major == 22 && minor >= 19 || major >= 24
}

/// Whether the harness runs on this version of Node.js; nothing where the text is no version.
pub fn node_version_ok(version_text: &str) -> (out: Option<bool>)
    ensures
        out == (match version_numbers(version_text@) {
            Some((major, minor)) => Some(is_supported(major, minor)),
            None => None,
        }),
{
    let letters: Vec<char> = vec!['v', 'V'];
    assert(letters@ =~= seq!['v', 'V']);
    let dot: Vec<char> = vec!['.'];
    assert(dot@ =~= seq!['.']);
    let parts: Vec<String> = text::split(
        text::trim_start(text::trim(version_text), &letters),
        &dot,
    );
    let ghost views = text::pieces(bare_version(version_text@), seq!['.']);
    assert(views.len() > 0);
    assert(views == text::texts(parts@));
    assert(views[0] == parts@[0]@);
    let major: Option<u32> = digits::parse_number(parts[0].as_str(), u32::MAX);
    let minor: Option<u32> = if parts.len() > 1 {
        assert(views[1] == parts@[1]@);
        digits::parse_number(parts[1].as_str(), u32::MAX)
    } else {
        Some(0)
    };
    match (major, minor) {
        (Some(a), Some(b)) => Some(a == 22 && b >= 19 || a >= 24),
        _ => None,
    }
}

/// A tool that is not there.
pub open spec fn missing() -> InfoView {
    InfoView { found: false, version: seq![], note: "missing"@ }
}

/// The version that a tool tells; nothing where it tells none.
pub open spec fn told(version: Option<Seq<char>>) -> Seq<char> {
    match version {
        Some(v) => v,
        None => seq![],
    }
}

fn missing_tool() -> (out: ToolInfo)
    ensures
        out@ == missing(),
{
    let out = ToolInfo { found: false, version: String::new(), note: "missing".to_string() };
    assert(out@.version =~= seq![]);
    out
}

fn version_or_nothing(version: Option<String>) -> (out: String)
    ensures
        out@ == told(text::content(version)),
{
    match version {
        Some(v) => v,
        None => {
            let out: String = String::new();
            assert(out@ =~= seq![]);
            out
        },
    }
}

fn nothing() -> (out: String)
    ensures
        out@ == Seq::<char>::empty(),
{
    let out: String = String::new();
    assert(out@ =~= seq![]);
    out
}

/// What there is to say of git, given whether it is there and what it tells of its version.
pub fn detect_git(located: bool, version: Option<String>) -> (out: ToolInfo)
    ensures
        out@ == (if located {
            InfoView { found: true, version: told(text::content(version)), note: seq![] }
        } else {
            missing()
        }),
{
    if located {
        ToolInfo { found: true, version: version_or_nothing(version), note: nothing() }
    } else {
        missing_tool()
    }
}

/// What there is to say of Node.js. A version that cannot be read is let pass.
pub open spec fn node_info(located: bool, version: Seq<char>) -> InfoView {
    if !located {
        missing()
    } else {
        match version_numbers(version) {
            Some((major, minor)) => if is_supported(major, minor) {
                InfoView { found: true, version, note: seq![] }
            } else {
                InfoView { found: false, version, note: "old"@ }
            },
            None => InfoView { found: true, version, note: seq![] },
        }
    }
}

/// What there is to say of Node.js, given whether it is there and what it tells of its
/// version.
pub fn detect_node(located: bool, version: Option<String>) -> (out: ToolInfo)
    ensures
        out@ == node_info(located, told(text::content(version))),
{
    if !located {
        return missing_tool();
    }
    let version: String = version_or_nothing(version);
    match node_version_ok(version.as_str()) {
        Some(true) => ToolInfo { found: true, version, note: nothing() },
        Some(false) => ToolInfo { found: false, version, note: "old".to_string() },
        None => ToolInfo { found: true, version, note: nothing() },
    }
}

/// What there is to say of pnpm, given how it is called and what it tells of its version.
pub fn detect_pnpm(tool: Option<&Tool>, version: Option<String>) -> (out: ToolInfo)
    ensures
        out@ == (match tool {
            Some(t) => InfoView {
                found: true,
                version: told(text::content(version)),
                note: if t@.prefix.len() == 0 {
                    seq![]
                } else {
                    "via_corepack"@
                },
            },
            None => missing(),
        }),
{
    match tool {
        Some(t) => {
            let note: String = if t.prefix.len() == 0 {
                nothing()
            } else {
                "via_corepack".to_string()
            };
            ToolInfo { found: true, version: version_or_nothing(version), note }
        },
        None => missing_tool(),
    }
}

/// What there is to say of all three: an installation can begin where all can be used.
pub fn check_env(git: ToolInfo, node: ToolInfo, pnpm: ToolInfo) -> (out: EnvReport)
    ensures
        out.git == git,
        out.node == node,
        out.pnpm == pnpm,
        out.ok == (git.found && node.found && pnpm.found),
{
    let ok: bool = git.found && node.found && pnpm.found;
    EnvReport { git, node, pnpm, ok }
}

/// What is found at the place to install to.
#[derive(Debug)]
pub struct DirFacts {
    pub exists: bool,
    pub is_dir: bool,
    /// It is the root of a repository of the harness.
    pub is_repo: bool,
    pub has_modules: bool,
    pub has_build: bool,
    /// The text of the file that tells the version.
    pub package: Option<String>,
    pub has_git: bool,
    /// Where the repository was cloned from.
    pub remote: Option<String>,
    /// Whether the directory has nothing in it; nothing where it cannot be read.
    pub is_empty: Option<bool>,
}

/// What can be done with the place.
#[derive(Debug)]
pub struct InspectResult {
    /// `empty`, `dsh_valid`, `dsh_incomplete`, `clone_broken`, `occupied` or `invalid`.
    pub state: String,
    /// The version of an installation, or what it lacks.
    pub detail: String,
}

/// What can be done with the place, as plain values.
pub open spec fn inspected(facts: DirFacts) -> (Seq<char>, Seq<char>) {
    if !facts.exists {
        ("empty"@, seq![])
    } else if !facts.is_dir {
        ("invalid"@, seq![])
    } else if facts.is_repo {
        if facts.has_modules && facts.has_build {
            ("dsh_valid"@, repo::version_in(text::content(facts.package)))
        } else {
            ("dsh_incomplete"@, lacking(facts.has_modules, facts.has_build))
        }
    } else if facts.has_git {
        if text::has_text(told(text::content(facts.remote)), OFFICIAL_REPO_NAME@) {
            ("clone_broken"@, seq![])
        } else {
            ("occupied"@, seq![])
        }
    } else if facts.is_empty == Some(true) {
        ("empty"@, seq![])
    } else {
        ("occupied"@, seq![])
    }
}

/// What an installation lacks.
pub open spec fn lacking(has_modules: bool, has_build: bool) -> Seq<char> {
    if has_modules {
        "构建产物"@
    } else if has_build {
        "node_modules"@
    } else {
        "node_modules、构建产物"@
    }
}

fn plain_state(state: &str) -> (out: InspectResult)
    ensures
        out.state@ == state@,
        out.detail@ == Seq::<char>::empty(),
{
    InspectResult { state: state.to_string(), detail: nothing() }
}

/// What can be done with the place: install there, go on with an installation, use one, or
/// leave it alone.
pub fn inspect_dir(facts: &DirFacts) -> (out: InspectResult)
    ensures
        (out.state@, out.detail@) == inspected(*facts),
{
    if !facts.exists {
        return plain_state("empty");
    }
    if !facts.is_dir {
        return plain_state("invalid");
    }
    if facts.is_repo {
        if facts.has_modules && facts.has_build {
            let package: Option<&str> = match &facts.package {
                Some(t) => Some(t.as_str()),
                None => None,
            };
            return InspectResult {
                state: "dsh_valid".to_string(),
                detail: repo::repo_dsh_version(package),
            };
        }
        let detail: String = if facts.has_modules {
            "构建产物".to_string()
        } else if facts.has_build {
            "node_modules".to_string()
        } else {
            "node_modules、构建产物".to_string()
        };
        return InspectResult { state: "dsh_incomplete".to_string(), detail };
    }
    if facts.has_git {
        let ours: bool = match &facts.remote {
            Some(remote) => text::contains(remote.as_str(), OFFICIAL_REPO_NAME),
            None => text::contains("", OFFICIAL_REPO_NAME),
        };
        proof {
            reveal_strlit("");
            assert(""@ =~= seq![]);
        }
        return if ours {
            plain_state("clone_broken")
        } else {
            plain_state("occupied")
        };
    }
    let empty: bool = match facts.is_empty {
        Some(e) => e,
        None => false,
    };
    if empty {
        plain_state("empty")
    } else {
        plain_state("occupied")
    }
}

/// What can be done with the place that the user typed: nothing where that is blank.
pub fn inspect_install_dir(dir: &str, facts: &DirFacts) -> (out: InspectResult)
    ensures
        (out.state@, out.detail@) == (if text::stripped(dir@).len() == 0 {
            ("invalid"@, Seq::<char>::empty())
        } else {
            inspected(*facts)
        }),
{
    if text::trim(dir).is_empty() {
        plain_state("invalid")
    } else {
        inspect_dir(facts)
    }
}

/// A place counts as free only where nothing is there, or a directory with nothing in it: an
/// installation never begins on top of anything.
pub proof fn free_means_nothing_is_there(facts: DirFacts)
    ensures
        inspected(facts).0 == "empty"@ ==> !facts.exists || facts.is_dir && !facts.is_repo
            && !facts.has_git && facts.is_empty == Some(true),
        inspected(facts).0 == "dsh_valid"@ ==> facts.exists && facts.is_repo && facts.has_modules
            && facts.has_build,
        inspected(facts).0 == "dsh_incomplete"@ ==> facts.exists && facts.is_repo && !(
        facts.has_modules && facts.has_build),
{
    reveal_strlit("empty");
    reveal_strlit("invalid");
    reveal_strlit("dsh_valid");
    reveal_strlit("dsh_incomplete");
    reveal_strlit("clone_broken");
    reveal_strlit("occupied");
    assert("empty"@.len() == 5);
    assert("invalid"@.len() == 7);
    assert("dsh_valid"@.len() == 9);
    assert("dsh_incomplete"@.len() == 14);
    assert("clone_broken"@.len() == 12);
    assert("occupied"@.len() == 8);
}

/// A version is read from what Node.js prints, with or without the letter before it, and the
/// harness runs on 22 from 22.19 on and on everything from 24 on.
pub proof fn node_versions_are_read(
    version_text: &str,
    out: Option<bool>,
    letter: bool,
    major: u32,
    minor: u32,
    patch: u32,
)
    requires
        call_ensures(node_version_ok, (version_text,), out),
        version_text@ == (if letter {
            seq!['v']
        } else {
            seq![]
        }) + (digits::decimal(major as nat) + seq!['.'] + (digits::decimal(minor as nat) + seq!['.']
            + digits::decimal(patch as nat))),
    ensures
        out == Some(major == 22 && minor >= 19 || major >= 24),
{
    let (a, b, c) = (
        digits::decimal(major as nat),
        digits::decimal(minor as nat),
        digits::decimal(patch as nat),
    );
    digits::decimal_is_digits(major as nat);
    digits::decimal_is_digits(minor as nat);
    digits::decimal_is_digits(patch as nat);
    digits::decimal_reads_back(major as nat, u32::MAX as nat);
    digits::decimal_reads_back(minor as nat, u32::MAX as nat);
    let rest = b + seq!['.'] + c;
    let bare = a + seq!['.'] + rest;
    let all = version_text@;
    assert(digits::is_digit(a[0]) && digits::is_digit(c[c.len() - 1]));
    assert(bare[0] == a[0]);
    assert(bare.last() == c[c.len() - 1]);
    assert(all.last() == bare.last());
    assert(all[0] == (if letter {
        'v'
    } else {
        bare[0]
    }));
    text::visible_characters_are_no_white_space(all[0]);
    text::visible_characters_are_no_white_space(all.last());
    text::bare_text_stays(all);
    let letters = seq!['v', 'V'];
    assert(letters[0] == 'v' && letters[1] == 'V');
    assert(letters.contains('v'));
    if letter {
        assert(all[1] == bare[0]);
        text::lemma_trimmed_start_is(all, letters, 1);
        assert(all.skip(1) =~= bare);
    } else {
        text::lemma_trimmed_start_is(all, letters, 0);
        assert(all.skip(0) =~= bare);
    }
    let dot = seq!['.'];
    assert(dot[0] == '.');
    assert(dot.contains('.'));
    assert forall|i: int| 0 <= i < a.len() implies !dot.contains(#[trigger] a[i]) by {
        assert(digits::is_digit(a[i]));
    }
    assert forall|i: int| 0 <= i < b.len() implies !dot.contains(#[trigger] b[i]) by {
        assert(digits::is_digit(b[i]));
    }
    assert forall|i: int| 0 <= i < c.len() implies !dot.contains(#[trigger] c[i]) by {
        assert(digits::is_digit(c[i]));
    }
    text::first_piece_is_cut_off(a, '.', rest, dot);
    text::first_piece_is_cut_off(b, '.', c, dot);
    text::only_piece_is_the_text(c, dot);
    assert(text::pieces(bare, dot) =~= seq![a, b, c]);
}

/// Node.js that is too old cannot be used, one whose version cannot be read can, and one that is
/// not there is missing.
pub proof fn old_node_cannot_be_used(
    located: bool,
    version: Option<String>,
    shown: &str,
    ok: Option<bool>,
    out: ToolInfo,
)
    requires
        call_ensures(detect_node, (located, version), out),
        call_ensures(node_version_ok, (shown,), ok),
        version is Some ==> shown@ == version->0@,
        version is None ==> shown@.len() == 0,
    ensures
        !located ==> !out.found && out.note@ == "missing"@ && out.version@.len() == 0,
        located ==> out.version@ == shown@,
        located && ok == Some(false) ==> !out.found && out.note@ == "old"@,
        located && ok != Some(false) ==> out.found && out.note@.len() == 0,
{
    assert(told(text::content(version)) =~= shown@);
}

/// git and pnpm can be used where they are there; pnpm that is called through corepack says so.
pub proof fn tools_that_are_there_can_be_used(
    located: bool,
    version: Option<String>,
    git: ToolInfo,
    tool: Option<&Tool>,
    pnpm: ToolInfo,
)
    requires
        call_ensures(detect_git, (located, version), git),
        call_ensures(detect_pnpm, (tool, version), pnpm),
    ensures
        git.found == located,
        pnpm.found == (tool is Some),
        located ==> git.note@.len() == 0,
        located && version is Some ==> git.version@ == version->0@,
        !located ==> git.note@ == "missing"@ && git.version@.len() == 0,
        tool is None ==> pnpm.note@ == "missing"@ && pnpm.version@.len() == 0,
        tool is Some && tool->0@.prefix.len() == 0 ==> pnpm.note@.len() == 0,
        tool is Some && tool->0@.prefix.len() > 0 ==> pnpm.note@ == "via_corepack"@,
        tool is Some && version is Some ==> pnpm.version@ == version->0@,
{
}

/// An installation can begin exactly where all three tools can be used.
pub proof fn all_three_tools_are_needed(git: ToolInfo, node: ToolInfo, pnpm: ToolInfo, out: EnvReport)
    requires
        call_ensures(check_env, (git, node, pnpm), out),
    ensures
        out.ok ==> git.found && node.found && pnpm.found,
        git.found && node.found && pnpm.found ==> out.ok,
        out.git == git && out.node == node && out.pnpm == pnpm,
{
}

/// git is the one on the search path, and else the first of the places where it is installed
/// that has it; outside Windows it is called by its name.
pub proof fn git_is_found(windows: bool, on_path: Option<&str>, installed: &Vec<bool>, out: Option<String>)
    requires
        call_ensures(locate_git, (windows, on_path, installed), out),
        installed@.len() == 3,
    ensures
        !windows ==> text::content(out) == Some("git"@),
        windows && on_path is Some ==> text::content(out) == Some(on_path->0@),
        windows && on_path is None && installed@[0] ==> text::content(out) == Some(
            "C:\\Program Files\\Git\\cmd\\git.exe"@,
        ),
        windows && on_path is None && !installed@[0] && installed@[1] ==> text::content(out) == Some(
            "C:\\Program Files (x86)\\Git\\cmd\\git.exe"@,
        ),
        windows && on_path is None && !installed@[0] && !installed@[1] && installed@[2]
            ==> text::content(out) == Some("C:\\Soft\\Git\\cmd\\git.exe"@),
        windows && on_path is None && !installed@[0] && !installed@[1] && !installed@[2] ==> out
            is None,
{
}

/// Node.js is the one on the search path, and else the installed one; outside Windows it is
/// called by its name.
pub proof fn node_is_found(windows: bool, on_path: Option<&str>, installed: bool, out: Option<String>)
    requires
        call_ensures(locate_node, (windows, on_path, installed), out),
    ensures
        !windows ==> text::content(out) == Some("node"@),
        windows && on_path is Some ==> text::content(out) == Some(on_path->0@),
        windows && on_path is None && installed ==> text::content(out) == Some(
            "C:\\Program Files\\nodejs\\node.exe"@,
        ),
        windows && on_path is None && !installed ==> out is None,
{
}

/// pnpm itself goes before corepack, and the search path before what lies beside Node.js;
/// corepack is asked for pnpm. Outside Windows pnpm is called by its name.
pub proof fn pnpm_goes_before_corepack(
    windows: bool,
    pnpm: Option<&str>,
    corepack: Option<&str>,
    usual: Option<Tool>,
    pnpm_beside: Option<&str>,
    corepack_beside: Option<&str>,
    out: Option<Tool>,
)
    requires
        call_ensures(locate_pnpm, (windows, pnpm, corepack), usual),
        call_ensures(locate_pnpm_ex, (usual, windows, pnpm_beside, corepack_beside), out),
    ensures
        !windows ==> (usual matches Some(tool) && tool@.program == "pnpm"@ && tool@.prefix.len()
            == 0),
        windows && pnpm is Some ==> (usual matches Some(tool) && tool@.program == pnpm->0@
            && tool@.prefix.len() == 0),
        windows && pnpm is None && corepack is Some ==> (usual matches Some(tool) && tool@.program
            == corepack->0@ && tool@.prefix == seq!["pnpm"@]),
        windows && pnpm is None && corepack is None ==> usual is None,
        usual is Some ==> (out matches Some(tool) && tool@ == usual->0@),
        usual is None && windows && pnpm_beside is Some ==> (out matches Some(tool) && tool@.program
            == pnpm_beside->0@ && tool@.prefix.len() == 0),
        usual is None && windows && pnpm_beside is None && corepack_beside is Some ==> (
        out matches Some(tool) && tool@.program == corepack_beside->0@ && tool@.prefix == seq![
            "pnpm"@,
        ]),
        usual is None && windows && pnpm_beside is None && corepack_beside is None ==> out is None,
{
}

/// On the search path the first directory with one of the names is taken, and in it the first
/// name.
pub proof fn first_file_on_the_path_is_taken(
    found: &Vec<Vec<bool>>,
    out: Option<(usize, usize)>,
    d: int,
    n: int,
)
    requires
        call_ensures(find_on_path, (found,), out),
        0 <= d < found@.len(),
        0 <= n < found@[d]@.len(),
        found@[d]@[n],
    ensures
        out matches Some((dir, name)) && found@[dir as int]@[name as int] && (dir < d || dir == d
            && name <= n),
{
    match out {
        Some((dir, name)) => {
            if dir > d {
                assert(!found@[d]@[n]);
            } else if dir == d && name > n {
                assert(!found@[dir as int]@[n]);
            }
        },
        None => {
            assert(has_no_hit(found@));
        },
    }
}

/// The programs are looked for under these names, and beside Node.js under the first of them.
pub proof fn programs_have_their_names(program: Program, names: Vec<String>, first: &'static str)
    requires
        call_ensures(names_on_path, (program,), names),
        call_ensures(first_name, (program,), first),
    ensures
        program is Git ==> text::texts(names@) == seq!["git.exe"@] && first@ == "git.exe"@,
        program is Node ==> text::texts(names@) == seq!["node.exe"@] && first@ == "node.exe"@,
        program is Pnpm ==> text::texts(names@) == seq!["pnpm.cmd"@, "pnpm.exe"@] && first@
            == "pnpm.cmd"@,
        program is Corepack ==> text::texts(names@) == seq!["corepack.cmd"@, "corepack.exe"@]
            && first@ == "corepack.cmd"@,
{
}

/// What a place is: free where nothing is there or an empty directory; an installation where
/// dependencies and build are there, and otherwise one that lacks something; a clone that was
/// broken off where only git's directory is there and it comes from upstream; taken where
/// anything else is there; and of no use where it is no directory.
pub proof fn places_are_told_apart(facts: &DirFacts, out: InspectResult, version: String)
    requires
        call_ensures(inspect_dir, (facts,), out),
    ensures
        !facts.exists ==> out.state@ == "empty"@,
        facts.exists && !facts.is_dir ==> out.state@ == "invalid"@,
        facts.exists && facts.is_dir && facts.is_repo && facts.has_modules && facts.has_build
            ==> out.state@ == "dsh_valid"@ && out.detail@ == repo::version_in(
            text::content(facts.package),
        ),
        facts.exists && facts.is_dir && facts.is_repo && !(facts.has_modules && facts.has_build)
            ==> out.state@ == "dsh_incomplete"@,
        facts.exists && facts.is_dir && facts.is_repo && !facts.has_modules && facts.has_build
            ==> out.detail@ == "node_modules"@,
        facts.exists && facts.is_dir && facts.is_repo && facts.has_modules && !facts.has_build
            ==> out.detail@ == "构建产物"@,
        facts.exists && facts.is_dir && facts.is_repo && !facts.has_modules && !facts.has_build
            ==> out.detail@ == "node_modules、构建产物"@,
        facts.exists && facts.is_dir && !facts.is_repo && facts.has_git && facts.remote is Some
            && text::has_text(facts.remote->0@, "deepseek-ai/deepseek-harness"@) ==> out.state@
            == "clone_broken"@,
        facts.exists && facts.is_dir && !facts.is_repo && facts.has_git && facts.remote is Some
            && !text::has_text(facts.remote->0@, "deepseek-ai/deepseek-harness"@) ==> out.state@
            == "occupied"@,
        facts.exists && facts.is_dir && !facts.is_repo && facts.has_git && facts.remote is None
            ==> out.state@ == "occupied"@,
        facts.exists && facts.is_dir && !facts.is_repo && !facts.has_git && facts.is_empty == Some(
            true,
        ) ==> out.state@ == "empty"@,
        facts.exists && facts.is_dir && !facts.is_repo && !facts.has_git && facts.is_empty != Some(
            true,
        ) ==> out.state@ == "occupied"@,
        !(facts.exists && facts.is_dir && facts.is_repo) ==> out.detail@.len() == 0,
{
    reveal_strlit("deepseek-ai/deepseek-harness");
    let none: Seq<char> = seq![];
    if text::has_text(none, "deepseek-ai/deepseek-harness"@) {
        let at = choose|at: int| text::occurs_at(none, "deepseek-ai/deepseek-harness"@, at);
        assert(at + "deepseek-ai/deepseek-harness"@.len() <= 0);
    }
}

/// A place that was typed is looked at as it is, and a blank one is of no use.
pub proof fn blank_places_are_of_no_use(
    dir: &str,
    facts: &DirFacts,
    out: InspectResult,
    plain: InspectResult,
    i: int,
)
    requires
        call_ensures(inspect_install_dir, (dir, facts), out),
        call_ensures(inspect_dir, (facts,), plain),
    ensures
        (forall|k: int| 0 <= k < dir@.len() ==> text::white_space().contains(#[trigger] dir@[k]))
            ==> out.state@ == "invalid"@ && out.detail@.len() == 0,
        0 <= i < dir@.len() && !text::white_space().contains(dir@[i]) ==> out.state@ == plain.state@
            && out.detail@ == plain.detail@,
{
    let none: Seq<char> = seq![];
    if forall|k: int| 0 <= k < dir@.len() ==> text::white_space().contains(#[trigger] dir@[k]) {
        text::white_space_around_is_removed(dir@, none, none);
        assert(dir@ + none + none =~= dir@);
    }
    if 0 <= i < dir@.len() && !text::white_space().contains(dir@[i]) {
        text::visible_text_is_left(dir@, i);
    }
}

/// What a tool says of its version is the first line of what it printed, without white space
/// around the whole; where it printed nothing, that of its error output; and where it failed,
/// nothing.
pub proof fn first_line_tells_the_version(
    output: &str,
    errors: &str,
    out: Option<String>,
    success: bool,
    stdout: &Vec<u8>,
    stderr: &Vec<u8>,
    probed: Option<String>,
)
    requires
        call_ensures(first_line, (output, errors), out),
        call_ensures(probe_version, (success, stdout, stderr), probed),
        output@ == unicode::lossy_text(stdout@),
        errors@ == unicode::lossy_text(stderr@),
    ensures
        ({
            let from_output = text::lines_of(text::stripped(output@));
            let from_errors = text::lines_of(text::stripped(errors@));
            &&& text::stripped(output@).len() > 0 && from_output.len() > 0 ==> text::content(out)
                == Some(from_output[0])
            &&& text::stripped(output@).len() == 0 && from_errors.len() > 0 ==> text::content(out)
                == Some(from_errors[0])
            &&& text::stripped(output@).len() == 0 && text::stripped(errors@).len() == 0 ==> out
                is None
        }),
        !success ==> probed is None,
        success ==> text::content(probed) == text::content(out),
{
}

/// A tool is asked for its version behind the words that lead to it, and git for the place that a
/// repository comes from.
pub proof fn tools_are_asked(
    prefix: &Vec<String>,
    version: Vec<String>,
    remote: Vec<String>,
    at: usize,
    place: &'static str,
)
    requires
        call_ensures(version_args, (prefix,), version),
        call_ensures(remote_args, (), remote),
        call_ensures(git_place, (at,), place),
        at < 3,
    ensures
        version@.len() == prefix@.len() + 1,
        text::texts(version@) == text::texts(prefix@).push("--version"@),
        text::texts(remote@) == seq!["remote"@, "get-url"@, "origin"@],
        at == 0 ==> place@ == "C:\\Program Files\\Git\\cmd\\git.exe"@,
        at == 1 ==> place@ == "C:\\Program Files (x86)\\Git\\cmd\\git.exe"@,
        at == 2 ==> place@ == "C:\\Soft\\Git\\cmd\\git.exe"@,
{
    assert(text::texts(version@).len() == version@.len());
    assert(text::texts(prefix@).len() == prefix@.len());
}

} // verus!
