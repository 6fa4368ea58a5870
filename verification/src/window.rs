//! The main window: when it closes, and where links lead.

use vstd::prelude::*;
use vstd::string::*;

use crate::digits;
use crate::repo;
use crate::text;

verus! {

/// Whether the window may close without a question.
pub struct CloseFlag {
    skip: bool,
}

impl View for CloseFlag {
    type V = bool;

    closed spec fn view(&self) -> bool {
        self.skip
    }
}

impl CloseFlag {
    /// The user is asked.
    pub fn new() -> (flag: CloseFlag)
        ensures
            !flag@,
    {
        CloseFlag { skip: false }
    }

    /// Whether the window may close without a question.
    pub fn skip_close_confirm(&self) -> (out: bool)
        ensures
            out == self@,
    {
        self.skip
    }

    /// The user has decided: from now on the window may close.
    pub fn decide(&mut self)
        ensures
            final(self)@,
    {
        self.skip = true;
    }
}

/// What becomes of a wish to close the window or to quit.
#[derive(Clone, Copy, Debug, PartialEq, Eq, Structural)]
pub enum CloseAnswer {
    /// It is granted.
    Close,
    /// The page asks the user, and knows whether something is at work.
    Ask { updating: bool },
}

/// The user wants to close the window: the page asks, unless the user has decided.
pub fn on_close(skip: bool, updating: bool) -> (out: CloseAnswer)
    ensures
        out == (if skip {
            CloseAnswer::Close
        } else {
            CloseAnswer::Ask { updating }
        }),
{
    if skip {
        CloseAnswer::Close
    } else {
        CloseAnswer::Ask { updating }
    }
}

/// The user quits from the tray: that is granted, unless something is at work.
pub fn on_quit(updating: bool) -> (out: CloseAnswer)
    ensures
        out == (if updating {
            CloseAnswer::Ask { updating: true }
        } else {
            CloseAnswer::Close
        }),
{
    if updating {
        CloseAnswer::Ask { updating: true }
    } else {
        CloseAnswer::Close
    }
}

/// The address is one of the web.
pub open spec fn is_web_address(url: Seq<char>) -> bool {
    text::begins_with(url, "http://"@) || text::begins_with(url, "https://"@)
}

/// Whether an address is handed to the system's browser: only addresses of the web are.
pub fn open_external(url: &str) -> (out: Result<(), String>)
    ensures
        match out {
            Ok(_) => is_web_address(url@),
            Err(message) => !is_web_address(url@) && message@ == "仅支持 http/https 链接"@,
        },
{
    if text::starts_with(url, "http://") || text::starts_with(url, "https://") {
        Ok(())
    } else {
        Err("仅支持 http/https 链接".to_string())
    }
}

/// What the dialog about the program shows.
#[derive(Debug)]
pub struct VersionInfo {
    pub shell: String,
    pub dsh: String,
    pub repo: String,
}

/// What the dialog about the program shows: the version of the shell, and that of the harness
/// and its place where it is known. `package` is the text of the file that tells the version.
pub fn version_info(shell: &str, repo: Option<&str>, package: Option<&str>) -> (out: VersionInfo)
    ensures
        out.shell@ == shell@,
        out.dsh@ == (match repo {
            Some(_) => repo::version_in(repo::text_of(package)),
            None => seq![],
        }),
        out.repo@ == (match repo {
            Some(path) => path@,
            None => seq![],
        }),
{
    match repo {
        Some(path) => VersionInfo {
            shell: shell.to_string(),
            dsh: repo::repo_dsh_version(package),
            repo: path.to_string(),
        },
        None => {
            let out = VersionInfo {
                shell: shell.to_string(),
                dsh: String::new(),
                repo: String::new(),
            };
            assert(out.dsh@ =~= seq![]);
            assert(out.repo@ =~= seq![]);
            out
        },
    }
}

/// Where a crash happened.
pub fn crash_place(file: &str, line: u32, column: u32) -> (out: String)
    ensures
        out@ == file@ + ":"@ + digits::decimal(line as nat) + ":"@ + digits::decimal(column as nat),
{
    let mut out: String = file.to_string();
    out.append(":");
    out.append(digits::write_decimal(line as u64).as_str());
    out.append(":");
    out.append(digits::write_decimal(column as u64).as_str());
    out
}

/// What is said where the user chose a directory that is no repository.
pub fn not_a_repository(path: &str) -> (out: String)
    ensures
        out@ == "所选目录不是有效的 deepseek-harness 仓库（缺少 apps\\cli\\package.json）: "@ + path@,
{
    let mut out: String =
        "所选目录不是有效的 deepseek-harness 仓库（缺少 apps\\cli\\package.json）: ".to_string();
    out.append(path);
    out
}

/// What is said where the server did not start.
pub fn start_failure(error: &str) -> (out: String)
    ensures
        out@ == "DeepSeek Harness 启动失败\n\n"@ + error@,
{
    let mut out: String = "DeepSeek Harness 启动失败\n\n".to_string();
    out.append(error);
    out
}

/// The window closes without a question exactly where the user has decided; otherwise the page
/// asks, and is told whether something is at work.
pub proof fn closing_is_asked_about(skip: bool, updating: bool, out: CloseAnswer)
    requires
        call_ensures(on_close, (skip, updating), out),
    ensures
        skip ==> out is Close,
        !skip ==> out == (CloseAnswer::Ask { updating }),
{
}

/// Quitting from the tray is granted at once where nothing is at work, and asked about where
/// something is.
pub proof fn work_is_not_cut_off_by_quitting(updating: bool, out: CloseAnswer)
    requires
        call_ensures(on_quit, (updating,), out),
    ensures
        updating ==> out == (CloseAnswer::Ask { updating: true }),
        !updating ==> out is Close,
{
}

/// A flag that was not set asks, and one that was set does not.
pub proof fn decision_of_the_user_is_kept(fresh: CloseFlag, asked: bool, decided: CloseFlag, skips: bool)
    requires
        call_ensures(CloseFlag::new, (), fresh),
        call_ensures(CloseFlag::skip_close_confirm, (&fresh,), asked),
        decided@,
        call_ensures(CloseFlag::skip_close_confirm, (&decided,), skips),
    ensures
        !asked,
        skips,
{
}

/// Whatever follows, an address of the web goes to the browser; nothing else does.
pub proof fn only_web_addresses_leave(url: &str, out: Result<(), String>, rest: Seq<char>)
    requires
        call_ensures(open_external, (url,), out),
    ensures
        url@ == "http://"@ + rest ==> out is Ok,
        url@ == "https://"@ + rest ==> out is Ok,
        out is Ok ==> url@.len() >= 7 && url@[0] == 'h' && url@[1] == 't' && url@[2] == 't' && url@[3]
            == 'p',
        out matches Err(message) ==> message@ == "仅支持 http/https 链接"@,
{
    let none: Seq<char> = seq![];
    text::part_stands_between(none, "http://"@, rest);
    text::part_stands_between(none, "https://"@, rest);
    reveal_strlit("http://");
    reveal_strlit("https://");
    if text::begins_with(url@, "http://"@) {
        let part = url@.subrange(0, 7);
        assert(part[0] == url@[0] && part[1] == url@[1] && part[2] == url@[2] && part[3] == url@[3]);
    }
    if text::begins_with(url@, "https://"@) {
        let part = url@.subrange(0, 8);
        assert(part[0] == url@[0] && part[1] == url@[1] && part[2] == url@[2] && part[3] == url@[3]);
    }
}

/// The dialog shows the place and the version of the harness where the place is known, and
/// leaves both blank where it is not.
pub proof fn dialog_shows_what_is_known(
    shell: &str,
    repo: Option<&str>,
    package: Option<&str>,
    out: VersionInfo,
    version: String,
)
    requires
        call_ensures(version_info, (shell, repo, package), out),
        call_ensures(repo::repo_dsh_version, (package,), version),
    ensures
        out.shell@ == shell@,
        repo is Some ==> out.repo@ == repo->0@ && out.dsh@ == version@,
        repo is None ==> out.repo@.len() == 0 && out.dsh@.len() == 0,
{
}

/// Once the user has decided, the window closes without a question.
pub proof fn decision_closes_the_window(skip: bool)
    ensures
        forall|flag: &mut CloseFlag| #[trigger]
            call_ensures(CloseFlag::decide, (flag,), ()) ==> (call_ensures(
                CloseFlag::skip_close_confirm,
                (final(flag),),
                skip,
            ) ==> skip),
{
}

/// A crash is placed by file, line and column; a wrong directory is told with its path, and a
/// failed start with its reason.
pub proof fn troubles_are_told(
    file: &str,
    line: u32,
    column: u32,
    place: String,
    path: &str,
    wrong: String,
    error: &str,
    failed: String,
)
    requires
        call_ensures(crash_place, (file, line, column), place),
        call_ensures(not_a_repository, (path,), wrong),
        call_ensures(start_failure, (error,), failed),
    ensures
        place@ == file@ + seq![':'] + digits::decimal(line as nat) + seq![':'] + digits::decimal(
            column as nat,
        ),
        wrong@ == "所选目录不是有效的 deepseek-harness 仓库（缺少 apps\\cli\\package.json）: "@ + path@,
        failed@ == "DeepSeek Harness 启动失败\n\n"@ + error@,
{
    reveal_strlit(":");
    assert(":"@ =~= seq![':']);
}

} // verus!
