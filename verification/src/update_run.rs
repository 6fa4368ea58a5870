//! The course of an update.
//!
//! An update is a conversation with the world outside: the run asks for one piece of work at a
//! time, and what comes back decides what it asks for next.

use vstd::prelude::*;
use vstd::string::*;

use crate::steps;
use crate::steps::CommandView;
use crate::steps::StepCommand;
use crate::steps::Tool;
use crate::steps::ToolView;
use crate::text;
use crate::unicode;
use crate::update;
use crate::update::Busy;

verus! {

/// The first command is tried again so many times where the network fails.
pub const MAX_RETRIES: u64 = 3;

/// A try waits so many seconds longer than the one before.
pub const RETRY_SECS: u64 = 5;

/// So many commands are run.
pub const STEP_COUNT: usize = 4;

/// So many files follow upstream and are put back before the work begins.
pub const FILE_COUNT: usize = 2;

/// So many characters of the output of a command that failed are shown.
pub const SHOWN_CHARS: usize = 1500;

/// Work that an update asks for.
#[derive(Debug)]
pub enum Action {
    /// Remove the lock of git's index, if it was left behind.
    ClearLock,
    /// Run git with these arguments and hand back what it gives.
    Git(Vec<String>),
    /// Say whether the repository has a file of this name at its root.
    LookForFile(String),
    /// Find out how pnpm is called.
    FindPnpm,
    /// Stop the server. The window is held open from now on.
    StopServer,
    /// Run a command in the repository, show its progress, and hand back its output.
    RunStep { index: usize, label: String, command: StepCommand },
    /// Wait so many seconds.
    Sleep(u64),
    /// Remember that this commit failed to build.
    MarkBad(String),
    /// Forget that this commit failed to build.
    ClearBad(String),
    /// Start the server again.
    RestoreServer,
    /// The update is over.
    Finish(UpdateResult),
    /// There is no update, for this reason; nothing was touched.
    Refuse(String),
    /// The update was over before.
    Nothing,
}

/// `Action` as plain values.
pub enum ActionView {
    ClearLock,
    Git(Seq<Seq<char>>),
    LookForFile(Seq<char>),
    FindPnpm,
    StopServer,
    RunStep { index: int, label: Seq<char>, command: CommandView },
    Sleep(int),
    MarkBad(Seq<char>),
    ClearBad(Seq<char>),
    RestoreServer,
    Finish(ResultView),
    Refuse(Seq<char>),
    Nothing,
}

impl View for Action {
    type V = ActionView;

    open spec fn view(&self) -> ActionView {
        match *self {
            Action::ClearLock => ActionView::ClearLock,
            Action::Git(args) => ActionView::Git(text::texts(args@)),
            Action::LookForFile(name) => ActionView::LookForFile(name@),
            Action::FindPnpm => ActionView::FindPnpm,
            Action::StopServer => ActionView::StopServer,
            Action::RunStep { index, label, command } => ActionView::RunStep {
                index: index as int,
                label: label@,
                command: command@,
            },
            Action::Sleep(secs) => ActionView::Sleep(secs as int),
            Action::MarkBad(commit) => ActionView::MarkBad(commit@),
            Action::ClearBad(commit) => ActionView::ClearBad(commit@),
            Action::RestoreServer => ActionView::RestoreServer,
            Action::Finish(result) => ActionView::Finish(result@),
            Action::Refuse(message) => ActionView::Refuse(message@),
            Action::Nothing => ActionView::Nothing,
        }
    }
}

/// How an update ended.
#[derive(Debug)]
pub struct UpdateResult {
    pub ok: bool,
    /// The label of the command that failed.
    pub failed_step: Option<String>,
    /// The end of its output.
    pub output_tail: Option<String>,
    /// There was nothing to do.
    pub already_latest: bool,
    /// The commit from before the update, where the repository had moved on when it failed.
    pub prev_head: Option<String>,
    /// Local changes were set aside.
    pub stashed_changes: bool,
    /// The repository was taken back to that commit and built again.
    pub auto_rolled_back: bool,
    /// It could not be taken back or built again.
    pub rollback_rebuild_failed: bool,
}

/// `UpdateResult` as plain values.
pub struct ResultView {
    pub ok: bool,
    pub failed_step: Option<Seq<char>>,
    pub output_tail: Option<Seq<char>>,
    pub already_latest: bool,
    pub prev_head: Option<Seq<char>>,
    pub stashed_changes: bool,
    pub auto_rolled_back: bool,
    pub rollback_rebuild_failed: bool,
}

impl View for UpdateResult {
    type V = ResultView;

    open spec fn view(&self) -> ResultView {
        ResultView {
            ok: self.ok,
            failed_step: text::content(self.failed_step),
            output_tail: text::content(self.output_tail),
            already_latest: self.already_latest,
            prev_head: text::content(self.prev_head),
            stashed_changes: self.stashed_changes,
            auto_rolled_back: self.auto_rolled_back,
            rollback_rebuild_failed: self.rollback_rebuild_failed,
        }
    }
}

/// What came of a piece of work.
#[derive(Debug)]
pub struct Reply {
    /// It succeeded; the file is there.
    pub ok: bool,
    /// What git gave, or its message; the output of the command.
    pub text: String,
    /// How pnpm is called, where that was asked and is known.
    pub tool: Option<Tool>,
}

/// `Reply` as plain values.
pub struct ReplyView {
    pub ok: bool,
    pub text: Seq<char>,
    pub tool: Option<ToolView>,
}

impl View for Reply {
    type V = ReplyView;

    open spec fn view(&self) -> ReplyView {
        ReplyView {
            ok: self.ok,
            text: self.text@,
            tool: match self.tool {
                Some(t) => Some(t@),
                None => None,
            },
        }
    }
}

/// What an update waits for.
#[derive(Clone, Copy, Debug, PartialEq, Eq, Structural)]
pub enum Phase {
    /// The lock is being removed.
    Lock,
    /// The upstream repository is being asked.
    Fetch,
    /// The commit of the repository is being read, to be compared.
    Head,
    /// The commit of the upstream branch is being read.
    Upstream,
    /// It is being looked up whether the chosen version exists.
    Verify,
    /// pnpm is being looked for.
    Pnpm,
    /// The commit from before the update is being read.
    Base,
    /// The lock is being removed once more.
    LockAgain,
    /// A file that follows upstream is being looked for.
    FileThere,
    /// That file is being compared with the commit.
    FileDiff,
    /// That file is being put back.
    FileRestore,
    /// The server is being stopped.
    Stop,
    /// A command is running.
    Step,
    /// The first command waits for another try.
    Wait,
    /// Local changes are being set aside.
    Stash,
    /// All commands are done; the new commit is being read.
    NewHead,
    /// The new commit is being struck off the list of those that failed.
    Unmark,
    /// A command failed; the commit is being read.
    FailedHead,
    /// The commit is being recorded as one that failed.
    Mark,
    /// The repository is being taken back.
    Reset,
    /// A command is running to build the earlier version.
    Rebuild,
    /// The server is being started again.
    Restore,
    /// The end: the update was refused or not needed, and nothing was touched.
    Untouched,
    /// The end: every command was done.
    Updated,
    /// The end: a command failed.
    Failed,
}

/// An update under way.
pub struct UpdateRun {
    phase: Phase,
    force: bool,
    target: Option<String>,
    local: String,
    tool: Option<Tool>,
    base: Option<String>,
    file: usize,
    step: usize,
    retries: u64,
    stashed: bool,
    failed: usize,
    output: String,
    moved: Option<String>,
    rebuilt: bool,
}

/// `UpdateRun` as plain values.
pub struct RunView {
    /// What it waits for.
    pub phase: Phase,
    /// Build again even where nothing is new, and leave the source as it is.
    pub force: bool,
    /// The version that was chosen.
    pub target: Option<Seq<char>>,
    /// The commit that is compared with upstream.
    pub local: Seq<char>,
    /// How pnpm is called.
    pub tool: Option<ToolView>,
    /// The commit from before the update.
    pub base: Option<Seq<char>>,
    /// Which of the files that follow upstream is looked at.
    pub file: int,
    /// Which command is run.
    pub step: int,
    /// How many times the first command was tried again.
    pub retries: int,
    /// Local changes were set aside.
    pub stashed: bool,
    /// Which command failed.
    pub failed: int,
    /// Its output.
    pub output: Seq<char>,
    /// The commit to go back to.
    pub moved: Option<Seq<char>>,
    /// The earlier version was built again.
    pub rebuilt: bool,
}

impl View for UpdateRun {
    type V = RunView;

    closed spec fn view(&self) -> RunView {
        RunView {
            phase: self.phase,
            force: self.force,
            target: text::content(self.target),
            local: self.local@,
            tool: match self.tool {
                Some(t) => Some(t@),
                None => None,
            },
            base: text::content(self.base),
            file: self.file as int,
            step: self.step as int,
            retries: self.retries as int,
            stashed: self.stashed,
            failed: self.failed as int,
            output: self.output@,
            moved: text::content(self.moved),
            rebuilt: self.rebuilt,
        }
    }
}

/// What the commands are called.
pub open spec fn step_labels() -> Seq<Seq<char>> {
    seq![
        "拉取官方最新代码（git pull）"@,
        "安装依赖（pnpm install）"@,
        "清理旧构建产物（pnpm run clean）"@,
        "重新构建（pnpm run build）"@,
    ]
}

/// The tag to switch to: none where the upstream branch is followed.
pub open spec fn tag_of(target: Option<Seq<char>>) -> Option<Seq<char>> {
    match target {
        Some(t) => if t == "master"@ {
            None
        } else {
            Some(t)
        },
        None => None,
    }
}

/// What command `step` is called.
pub open spec fn label_at(target: Option<Seq<char>>, step: int) -> Seq<char> {
    match tag_of(target) {
        Some(tag) => if step == 0 {
            "切换到所选版本 "@ + tag
        } else {
            step_labels()[step]
        },
        None => step_labels()[step],
    }
}

/// Command `step`: the first one switches to a tag where one was chosen.
pub open spec fn command_at(target: Option<Seq<char>>, tool: ToolView, step: int) -> CommandView {
    match tag_of(target) {
        Some(tag) => if step == 0 {
            steps::switch_command(tag)
        } else {
            steps::following(tool)[step]
        },
        None => steps::following(tool)[step],
    }
}

/// The files that follow upstream.
pub open spec fn managed_files() -> Seq<Seq<char>> {
    seq!["package.json"@, "pnpm-lock.yaml"@]
}

/// The result of an update that had nothing to do.
pub open spec fn nothing_new() -> ResultView {
    ResultView {
        ok: true,
        failed_step: None,
        output_tail: None,
        already_latest: true,
        prev_head: None,
        stashed_changes: false,
        auto_rolled_back: false,
        rollback_rebuild_failed: false,
    }
}

/// The result of an update whose commands are all done.
pub open spec fn success(run: RunView) -> ResultView {
    ResultView {
        ok: true,
        failed_step: None,
        output_tail: None,
        already_latest: false,
        prev_head: None,
        stashed_changes: run.stashed,
        auto_rolled_back: false,
        rollback_rebuild_failed: false,
    }
}

/// The result of an update of which a command failed.
pub open spec fn failure(run: RunView) -> ResultView {
    ResultView {
        ok: false,
        failed_step: Some(label_at(run.target, run.failed)),
        output_tail: Some(text::last_chars(run.output, SHOWN_CHARS as nat)),
        already_latest: false,
        prev_head: run.moved,
        stashed_changes: run.stashed,
        auto_rolled_back: run.moved is Some && run.rebuilt,
        rollback_rebuild_failed: run.moved is Some && !run.rebuilt,
    }
}

/// Where the repository is not known.
pub open spec fn no_repository() -> Seq<char> {
    "仓库位置不可用"@
}

/// Where pnpm is not found.
pub open spec fn no_pnpm() -> Seq<char> {
    "找不到 pnpm 或 corepack：请安装 Node.js（自带 corepack），或在终端运行 npm install -g pnpm"@
}

/// The update ends with nothing touched.
pub open spec fn refused(run: RunView, message: Seq<char>) -> (RunView, ActionView) {
    (RunView { phase: Phase::Untouched, ..run }, ActionView::Refuse(message))
}

/// The run waits for what git gives.
pub open spec fn git(run: RunView, phase: Phase, args: Seq<Seq<char>>) -> (RunView, ActionView) {
    (RunView { phase, ..run }, ActionView::Git(args))
}

/// An update begins. The version was checked before.
pub open spec fn begun(force: bool, target: Option<Seq<char>>) -> RunView {
    RunView {
        phase: Phase::Lock,
        force,
        target,
        local: seq![],
        tool: None,
        base: None,
        file: 0,
        step: 0,
        retries: 0,
        stashed: false,
        failed: 0,
        output: seq![],
        moved: None,
        rebuilt: false,
    }
}

/// File `file` is seen to; after the last one the server is stopped.
pub open spec fn at_file(run: RunView, file: int) -> (RunView, ActionView) {
    if file < FILE_COUNT {
        (
            RunView { phase: Phase::FileThere, file, ..run },
            ActionView::LookForFile(managed_files()[file]),
        )
    } else {
        (RunView { phase: Phase::Stop, file, ..run }, ActionView::StopServer)
    }
}

/// Command `step` is run; after the last one the new commit is read.
pub open spec fn at_step(run: RunView, step: int) -> (RunView, ActionView) {
    if step < STEP_COUNT {
        (
            RunView { phase: Phase::Step, step, ..run },
            ActionView::RunStep {
                index: step,
                label: label_at(run.target, step),
                command: command_at(run.target, run.tool->0, step),
            },
        )
    } else {
        git(RunView { step, ..run }, Phase::NewHead, seq!["rev-parse"@, "HEAD"@])
    }
}

/// The command failed for good.
pub open spec fn after_failure(run: RunView, output: Seq<char>) -> (RunView, ActionView) {
    git(
        RunView { failed: run.step, output, ..run },
        Phase::FailedHead,
        seq!["rev-parse"@, "HEAD"@],
    )
}

/// Command `step` is run to build the earlier version; after the last one that is done.
pub open spec fn at_rebuild(run: RunView, step: int) -> (RunView, ActionView) {
    if step < STEP_COUNT {
        (
            RunView { phase: Phase::Rebuild, step, ..run },
            ActionView::RunStep {
                index: step,
                label: "回滚重建 · "@ + step_labels()[step],
                command: steps::following(run.tool->0)[step],
            },
        )
    } else {
        at_restore(RunView { step, rebuilt: true, ..run })
    }
}

/// The server is started again.
pub open spec fn at_restore(run: RunView) -> (RunView, ActionView) {
    (RunView { phase: Phase::Restore, ..run }, ActionView::RestoreServer)
}

/// The repository is taken back where it had moved on.
pub open spec fn at_rollback(run: RunView) -> (RunView, ActionView) {
    match run.moved {
        Some(base) => git(run, Phase::Reset, seq!["reset"@, "--hard"@, base]),
        None => at_restore(run),
    }
}

/// All commands are done.
pub open spec fn updated(run: RunView) -> (RunView, ActionView) {
    (RunView { phase: Phase::Updated, ..run }, ActionView::Finish(success(run)))
}

/// What is asked of the upstream repository: its tags too where a version was chosen.
pub open spec fn fetch_args(target: Option<Seq<char>>) -> Seq<Seq<char>> {
    match target {
        Some(_) => seq!["fetch"@, "origin"@, "--tags"@, "--force"@],
        None => seq!["fetch"@, "origin"@],
    }
}

/// What has to exist where a version was chosen.
pub open spec fn target_reference(target: Option<Seq<char>>) -> Seq<char> {
    match tag_of(target) {
        Some(tag) => "refs/tags/"@ + tag,
        None => "origin/master"@,
    }
}

/// The upstream repository has answered.
pub open spec fn after_fetch(run: RunView, reply: ReplyView) -> (RunView, ActionView) {
    if !reply.ok {
        refused(run, reply.text)
    } else if run.target is Some {
        git(run, Phase::Verify, seq!["rev-parse"@, "--verify"@, target_reference(run.target)])
    } else {
        git(run, Phase::Head, seq!["rev-parse"@, "HEAD"@])
    }
}

/// The commit of the repository was read.
pub open spec fn after_head(run: RunView, reply: ReplyView) -> (RunView, ActionView) {
    if !reply.ok {
        refused(run, reply.text)
    } else {
        git(
            RunView { local: reply.text, ..run },
            Phase::Upstream,
            seq!["rev-parse"@, "@{u}"@],
        )
    }
}

/// The commit of the upstream branch was read: where it is the same, there is nothing to do
/// but for a forced update.
pub open spec fn after_upstream(run: RunView, reply: ReplyView) -> (RunView, ActionView) {
    if !reply.ok {
        refused(run, reply.text)
    } else if run.local == reply.text && !run.force {
        (RunView { phase: Phase::Untouched, ..run }, ActionView::Finish(nothing_new()))
    } else {
        (RunView { phase: Phase::Pnpm, ..run }, ActionView::FindPnpm)
    }
}

/// It was looked up whether the chosen version exists.
pub open spec fn after_verify(run: RunView, reply: ReplyView) -> (RunView, ActionView) {
    if !reply.ok {
        refused(run, "远端不存在所选版本: "@ + run.target->0)
    } else {
        (RunView { phase: Phase::Pnpm, ..run }, ActionView::FindPnpm)
    }
}

/// pnpm was looked for.
pub open spec fn after_pnpm(run: RunView, reply: ReplyView) -> (RunView, ActionView) {
    match reply.tool {
        Some(tool) => git(
            RunView { tool: Some(tool), ..run },
            Phase::Base,
            seq!["rev-parse"@, "HEAD"@],
        ),
        None => refused(run, no_pnpm()),
    }
}

/// The commit from before the update was read.
pub open spec fn after_base(run: RunView, reply: ReplyView) -> (RunView, ActionView) {
    let base = if reply.ok {
        Some(reply.text)
    } else {
        None
    };
    (RunView { phase: Phase::LockAgain, base, ..run }, ActionView::ClearLock)
}

/// A file that follows upstream was looked for.
pub open spec fn after_file(run: RunView, reply: ReplyView) -> (RunView, ActionView) {
    if reply.ok {
        git(run, Phase::FileDiff, seq!["diff"@, "--quiet"@, "--"@, managed_files()[run.file]])
    } else {
        at_file(run, run.file + 1)
    }
}

/// That file was compared with the commit.
pub open spec fn after_diff(run: RunView, reply: ReplyView) -> (RunView, ActionView) {
    if reply.ok {
        at_file(run, run.file + 1)
    } else {
        git(run, Phase::FileRestore, seq!["checkout"@, "--"@, managed_files()[run.file]])
    }
}

/// What the output of a command that failed says.
pub struct Trouble {
    /// The network failed for the moment.
    pub network: bool,
    /// Local changes stood in the way.
    pub conflict: bool,
}

/// A command has ended. One that may fail is passed over. The first one is tried again where
/// the network failed, and once more where local changes that stood in the way can be set
/// aside.
pub open spec fn after_step(run: RunView, reply: ReplyView, trouble: Trouble) -> (
    RunView,
    ActionView,
) {
    if reply.ok || command_at(run.target, run.tool->0, run.step).tolerated {
        at_step(run, run.step + 1)
    } else if run.step == 0 && run.retries < MAX_RETRIES && trouble.network {
        let retries = run.retries + 1;
        (RunView { phase: Phase::Wait, retries, ..run }, ActionView::Sleep(retries * RETRY_SECS))
    } else if run.step == 0 && !run.stashed && trouble.conflict {
        git(
            RunView { output: reply.text, ..run },
            Phase::Stash,
            seq!["stash"@, "push"@, "--include-untracked"@, "-m"@, "dsh-shell auto-stash"@],
        )
    } else {
        after_failure(run, reply.text)
    }
}

/// Local changes were to be set aside.
pub open spec fn after_stash(run: RunView, reply: ReplyView) -> (RunView, ActionView) {
    if reply.ok {
        at_step(RunView { stashed: true, ..run }, run.step)
    } else {
        after_failure(run, run.output)
    }
}

/// The new commit was read: it builds, so it is no longer on the list of those that do not.
pub open spec fn after_new_head(run: RunView, reply: ReplyView) -> (RunView, ActionView) {
    if reply.ok && run.base != Some(reply.text) {
        (RunView { phase: Phase::Unmark, ..run }, ActionView::ClearBad(reply.text))
    } else {
        updated(run)
    }
}

/// The commit was read after a failure. Where the build failed and the repository has moved
/// on, the commit is recorded.
pub open spec fn after_failed_head(run: RunView, reply: ReplyView) -> (RunView, ActionView) {
    let moved = if reply.ok && run.base is Some && run.base != Some(reply.text) {
        run.base
    } else {
        None
    };
    let told = RunView { moved, ..run };
    if run.failed + 1 == STEP_COUNT && reply.ok && run.base != Some(reply.text) {
        (RunView { phase: Phase::Mark, ..told }, ActionView::MarkBad(reply.text))
    } else {
        at_rollback(told)
    }
}

/// The repository was to be taken back.
pub open spec fn after_reset(run: RunView, reply: ReplyView) -> (RunView, ActionView) {
    if reply.ok {
        at_rebuild(run, 1)
    } else {
        at_restore(run)
    }
}

/// A command to build the earlier version has ended.
pub open spec fn after_rebuild(run: RunView, reply: ReplyView) -> (RunView, ActionView) {
    if reply.ok || steps::following(run.tool->0)[run.step].tolerated {
        at_rebuild(run, run.step + 1)
    } else {
        at_restore(run)
    }
}

/// Where the run goes on from what came back, and what it asks for next.
pub open spec fn next(run: RunView, reply: ReplyView, trouble: Trouble) -> (RunView, ActionView) {
    match run.phase {
        Phase::Lock => git(run, Phase::Fetch, fetch_args(run.target)),
        Phase::Fetch => after_fetch(run, reply),
        Phase::Head => after_head(run, reply),
        Phase::Upstream => after_upstream(run, reply),
        Phase::Verify => after_verify(run, reply),
        Phase::Pnpm => after_pnpm(run, reply),
        Phase::Base => after_base(run, reply),
        Phase::LockAgain => at_file(run, 0),
        Phase::FileThere => after_file(run, reply),
        Phase::FileDiff => after_diff(run, reply),
        Phase::FileRestore => at_file(run, run.file + 1),
        Phase::Stop => at_step(
            run,
            if run.force {
                1
            } else {
                0
            },
        ),
        Phase::Step => after_step(run, reply, trouble),
        Phase::Wait => at_step(run, run.step),
        Phase::Stash => after_stash(run, reply),
        Phase::NewHead => after_new_head(run, reply),
        Phase::Unmark => updated(run),
        Phase::FailedHead => after_failed_head(run, reply),
        Phase::Mark => at_rollback(run),
        Phase::Reset => after_reset(run, reply),
        Phase::Rebuild => after_rebuild(run, reply),
        Phase::Restore => (
            RunView { phase: Phase::Failed, ..run },
            ActionView::Finish(failure(run)),
        ),
        Phase::Untouched | Phase::Updated | Phase::Failed => (run, ActionView::Nothing),
    }
}

/// The run is over.
pub open spec fn ended(phase: Phase) -> bool {
    phase is Untouched || phase is Updated || phase is Failed
}

/// The phases in which the window is held open: from the request that stops the server until
/// the end.
pub open spec fn holds_window(phase: Phase) -> bool {
    phase is Stop || phase is Step || phase is Wait || phase is Stash || phase is NewHead
        || phase is Unmark || phase is FailedHead || phase is Mark || phase is Reset
        || phase is Rebuild || phase is Restore
}

/// Whether something is noted to be at work once an answer took the run from `before` to
/// `after`, where `busy` was noted until then: it is from when the server has been stopped,
/// and is no longer when the window is let go.
pub open spec fn busy_after(before: Phase, after: Phase, busy: bool) -> bool {
    if before is Stop {
        true
    } else if holds_window(before) && !holds_window(after) {
        false
    } else {
        busy
    }
}

/// The phases in which pnpm is not yet known.
pub open spec fn before_tool(phase: Phase) -> bool {
    phase is Lock || phase is Fetch || phase is Head || phase is Upstream || phase is Verify
        || phase is Pnpm || phase is Untouched
}

/// What holds of an update at all times.
pub open spec fn sound(run: RunView) -> bool {
    &&& !before_tool(run.phase) ==> run.tool is Some
    &&& run.phase is Verify ==> run.target is Some
    &&& run.phase is Head || run.phase is Upstream ==> run.target is None
    &&& run.phase is FileThere || run.phase is FileDiff || run.phase is FileRestore ==> 0
        <= run.file < FILE_COUNT
    &&& run.phase is Step || run.phase is Wait || run.phase is Stash ==> 0 <= run.step < STEP_COUNT
    &&& run.phase is Wait || run.phase is Stash ==> run.step == 0
    &&& run.phase is Stash ==> !run.stashed
    &&& run.phase is Rebuild ==> 1 <= run.step < STEP_COUNT
    &&& run.phase is FailedHead || run.phase is Mark || run.phase is Reset || run.phase is Rebuild
        || run.phase is Restore || run.phase is Failed ==> 0 <= run.failed < STEP_COUNT
    &&& run.phase is Reset || run.phase is Rebuild ==> run.moved is Some && !run.rebuilt
    &&& !(run.phase is Restore || run.phase is Failed) ==> !run.rebuilt
    &&& 0 <= run.retries <= MAX_RETRIES
    &&& run.force && (run.phase is Step || run.phase is Wait || run.phase is Stash) ==> run.step >= 1
}

/// A run stays sound whatever comes back.
pub proof fn runs_stay_sound(run: RunView, reply: ReplyView, trouble: Trouble)
    requires
        sound(run),
    ensures
        sound(next(run, reply, trouble).0),
{
}

/// What command `step` is called.
pub fn step_label(step: usize) -> (out: &'static str)
    requires
        step < STEP_COUNT,
    ensures
        out@ == step_labels()[step as int],
{
    match step {
        0 => "拉取官方最新代码（git pull）",
        1 => "安装依赖（pnpm install）",
        2 => "清理旧构建产物（pnpm run clean）",
        _ => "重新构建（pnpm run build）",
    }
}

fn managed_file(file: usize) -> (out: &'static str)
    requires
        file < FILE_COUNT,
    ensures
        out@ == managed_files()[file as int],
{
    match file {
        0 => "package.json",
        _ => "pnpm-lock.yaml",
    }
}

fn tag_in(target: &Option<String>) -> (out: Option<&str>)
    ensures
        crate::repo::text_of(out) == tag_of(text::content(*target)),
{
    match target {
        Some(t) => if text::same(t.as_str(), "master") {
            None
        } else {
            Some(t.as_str())
        },
        None => None,
    }
}

fn label_of(target: &Option<String>, step: usize) -> (out: String)
    requires
        step < STEP_COUNT,
    ensures
        out@ == label_at(text::content(*target), step as int),
{
    match tag_in(target) {
        Some(tag) => if step == 0 {
            let mut out: String = "切换到所选版本 ".to_string();
            out.append(tag);
            out
        } else {
            step_label(step).to_string()
        },
        None => step_label(step).to_string(),
    }
}

/// Command `step` of an update that follows the upstream branch.
pub fn following_command(tool: &Tool, step: usize) -> (out: StepCommand)
    requires
        step < STEP_COUNT,
    ensures
        out@ == steps::following(tool@)[step as int],
{
    let mut list: Vec<StepCommand> = steps::update_commands(tool);
    assert(list@.len() == steps::command_views(list@).len());
    assert(steps::command_views(list@)[step as int] == list@[step as int]@);
    list.remove(step)
}

fn command_of(target: &Option<String>, tool: &Tool, step: usize) -> (out: StepCommand)
    requires
        step < STEP_COUNT,
    ensures
        out@ == command_at(text::content(*target), tool@, step as int),
{
    match tag_in(target) {
        Some(tag) => if step == 0 {
            steps::switch(tag)
        } else {
            following_command(tool, step)
        },
        None => following_command(tool, step),
    }
}

fn keeps_window(phase: Phase) -> (out: bool)
    ensures
        out == holds_window(phase),
{
    match phase {
        Phase::Stop
        | Phase::Step
        | Phase::Wait
        | Phase::Stash
        | Phase::NewHead
        | Phase::Unmark
        | Phase::FailedHead
        | Phase::Mark
        | Phase::Reset
        | Phase::Rebuild
        | Phase::Restore => true,
        _ => false,
    }
}

fn is_text(option: &Option<String>, other: &str) -> (out: bool)
    ensures
        out == (text::content(*option) == Some(other@)),
{
    match option {
        Some(t) => text::same(t.as_str(), other),
        None => false,
    }
}

impl UpdateRun {
    /// An update begins: the request is checked, and the first piece of work is asked for.
    pub fn start(repo_known: bool, force: Option<bool>, target: Option<&str>) -> (out: Result<
        (UpdateRun, Action),
        String,
    >)
        ensures
            ({
                let asked = crate::repo::text_of(target);
                let name = update::chosen(asked);
                match out {
                    Ok((run, action)) => {
                        &&& repo_known
                        &&& name is Some ==> update::is_version_name(name->0)
                        &&& run@ == begun(force == Some(true), name)
                        &&& sound(run@)
                        &&& action@ == ActionView::ClearLock
                    },
                    Err(message) => if !repo_known {
                        message@ == no_repository()
                    } else {
                        &&& name is Some
                        &&& !update::is_version_name(name->0)
                        &&& message@ == "非法的版本目标: "@ + asked->0
                    },
                }
            }),
    {
        if !repo_known {
            return Err("仓库位置不可用".to_string());
        }
        match update::chosen_target(target) {
            Err(message) => Err(message),
            Ok(name) => {
                let force: bool = match force {
                    Some(f) => f,
                    None => false,
                };
                let run = UpdateRun {
                    phase: Phase::Lock,
                    force,
                    target: name,
                    local: String::new(),
                    tool: None,
                    base: None,
                    file: 0,
                    step: 0,
                    retries: 0,
                    stashed: false,
                    failed: 0,
                    output: String::new(),
                    moved: None,
                    rebuilt: false,
                };
                assert(run@.local =~= seq![]);
                assert(run@.output =~= seq![]);
                Ok((run, Action::ClearLock))
            },
        }
    }

    fn ask_git(&mut self, phase: Phase, args: Vec<String>) -> (out: Action)
        ensures
            (final(self)@, out@) == git(old(self)@, phase, text::texts(args@)),
    {
        self.phase = phase;
        Action::Git(args)
    }

    fn refuse(&mut self, message: String) -> (out: Action)
        ensures
            (final(self)@, out@) == refused(old(self)@, message@),
    {
        self.phase = Phase::Untouched;
        Action::Refuse(message)
    }

    fn to_file(&mut self, file: usize) -> (out: Action)
        ensures
            (final(self)@, out@) == at_file(old(self)@, file as int),
    {
        self.file = file;
        if file < FILE_COUNT {
            self.phase = Phase::FileThere;
            Action::LookForFile(managed_file(file).to_string())
        } else {
            self.phase = Phase::Stop;
            Action::StopServer
        }
    }

    fn to_step(&mut self, step: usize) -> (out: Action)
        requires
            old(self)@.tool is Some,
        ensures
            (final(self)@, out@) == at_step(old(self)@, step as int),
    {
        self.step = step;
        if step < STEP_COUNT {
            self.phase = Phase::Step;
            let label: String = label_of(&self.target, step);
            match &self.tool {
                Some(tool) => {
                    let command: StepCommand = command_of(&self.target, tool, step);
                    Action::RunStep { index: step, label, command }
                },
                None => Action::Nothing,
            }
        } else {
            self.ask_git(Phase::NewHead, text::two("rev-parse", "HEAD"))
        }
    }

    fn to_failure(&mut self, output: String) -> (out: Action)
        ensures
            (final(self)@, out@) == after_failure(old(self)@, output@),
    {
        self.failed = self.step;
        self.output = output;
        self.ask_git(Phase::FailedHead, text::two("rev-parse", "HEAD"))
    }

    fn to_restore(&mut self) -> (out: Action)
        ensures
            (final(self)@, out@) == at_restore(old(self)@),
    {
        self.phase = Phase::Restore;
        Action::RestoreServer
    }

    fn to_rebuild(&mut self, step: usize) -> (out: Action)
        requires
            old(self)@.tool is Some,
        ensures
            (final(self)@, out@) == at_rebuild(old(self)@, step as int),
    {
        self.step = step;
        if step < STEP_COUNT {
            self.phase = Phase::Rebuild;
            let mut label: String = "回滚重建 · ".to_string();
            label.append(step_label(step));
            match &self.tool {
                Some(tool) => {
                    let command: StepCommand = following_command(tool, step);
                    Action::RunStep { index: step, label, command }
                },
                None => Action::Nothing,
            }
        } else {
            self.rebuilt = true;
            self.to_restore()
        }
    }

    fn to_rollback(&mut self) -> (out: Action)
        ensures
            (final(self)@, out@) == at_rollback(old(self)@),
    {
        match text::copy_option(&self.moved) {
            Some(base) => self.ask_git(Phase::Reset, text::three("reset", "--hard", base.as_str())),
            None => self.to_restore(),
        }
    }

    fn to_updated(&mut self) -> (out: Action)
        ensures
            (final(self)@, out@) == updated(old(self)@),
    {
        self.phase = Phase::Updated;
        Action::Finish(
            UpdateResult {
                ok: true,
                failed_step: None,
                output_tail: None,
                already_latest: false,
                prev_head: None,
                stashed_changes: self.stashed,
                auto_rolled_back: false,
                rollback_rebuild_failed: false,
            },
        )
    }

    fn to_fetch(&mut self) -> (out: Action)
        ensures
            (final(self)@, out@) == git(
                old(self)@,
                Phase::Fetch,
                fetch_args(old(self)@.target),
            ),
    {
        let args: Vec<String> = match &self.target {
            Some(_) => text::four("fetch", "origin", "--tags", "--force"),
            None => text::two("fetch", "origin"),
        };
        self.ask_git(Phase::Fetch, args)
    }

    fn on_fetch(&mut self, reply: Reply) -> (out: Action)
        ensures
            (final(self)@, out@) == after_fetch(old(self)@, reply@),
    {
        if !reply.ok {
            return self.refuse(reply.text);
        }
        if self.target.is_some() {
            let reference: String = match tag_in(&self.target) {
                Some(tag) => {
                    let mut reference: String = "refs/tags/".to_string();
                    reference.append(tag);
                    reference
                },
                None => "origin/master".to_string(),
            };
            self.ask_git(Phase::Verify, text::three("rev-parse", "--verify", reference.as_str()))
        } else {
            self.ask_git(Phase::Head, text::two("rev-parse", "HEAD"))
        }
    }

    fn on_head(&mut self, reply: Reply) -> (out: Action)
        ensures
            (final(self)@, out@) == after_head(old(self)@, reply@),
    {
        if !reply.ok {
            return self.refuse(reply.text);
        }
        self.local = reply.text;
        self.ask_git(Phase::Upstream, text::two("rev-parse", "@{u}"))
    }

    fn on_upstream(&mut self, reply: Reply) -> (out: Action)
        ensures
            (final(self)@, out@) == after_upstream(old(self)@, reply@),
    {
        if !reply.ok {
            return self.refuse(reply.text);
        }
        let (_, _, latest) = update::fetch_and_compare(self.local.as_str(), reply.text.as_str());
        if latest && !self.force {
            self.phase = Phase::Untouched;
            Action::Finish(
                UpdateResult {
                    ok: true,
                    failed_step: None,
                    output_tail: None,
                    already_latest: true,
                    prev_head: None,
                    stashed_changes: false,
                    auto_rolled_back: false,
                    rollback_rebuild_failed: false,
                },
            )
        } else {
            self.phase = Phase::Pnpm;
            Action::FindPnpm
        }
    }

    fn on_verify(&mut self, reply: Reply) -> (out: Action)
        requires
            old(self)@.target is Some,
        ensures
            (final(self)@, out@) == after_verify(old(self)@, reply@),
    {
        if !reply.ok {
            let mut message: String = "远端不存在所选版本: ".to_string();
            match &self.target {
                Some(want) => {
                    message.append(want.as_str());
                },
                None => {},
            }
            self.refuse(message)
        } else {
            self.phase = Phase::Pnpm;
            Action::FindPnpm
        }
    }

    fn on_pnpm(&mut self, reply: Reply) -> (out: Action)
        ensures
            (final(self)@, out@) == after_pnpm(old(self)@, reply@),
    {
        match reply.tool {
            Some(tool) => {
                self.tool = Some(tool);
                self.ask_git(Phase::Base, text::two("rev-parse", "HEAD"))
            },
            None => self.refuse(
                "找不到 pnpm 或 corepack：请安装 Node.js（自带 corepack），或在终端运行 npm install -g pnpm".to_string(),
            ),
        }
    }

    fn on_base(&mut self, reply: Reply) -> (out: Action)
        ensures
            (final(self)@, out@) == after_base(old(self)@, reply@),
    {
        self.base = if reply.ok {
            Some(reply.text)
        } else {
            None
        };
        self.phase = Phase::LockAgain;
        Action::ClearLock
    }

    fn on_file(&mut self, reply: Reply) -> (out: Action)
        requires
            old(self)@.file < FILE_COUNT,
        ensures
            (final(self)@, out@) == after_file(old(self)@, reply@),
    {
        if reply.ok {
            let args: Vec<String> = text::four("diff", "--quiet", "--", managed_file(self.file));
            self.ask_git(Phase::FileDiff, args)
        } else {
            self.to_file(self.file + 1)
        }
    }

    fn on_diff(&mut self, reply: Reply) -> (out: Action)
        requires
            old(self)@.file < FILE_COUNT,
        ensures
            (final(self)@, out@) == after_diff(old(self)@, reply@),
    {
        if update::restore_managed_files(true, reply.ok) {
            let args: Vec<String> = text::three("checkout", "--", managed_file(self.file));
            self.ask_git(Phase::FileRestore, args)
        } else {
            self.to_file(self.file + 1)
        }
    }

    fn on_step(&mut self, reply: Reply, trouble: Trouble) -> (out: Action)
        requires
            old(self)@.tool is Some,
            old(self)@.step < STEP_COUNT,
            old(self)@.retries <= MAX_RETRIES,
        ensures
            (final(self)@, out@) == after_step(old(self)@, reply@, trouble),
    {
        let tolerated: bool = match &self.tool {
            Some(tool) => command_of(&self.target, tool, self.step).tolerated,
            None => false,
        };
        if reply.ok || tolerated {
            self.to_step(self.step + 1)
        } else if self.step == 0 && self.retries < MAX_RETRIES && trouble.network {
            self.retries = self.retries + 1;
            self.phase = Phase::Wait;
            Action::Sleep(self.retries * RETRY_SECS)
        } else if self.step == 0 && !self.stashed && trouble.conflict {
            self.output = reply.text;
            let args: Vec<String> = text::pushed(
                text::four("stash", "push", "--include-untracked", "-m"),
                "dsh-shell auto-stash",
            );
            assert(text::texts(args@) =~= seq![
                "stash"@,
                "push"@,
                "--include-untracked"@,
                "-m"@,
                "dsh-shell auto-stash"@,
            ]);
            self.ask_git(Phase::Stash, args)
        } else {
            self.to_failure(reply.text)
        }
    }

    fn on_stash(&mut self, reply: Reply) -> (out: Action)
        requires
            old(self)@.tool is Some,
        ensures
            (final(self)@, out@) == after_stash(old(self)@, reply@),
    {
        if reply.ok {
            self.stashed = true;
            self.to_step(self.step)
        } else {
            let output: String = self.output.clone();
            self.to_failure(output)
        }
    }

    fn on_new_head(&mut self, reply: Reply) -> (out: Action)
        ensures
            (final(self)@, out@) == after_new_head(old(self)@, reply@),
    {
        if reply.ok && !is_text(&self.base, reply.text.as_str()) {
            self.phase = Phase::Unmark;
            Action::ClearBad(reply.text)
        } else {
            self.to_updated()
        }
    }

    fn on_failed_head(&mut self, reply: Reply) -> (out: Action)
        requires
            old(self)@.failed < STEP_COUNT,
        ensures
            (final(self)@, out@) == after_failed_head(old(self)@, reply@),
    {
        let new: bool = reply.ok && !is_text(&self.base, reply.text.as_str());
        self.moved = if new {
            text::copy_option(&self.base)
        } else {
            None
        };
        if self.failed + 1 == STEP_COUNT && new {
            self.phase = Phase::Mark;
            Action::MarkBad(reply.text)
        } else {
            self.to_rollback()
        }
    }

    fn on_reset(&mut self, reply: Reply) -> (out: Action)
        requires
            old(self)@.tool is Some,
        ensures
            (final(self)@, out@) == after_reset(old(self)@, reply@),
    {
        if reply.ok {
            self.to_rebuild(1)
        } else {
            self.to_restore()
        }
    }

    fn on_rebuild(&mut self, reply: Reply) -> (out: Action)
        requires
            old(self)@.tool is Some,
            old(self)@.step < STEP_COUNT,
        ensures
            (final(self)@, out@) == after_rebuild(old(self)@, reply@),
    {
        let tolerated: bool = match &self.tool {
            Some(tool) => following_command(tool, self.step).tolerated,
            None => false,
        };
        if reply.ok || tolerated {
            self.to_rebuild(self.step + 1)
        } else {
            self.to_restore()
        }
    }

    fn to_failed(&mut self) -> (out: Action)
        requires
            old(self)@.failed < STEP_COUNT,
        ensures
            final(self)@ == (RunView { phase: Phase::Failed, ..old(self)@ }),
            out@ == ActionView::Finish(failure(old(self)@)),
    {
        self.phase = Phase::Failed;
        Action::Finish(
            UpdateResult {
                ok: false,
                failed_step: Some(label_of(&self.target, self.failed)),
                output_tail: Some(text::tail_chars(self.output.as_str(), SHOWN_CHARS)),
                already_latest: false,
                prev_head: text::copy_option(&self.moved),
                stashed_changes: self.stashed,
                auto_rolled_back: self.moved.is_some() && self.rebuilt,
                rollback_rebuild_failed: self.moved.is_some() && !self.rebuilt,
            },
        )
    }

    fn take(&mut self, reply: Reply, trouble: Trouble) -> (out: Action)
        requires
            sound(old(self)@),
        ensures
            (final(self)@, out@) == next(old(self)@, reply@, trouble),
            sound(final(self)@),
    {
        proof {
            runs_stay_sound(self@, reply@, trouble);
        }
        match self.phase {
            Phase::Lock => self.to_fetch(),
            Phase::Fetch => self.on_fetch(reply),
            Phase::Head => self.on_head(reply),
            Phase::Upstream => self.on_upstream(reply),
            Phase::Verify => self.on_verify(reply),
            Phase::Pnpm => self.on_pnpm(reply),
            Phase::Base => self.on_base(reply),
            Phase::LockAgain => self.to_file(0),
            Phase::FileThere => self.on_file(reply),
            Phase::FileDiff => self.on_diff(reply),
            Phase::FileRestore => self.to_file(self.file + 1),
            Phase::Stop => self.to_step(
                if self.force {
                    1
                } else {
                    0
                },
            ),
            Phase::Step => self.on_step(reply, trouble),
            Phase::Wait => self.to_step(self.step),
            Phase::Stash => self.on_stash(reply),
            Phase::NewHead => self.on_new_head(reply),
            Phase::Unmark => self.to_updated(),
            Phase::FailedHead => self.on_failed_head(reply),
            Phase::Mark => self.to_rollback(),
            Phase::Reset => self.on_reset(reply),
            Phase::Rebuild => self.on_rebuild(reply),
            Phase::Restore => self.to_failed(),
            Phase::Untouched | Phase::Updated | Phase::Failed => Action::Nothing,
        }
    }

    /// Takes what came of the work that was asked for, and asks for the next. What the output
    /// of a command says is told by `trouble`; `busy` is told when the window is held open and
    /// when it is let go.
    pub fn advance_with(&mut self, reply: Reply, trouble: Trouble, busy: &mut Busy) -> (out: Action)
        requires
            sound(old(self)@),
        ensures
            (final(self)@, out@) == next(old(self)@, reply@, trouble),
            sound(final(self)@),
            final(busy)@ == busy_after(old(self)@.phase, final(self)@.phase, old(busy)@),
    {
        let before: Phase = self.phase;
        let out: Action = self.take(reply, trouble);
        if let Phase::Stop = before {
            busy.set_updating(true);
        } else if keeps_window(before) && !keeps_window(self.phase) {
            busy.set_updating(false);
        }
        out
    }

    /// Takes what came of the work that was asked for, and asks for the next. `busy` is told
    /// when the window is held open and when it is let go.
    pub fn advance(&mut self, reply: Reply, busy: &mut Busy) -> (out: Action)
        requires
            sound(old(self)@),
        ensures
            (final(self)@, out@) == next(old(self)@, reply@, trouble_in(reply@.text)),
            sound(final(self)@),
            final(busy)@ == busy_after(old(self)@.phase, final(self)@.phase, old(busy)@),
    {
        let trouble = Trouble {
            network: update::looks_like_network_error(reply.text.as_str()),
            conflict: update::looks_like_local_change_conflict(reply.text.as_str()),
        };
        self.advance_with(reply, trouble, busy)
    }
}

/// What the output of a command says.
pub open spec fn trouble_in(output: Seq<char>) -> Trouble {
    Trouble {
        network: update::tells_of_network(unicode::lower_text(output)),
        conflict: update::tells_of_local_changes(unicode::lower_text(output)),
    }
}

/// An update goes on as the last reply says, and what the output of a command means is read from
/// it in lower case.
pub proof fn run_takes_the_next_step(reply: Reply, trouble: Trouble, out: Action)
    ensures
        forall|run: &mut UpdateRun, busy: &mut Busy| #[trigger]
            call_ensures(UpdateRun::advance_with, (run, reply, trouble, busy), out) ==> (
            final(run)@,
            out@,
        ) == next((*run)@, reply@, trouble) && final(busy)@ == busy_after(
                (*run)@.phase,
                final(run)@.phase,
                (*busy)@,
            ),
        forall|run: &mut UpdateRun, busy: &mut Busy| #[trigger]
            call_ensures(UpdateRun::advance, (run, reply, busy), out) ==> (final(run)@, out@) == next(
                (*run)@,
                reply@,
                (Trouble {
                    network: update::tells_of_network(unicode::lower_text(reply@.text)),
                    conflict: update::tells_of_local_changes(unicode::lower_text(reply@.text)),
                }),
            ) && final(busy)@ == busy_after((*run)@.phase, final(run)@.phase, (*busy)@),
{
}

/// The commands have these names, and a selected version is named where it is switched to.
pub proof fn commands_have_their_names(
    step: usize,
    label: &'static str,
    target: Option<Seq<char>>,
)
    requires
        step < 4,
        call_ensures(step_label, (step,), label),
    ensures
        step == 0 ==> label@ == "拉取官方最新代码（git pull）"@,
        step == 1 ==> label@ == "安装依赖（pnpm install）"@,
        step == 2 ==> label@ == "清理旧构建产物（pnpm run clean）"@,
        step == 3 ==> label@ == "重新构建（pnpm run build）"@,
        step > 0 || target is None || target == Some("master"@) ==> label_at(target, step as int)
            == label@,
        step == 0 && target is Some && target != Some("master"@) ==> label_at(target, 0)
            == "切换到所选版本 "@ + target->0,
{
}

} // verus!
