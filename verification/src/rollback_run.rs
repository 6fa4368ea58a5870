//! The course of a way back to an earlier version that the user asked for.

use vstd::prelude::*;
use vstd::string::*;

use crate::steps;
use crate::steps::CommandView;
use crate::steps::StepCommand;
use crate::steps::Tool;
use crate::steps::ToolView;
use crate::text;
use crate::unicode;
use crate::update;
use crate::update_run;
use crate::update_run::Reply;
use crate::update_run::ReplyView;

verus! {

/// Work that is asked for.
#[derive(Debug)]
pub enum RollbackAction {
    /// Stop the server.
    StopServer,
    /// Remove the lock of git's index, if it was left behind.
    ClearLock,
    /// Run git with these arguments and hand back what it gives.
    Git(Vec<String>),
    /// Find out how pnpm is called.
    FindPnpm,
    /// Run a command in the repository, show its progress, and hand back its output.
    RunStep { index: usize, label: String, command: StepCommand },
    /// Start the server again.
    RestoreServer,
    /// The repository is at the earlier version.
    Finish,
    /// The repository could not be taken back, for this reason.
    Fail(String),
    /// The end was reached before.
    Nothing,
}

/// `RollbackAction` as plain values.
pub enum RollbackActionView {
    StopServer,
    ClearLock,
    Git(Seq<Seq<char>>),
    FindPnpm,
    RunStep { index: int, label: Seq<char>, command: CommandView },
    RestoreServer,
    Finish,
    Fail(Seq<char>),
    Nothing,
}

impl View for RollbackAction {
    type V = RollbackActionView;

    open spec fn view(&self) -> RollbackActionView {
        match *self {
            RollbackAction::StopServer => RollbackActionView::StopServer,
            RollbackAction::ClearLock => RollbackActionView::ClearLock,
            RollbackAction::Git(args) => RollbackActionView::Git(text::texts(args@)),
            RollbackAction::FindPnpm => RollbackActionView::FindPnpm,
            RollbackAction::RunStep { index, label, command } => RollbackActionView::RunStep {
                index: index as int,
                label: label@,
                command: command@,
            },
            RollbackAction::RestoreServer => RollbackActionView::RestoreServer,
            RollbackAction::Finish => RollbackActionView::Finish,
            RollbackAction::Fail(message) => RollbackActionView::Fail(message@),
            RollbackAction::Nothing => RollbackActionView::Nothing,
        }
    }
}

/// What the way back waits for.
#[derive(Clone, Copy, Debug, PartialEq, Eq, Structural)]
pub enum RollbackPhase {
    /// The server is being stopped.
    Stop,
    /// The lock is being removed.
    Lock,
    /// The repository is being taken back.
    Reset,
    /// pnpm is being looked for.
    Pnpm,
    /// The repository is being taken back once more, before it is built.
    ResetAgain,
    /// A command is running.
    Rebuild,
    /// The server is being started again.
    Restore,
    /// The end.
    Done,
}

/// A way back under way.
pub struct RollbackRun {
    phase: RollbackPhase,
    commit: String,
    tool: Option<Tool>,
    step: usize,
}

/// `RollbackRun` as plain values.
pub struct RollbackView {
    /// What it waits for.
    pub phase: RollbackPhase,
    /// The commit to go back to.
    pub commit: Seq<char>,
    /// How pnpm is called.
    pub tool: Option<ToolView>,
    /// Which command is run.
    pub step: int,
}

impl View for RollbackRun {
    type V = RollbackView;

    closed spec fn view(&self) -> RollbackView {
        RollbackView {
            phase: self.phase,
            commit: self.commit@,
            tool: match self.tool {
                Some(t) => Some(t@),
                None => None,
            },
            step: self.step as int,
        }
    }
}

/// The repository is taken back.
pub open spec fn reset(run: RollbackView, phase: RollbackPhase) -> (
    RollbackView,
    RollbackActionView,
) {
    (
        RollbackView { phase, ..run },
        RollbackActionView::Git(seq!["reset"@, "--hard"@, run.commit]),
    )
}

/// The server is started again.
pub open spec fn at_restore(run: RollbackView) -> (RollbackView, RollbackActionView) {
    (RollbackView { phase: RollbackPhase::Restore, ..run }, RollbackActionView::RestoreServer)
}

/// Command `step` is run; after the last one the server is started again.
pub open spec fn at_rebuild(run: RollbackView, step: int) -> (RollbackView, RollbackActionView) {
    if step < update_run::STEP_COUNT {
        (
            RollbackView { phase: RollbackPhase::Rebuild, step, ..run },
            RollbackActionView::RunStep {
                index: step,
                label: "回滚重建 · "@ + update_run::step_labels()[step],
                command: steps::following(run.tool->0)[step],
            },
        )
    } else {
        at_restore(RollbackView { step, ..run })
    }
}

/// Where the way leads from what came back, and what is asked for next. Where the repository
/// cannot be taken back the way ends there; where it cannot be built the server is started all
/// the same.
pub open spec fn next(run: RollbackView, reply: ReplyView) -> (RollbackView, RollbackActionView) {
    match run.phase {
        RollbackPhase::Stop => (
            RollbackView { phase: RollbackPhase::Lock, ..run },
            RollbackActionView::ClearLock,
        ),
        RollbackPhase::Lock => reset(run, RollbackPhase::Reset),
        RollbackPhase::Reset => if reply.ok {
            (
                RollbackView { phase: RollbackPhase::Pnpm, ..run },
                RollbackActionView::FindPnpm,
            )
        } else {
            (
                RollbackView { phase: RollbackPhase::Done, ..run },
                RollbackActionView::Fail("git reset 失败: "@ + reply.text),
            )
        },
        RollbackPhase::Pnpm => match reply.tool {
            Some(tool) => reset(
                RollbackView { tool: Some(tool), ..run },
                RollbackPhase::ResetAgain,
            ),
            None => at_restore(run),
        },
        RollbackPhase::ResetAgain => if reply.ok {
            at_rebuild(run, 1)
        } else {
            at_restore(run)
        },
        RollbackPhase::Rebuild => if reply.ok || steps::following(
            run.tool->0,
        )[run.step].tolerated {
            at_rebuild(run, run.step + 1)
        } else {
            at_restore(run)
        },
        RollbackPhase::Restore => (
            RollbackView { phase: RollbackPhase::Done, ..run },
            RollbackActionView::Finish,
        ),
        RollbackPhase::Done => (run, RollbackActionView::Nothing),
    }
}

/// What holds of a way back at all times.
pub open spec fn sound(run: RollbackView) -> bool {
    &&& run.phase is ResetAgain || run.phase is Rebuild ==> run.tool is Some
    &&& run.phase is Rebuild ==> 1 <= run.step < update_run::STEP_COUNT
}

/// The way begins.
pub open spec fn begun(commit: Seq<char>) -> RollbackView {
    RollbackView { phase: RollbackPhase::Stop, commit, tool: None, step: 0 }
}

fn label_of(step: usize) -> (out: String)
    requires
        step < update_run::STEP_COUNT,
    ensures
        out@ == "回滚重建 · "@ + update_run::step_labels()[step as int],
{
    let mut out: String = "回滚重建 · ".to_string();
    out.append(update_run::step_label(step));
    out
}

impl RollbackRun {
    /// The way begins: the request is checked, and the first piece of work is asked for.
    pub fn start(commit: &str, repo_known: bool) -> (out: Result<
        (RollbackRun, RollbackAction),
        String,
    >)
        ensures
            ({
                let name = unicode::lower_text(text::stripped(commit@));
                match out {
                    Ok((run, action)) => {
                        &&& update::is_commit_name(name)
                        &&& repo_known
                        &&& run@ == begun(name)
                        &&& sound(run@)
                        &&& action@ == RollbackActionView::StopServer
                    },
                    Err(message) => if !update::is_commit_name(name) {
                        message@ == "非法的提交哈希: "@ + name
                    } else {
                        !repo_known && message@ == "仓库位置不可用"@
                    },
                }
            }),
    {
        match update::rollback_target(commit) {
            Err(message) => Err(message),
            Ok(name) => if !repo_known {
                Err("仓库位置不可用".to_string())
            } else {
                let run = RollbackRun {
                    phase: RollbackPhase::Stop,
                    commit: name,
                    tool: None,
                    step: 0,
                };
                Ok((run, RollbackAction::StopServer))
            },
        }
    }

    fn to_reset(&mut self, phase: RollbackPhase) -> (out: RollbackAction)
        ensures
            (final(self)@, out@) == reset(old(self)@, phase),
    {
        self.phase = phase;
        RollbackAction::Git(text::three("reset", "--hard", self.commit.as_str()))
    }

    fn to_restore(&mut self) -> (out: RollbackAction)
        ensures
            (final(self)@, out@) == at_restore(old(self)@),
    {
        self.phase = RollbackPhase::Restore;
        RollbackAction::RestoreServer
    }

    fn to_rebuild(&mut self, step: usize) -> (out: RollbackAction)
        requires
            old(self)@.tool is Some,
        ensures
            (final(self)@, out@) == at_rebuild(old(self)@, step as int),
    {
        self.step = step;
        if step < update_run::STEP_COUNT {
            self.phase = RollbackPhase::Rebuild;
            let label: String = label_of(step);
            match &self.tool {
                Some(tool) => RollbackAction::RunStep {
                    index: step,
                    label,
                    command: update_run::following_command(tool, step),
                },
                None => RollbackAction::Nothing,
            }
        } else {
            self.to_restore()
        }
    }

    /// Takes what came of the work that was asked for, and asks for the next.
    pub fn advance(&mut self, reply: Reply) -> (out: RollbackAction)
        requires
            sound(old(self)@),
        ensures
            (final(self)@, out@) == next(old(self)@, reply@),
            sound(final(self)@),
    {
        match self.phase {
            RollbackPhase::Stop => {
                self.phase = RollbackPhase::Lock;
                RollbackAction::ClearLock
            },
            RollbackPhase::Lock => self.to_reset(RollbackPhase::Reset),
            RollbackPhase::Reset => if reply.ok {
                self.phase = RollbackPhase::Pnpm;
                RollbackAction::FindPnpm
            } else {
                self.phase = RollbackPhase::Done;
                let mut message: String = "git reset 失败: ".to_string();
                message.append(reply.text.as_str());
                RollbackAction::Fail(message)
            },
            RollbackPhase::Pnpm => match reply.tool {
                Some(tool) => {
                    self.tool = Some(tool);
                    self.to_reset(RollbackPhase::ResetAgain)
                },
                None => self.to_restore(),
            },
            RollbackPhase::ResetAgain => if reply.ok {
                self.to_rebuild(1)
            } else {
                self.to_restore()
            },
            RollbackPhase::Rebuild => {
                let tolerated: bool = match &self.tool {
                    Some(tool) => update_run::following_command(tool, self.step).tolerated,
                    None => false,
                };
                if reply.ok || tolerated {
                    self.to_rebuild(self.step + 1)
                } else {
                    self.to_restore()
                }
            },
            RollbackPhase::Restore => {
                self.phase = RollbackPhase::Done;
                RollbackAction::Finish
            },
            RollbackPhase::Done => RollbackAction::Nothing,
        }
    }
}

/// A number that goes down with every answer.
pub open spec fn remaining(run: RollbackView) -> int {
    match run.phase {
        RollbackPhase::Stop => 12,
        RollbackPhase::Lock => 11,
        RollbackPhase::Reset => 10,
        RollbackPhase::Pnpm => 9,
        RollbackPhase::ResetAgain => 8,
        RollbackPhase::Rebuild => 6 - run.step,
        RollbackPhase::Restore => 1,
        RollbackPhase::Done => 0,
    }
}

/// Every answer brings the end nearer, so the way ends whatever comes back.
pub proof fn every_answer_brings_the_end_nearer(run: RollbackView, reply: ReplyView)
    requires
        sound(run),
        !(run.phase is Done),
    ensures
        0 <= remaining(next(run, reply).0) < remaining(run),
        sound(next(run, reply).0),
{
}

/// The way ends well only from a server that was started again, and it fails only where git
/// could not take the repository back.
pub proof fn server_is_started_before_the_end(run: RollbackView, reply: ReplyView)
    requires
        sound(run),
    ensures
        next(run, reply).1 is Finish == run.phase is Restore,
        next(run, reply).0.phase is Restore && !(run.phase is Restore) ==> next(run, reply).1
            is RestoreServer,
        next(run, reply).1 is Fail == (run.phase is Reset && !reply.ok),
{
}

/// The way back: the server is stopped, the lock removed, and the repository taken back to the
/// commit; where git cannot do that the way ends with what it said.
pub proof fn repository_is_taken_back_first(run: RollbackView, reply: ReplyView)
    requires
        sound(run),
    ensures
        ({
            let (later, new) = next(run, reply);
            let reset = RollbackActionView::Git(seq!["reset"@, "--hard"@, run.commit]);
            &&& run.phase is Stop ==> new is ClearLock && later.phase is Lock
            &&& run.phase is Lock ==> new == reset && later.phase is Reset
            &&& run.phase is Reset && reply.ok ==> new is FindPnpm && later.phase is Pnpm
            &&& run.phase is Reset && !reply.ok ==> new == RollbackActionView::Fail(
                "git reset 失败: "@ + reply.text,
            ) && later.phase is Done
            &&& run.phase is Pnpm && reply.tool is Some ==> new == reset && later.tool == reply.tool
                && later.phase is ResetAgain
            &&& run.phase is Pnpm && reply.tool is None ==> new is RestoreServer
            &&& run.phase is ResetAgain && !reply.ok ==> new is RestoreServer
            &&& run.phase is Restore ==> new is Finish
            &&& run.phase is Done ==> new is Nothing
            &&& later.commit == run.commit
        }),
{
}

/// The earlier version is built: dependencies, old output, build. Where one of these fails,
/// but for the removal of old output, the rest is left; the server is started in any case.
pub proof fn earlier_version_is_built(run: RollbackView, reply: ReplyView)
    requires
        sound(run),
        run.phase is ResetAgain && reply.ok || run.phase is Rebuild,
    ensures
        ({
            let (later, new) = next(run, reply);
            let tool = run.tool->0;
            let on = run.phase is Rebuild && (reply.ok || run.step == 2);
            &&& run.phase is ResetAgain ==> new == (RollbackActionView::RunStep {
                index: 1,
                label: "回滚重建 · "@ + "安装依赖（pnpm install）"@,
                command: CommandView {
                    program: tool.program,
                    args: tool.prefix + seq!["install"@, "--config.confirmModulesPurge=false"@],
                    envs: seq![],
                    tolerated: false,
                },
            }) && later.step == 1
            &&& on && run.step == 1 ==> new == (RollbackActionView::RunStep {
                index: 2,
                label: "回滚重建 · "@ + "清理旧构建产物（pnpm run clean）"@,
                command: CommandView {
                    program: tool.program,
                    args: tool.prefix + seq!["run"@, "clean"@],
                    envs: seq![],
                    tolerated: true,
                },
            }) && later.step == 2
            &&& on && run.step == 2 ==> new == (RollbackActionView::RunStep {
                index: 3,
                label: "回滚重建 · "@ + "重新构建（pnpm run build）"@,
                command: CommandView {
                    program: tool.program,
                    args: tool.prefix + seq!["run"@, "build"@],
                    envs: seq![("DSH_BUILD_CLIENT_PROFILE"@, "official"@)],
                    tolerated: false,
                },
            }) && later.step == 3
            &&& on && run.step == 3 ==> new is RestoreServer
            &&& run.phase is Rebuild && !on ==> new is RestoreServer
            &&& later.tool == run.tool
        }),
{
}

/// A request to go back is taken up where it names a commit and the repository is known.
pub proof fn request_begins_a_way_back(
    commit: &str,
    repo_known: bool,
    out: Result<(RollbackRun, RollbackAction), String>,
    target: Result<String, String>,
)
    requires
        call_ensures(RollbackRun::start, (commit, repo_known), out),
        call_ensures(update::rollback_target, (commit,), target),
    ensures
        target is Ok && repo_known ==> (out matches Ok((run, action)) && run@.commit
            == target->Ok_0@ && run@.phase is Stop && run@.tool is None && run@.step == 0 && action@
            is StopServer),
        target is Ok && !repo_known ==> (out matches Err(message) && message@ == "仓库位置不可用"@),
        target is Err ==> (out matches Err(message) && message@ == target->Err_0@),
{
}

/// A way back goes on as the last reply says.
pub proof fn run_takes_the_next_step(reply: Reply, out: RollbackAction)
    ensures
        forall|run: &mut RollbackRun| #[trigger]
            call_ensures(RollbackRun::advance, (run, reply), out) ==> (final(run)@, out@) == next(
                (*run)@,
                reply@,
            ),
{
}

} // verus!
