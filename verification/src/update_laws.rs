//! What holds of every update, whatever comes back from outside.

use vstd::prelude::*;

use crate::steps::CommandView;
use crate::steps::ToolView;
use crate::steps;
use crate::text;
use crate::update;
use crate::update_run;
use crate::update_run::ActionView;
use crate::update_run::Phase;
use crate::update_run::ReplyView;
use crate::update_run::RunView;
use crate::update_run::Trouble;

verus! {

/// What a run is told at one point.
pub struct Input {
    pub reply: ReplyView,
    pub trouble: Trouble,
}

/// Where a run stands once it was told `inputs`.
pub open spec fn state_after(start: RunView, inputs: Seq<Input>) -> RunView
    decreases inputs.len(),
{
    if inputs.len() == 0 {
        start
    } else {
        update_run::next(
            state_after(start, inputs.drop_last()),
            inputs.last().reply,
            inputs.last().trouble,
        ).0
    }
}

/// What a run has asked for once it was told `inputs`. Input `k` answers request `k`; the last
/// request is open.
pub open spec fn asked(start: RunView, inputs: Seq<Input>) -> Seq<ActionView>
    decreases inputs.len(),
{
    if inputs.len() == 0 {
        seq![ActionView::ClearLock]
    } else {
        asked(start, inputs.drop_last()).push(
            update_run::next(
                state_after(start, inputs.drop_last()),
                inputs.last().reply,
                inputs.last().trouble,
            ).1,
        )
    }
}

/// The server was stopped.
pub open spec fn was_stopped(phase: Phase) -> bool {
    !(update_run::before_tool(phase) || phase is Base || phase is LockAgain || phase is FileThere
        || phase is FileDiff || phase is FileRestore)
}

/// All commands are done.
pub open spec fn is_built(phase: Phase) -> bool {
    phase is NewHead || phase is Unmark || phase is Updated
}

/// A command has failed.
pub open spec fn has_failed(phase: Phase) -> bool {
    phase is FailedHead || phase is Mark || phase is Reset || phase is Rebuild || phase is Restore
        || phase is Failed
}

/// `action` was asked for, and the answer was `ok`.
pub open spec fn answered(
    acts: Seq<ActionView>,
    inputs: Seq<Input>,
    action: ActionView,
    ok: bool,
) -> bool {
    exists|k: int|
        0 <= k < inputs.len() && k < acts.len() && #[trigger] acts[k] == action
            && inputs[k].reply.ok == ok
}

/// The request to run command `step`.
pub open spec fn step_action(run: RunView, step: int) -> ActionView {
    ActionView::RunStep {
        index: step,
        label: update_run::label_at(run.target, step),
        command: update_run::command_at(run.target, run.tool->0, step),
    }
}

/// The request to run command `step` on the earlier version.
pub open spec fn rebuild_action(tool: ToolView, step: int) -> ActionView {
    ActionView::RunStep {
        index: step,
        label: "回滚重建 · "@ + update_run::step_labels()[step],
        command: steps::following(tool)[step],
    }
}

/// The request to take the repository back to `base`.
pub open spec fn reset_action(base: Seq<char>) -> ActionView {
    ActionView::Git(seq!["reset"@, "--hard"@, base])
}

/// Command `step` is done: it succeeded, or it is one that may fail.
pub open spec fn step_done(acts: Seq<ActionView>, inputs: Seq<Input>, run: RunView, step: int) -> bool {
    ||| answered(acts, inputs, step_action(run, step), true)
    ||| update_run::command_at(run.target, run.tool->0, step).tolerated && answered(
        acts,
        inputs,
        step_action(run, step),
        false,
    )
}

/// Command `step` is done on the earlier version.
pub open spec fn rebuild_done(
    acts: Seq<ActionView>,
    inputs: Seq<Input>,
    tool: ToolView,
    step: int,
) -> bool {
    ||| answered(acts, inputs, rebuild_action(tool, step), true)
    ||| steps::following(tool)[step].tolerated && answered(
        acts,
        inputs,
        rebuild_action(tool, step),
        false,
    )
}

/// How many times a run waited.
pub open spec fn sleeps(acts: Seq<ActionView>) -> nat
    decreases acts.len(),
{
    if acts.len() == 0 {
        0
    } else {
        sleeps(acts.drop_last()) + if acts.last() is Sleep {
            1nat
        } else {
            0nat
        }
    }
}

/// The request to set local changes aside.
pub open spec fn stash_action() -> ActionView {
    ActionView::Git(
        seq!["stash"@, "push"@, "--include-untracked"@, "-m"@, "dsh-shell auto-stash"@],
    )
}

/// How many times a run asked for local changes to be set aside.
pub open spec fn stashes(acts: Seq<ActionView>) -> nat
    decreases acts.len(),
{
    if acts.len() == 0 {
        0
    } else {
        stashes(acts.drop_last()) + if acts.last() == stash_action() {
            1nat
        } else {
            0nat
        }
    }
}

/// The first command that a run starts with.
pub open spec fn first_step(run: RunView) -> int {
    if run.force {
        1
    } else {
        0
    }
}

/// What the requests and answers so far say of where the run stands.
spec fn history(run: RunView, acts: Seq<ActionView>, inputs: Seq<Input>) -> bool {
    &&& update_run::sound(run)
    &&& acts.len() == inputs.len() + 1
    &&& acts.contains(ActionView::StopServer) == was_stopped(run.phase)
    &&& acts.contains(ActionView::RestoreServer) == (run.phase is Restore || run.phase is Failed)
    &&& sleeps(acts) == run.retries
    &&& stashes(acts) <= 1
    &&& !has_failed(run.phase) ==> (stashes(acts) == 1) == (run.stashed || run.phase is Stash)
    &&& run.phase is Stash ==> acts.last() == stash_action()
    &&& run.stashed ==> answered(acts, inputs, stash_action(), true)
    &&& run.phase is Step ==> acts.last() == step_action(run, run.step)
    &&& run.phase is Rebuild ==> acts.last() == rebuild_action(run.tool->0, run.step)
    &&& run.phase is Reset ==> acts.last() == reset_action(run.moved->0)
    &&& run.phase is Step || run.phase is Wait || run.phase is Stash ==> forall|s: int|
        first_step(run) <= s < run.step ==> #[trigger] step_done(acts, inputs, run, s)
    &&& is_built(run.phase) ==> forall|s: int|
        first_step(run) <= s < update_run::STEP_COUNT ==> #[trigger] step_done(
            acts,
            inputs,
            run,
            s,
        )
    &&& run.phase is Stash ==> answered(acts, inputs, step_action(run, 0), false)
    &&& has_failed(run.phase) ==> answered(acts, inputs, step_action(run, run.failed), false)
    &&& run.phase is Rebuild ==> answered(acts, inputs, reset_action(run.moved->0), true)
    &&& run.phase is Rebuild ==> forall|s: int|
        1 <= s < run.step ==> #[trigger] rebuild_done(acts, inputs, run.tool->0, s)
    &&& (run.phase is Reset || run.phase is Rebuild || run.phase is Restore || run.phase is Failed)
        && run.moved is Some ==> acts.contains(reset_action(run.moved->0))
    &&& run.rebuilt ==> run.moved is Some && answered(
        acts,
        inputs,
        reset_action(run.moved->0),
        true,
    )
    &&& run.rebuilt ==> forall|s: int|
        1 <= s < update_run::STEP_COUNT ==> #[trigger] rebuild_done(
            acts,
            inputs,
            run.tool->0,
            s,
        )
}

proof fn lemma_answered_stays(
    acts: Seq<ActionView>,
    inputs: Seq<Input>,
    new: ActionView,
    input: Input,
    action: ActionView,
    ok: bool,
)
    requires
        acts.len() == inputs.len() + 1,
        answered(acts, inputs, action, ok),
    ensures
        answered(acts.push(new), inputs.push(input), action, ok),
{
    let k = choose|k: int|
        0 <= k < inputs.len() && k < acts.len() && #[trigger] acts[k] == action
            && inputs[k].reply.ok == ok;
    assert(acts.push(new)[k] == action);
    assert(inputs.push(input)[k] == inputs[k]);
}

proof fn lemma_answered_now(
    acts: Seq<ActionView>,
    inputs: Seq<Input>,
    new: ActionView,
    input: Input,
)
    requires
        acts.len() == inputs.len() + 1,
    ensures
        answered(acts.push(new), inputs.push(input), acts.last(), input.reply.ok),
{
    let k = inputs.len() as int;
    assert(acts.push(new)[k] == acts.last());
    assert(inputs.push(input)[k] == input);
}

proof fn lemma_steps_stay(
    run: RunView,
    later: RunView,
    acts: Seq<ActionView>,
    inputs: Seq<Input>,
    new: ActionView,
    input: Input,
    s: int,
)
    requires
        acts.len() == inputs.len() + 1,
        later.target == run.target,
        later.tool == run.tool,
    ensures
        step_done(acts, inputs, run, s) ==> step_done(acts.push(new), inputs.push(input), later, s),
        rebuild_done(acts, inputs, run.tool->0, s) ==> rebuild_done(
            acts.push(new),
            inputs.push(input),
            later.tool->0,
            s,
        ),
{
    let step = step_action(run, s);
    let rebuild = rebuild_action(run.tool->0, s);
    if answered(acts, inputs, step, true) {
        lemma_answered_stays(acts, inputs, new, input, step, true);
    }
    if answered(acts, inputs, step, false) {
        lemma_answered_stays(acts, inputs, new, input, step, false);
    }
    if answered(acts, inputs, rebuild, true) {
        lemma_answered_stays(acts, inputs, new, input, rebuild, true);
    }
    if answered(acts, inputs, rebuild, false) {
        lemma_answered_stays(acts, inputs, new, input, rebuild, false);
    }
}

#[verifier::rlimit(50)]
proof fn lemma_history(run: RunView, acts: Seq<ActionView>, inputs: Seq<Input>, input: Input)
    requires
        history(run, acts, inputs),
    ensures
        ({
            let (later, new) = update_run::next(run, input.reply, input.trouble);
            history(later, acts.push(new), inputs.push(input))
        }),
{
    let (later, new) = update_run::next(run, input.reply, input.trouble);
    let acts2 = acts.push(new);
    let inputs2 = inputs.push(input);
    update_run::runs_stay_sound(run, input.reply, input.trouble);
    vstd::seq_lib::lemma_seq_contains_after_push(acts, new, ActionView::StopServer);
    vstd::seq_lib::lemma_seq_contains_after_push(acts, new, ActionView::RestoreServer);
    vstd::seq_lib::lemma_seq_contains_after_push(acts, new, reset_action(later.moved->0));
    lemma_answered_now(acts, inputs, new, input);
    assert(acts2.drop_last() =~= acts);
    assert(sleeps(acts2) == sleeps(acts) + if new is Sleep {
        1nat
    } else {
        0nat
    });
    assert(stashes(acts2) == stashes(acts) + if new == stash_action() {
        1nat
    } else {
        0nat
    });
    assert(stash_action()->Git_0.len() == 5);
    assert(new matches ActionView::Git(args) ==> args.len() < 5 || later.phase is Stash);
    if answered(acts, inputs, stash_action(), true) {
        lemma_answered_stays(acts, inputs, new, input, stash_action(), true);
    }
    if was_stopped(run.phase) {
        assert forall|s: int| step_done(acts, inputs, run, s) implies #[trigger] step_done(
            acts2,
            inputs2,
            later,
            s,
        ) by {
            lemma_steps_stay(run, later, acts, inputs, new, input, s);
        }
        assert forall|s: int| rebuild_done(acts, inputs, run.tool->0, s) implies
            #[trigger] rebuild_done(acts2, inputs2, later.tool->0, s) by {
            lemma_steps_stay(run, later, acts, inputs, new, input, s);
        }
        if answered(acts, inputs, step_action(run, 0), false) {
            lemma_answered_stays(acts, inputs, new, input, step_action(run, 0), false);
        }
        if answered(acts, inputs, step_action(run, run.failed), false) {
            lemma_answered_stays(acts, inputs, new, input, step_action(run, run.failed), false);
        }
        if answered(acts, inputs, reset_action(run.moved->0), true) {
            lemma_answered_stays(acts, inputs, new, input, reset_action(run.moved->0), true);
        }
    }
}

proof fn lemma_course(start: RunView, inputs: Seq<Input>)
    requires
        start == update_run::begun(start.force, start.target),
    ensures
        history(state_after(start, inputs), asked(start, inputs), inputs),
        state_after(start, inputs).force == start.force,
        state_after(start, inputs).target == start.target,
    decreases inputs.len(),
{
    if inputs.len() == 0 {
        let acts = asked(start, inputs);
        assert(acts[0] == ActionView::ClearLock);
        assert(sleeps(acts.drop_last()) == 0);
        assert(stashes(acts.drop_last()) == 0);
        assert(!acts.contains(ActionView::StopServer));
        assert(!acts.contains(ActionView::RestoreServer));
    } else {
        let before = inputs.drop_last();
        lemma_course(start, before);
        lemma_history(
            state_after(start, before),
            asked(start, before),
            before,
            inputs.last(),
        );
        assert(before.push(inputs.last()) =~= inputs);
    }
}

/// The server is stopped only once everything is known that the work needs; it stays stopped
/// where all commands are done, for the user to start it anew; and where a command failed it
/// is started again. An update that is refused or not needed leaves it running.
pub proof fn server_is_never_left_behind(force: bool, target: Option<Seq<char>>, inputs: Seq<Input>)
    ensures
        ({
            let start = update_run::begun(force, target);
            let run = state_after(start, inputs);
            let acts = asked(start, inputs);
            &&& acts.contains(ActionView::StopServer) ==> run.tool is Some
            &&& run.phase is Untouched ==> !acts.contains(ActionView::StopServer)
            &&& run.phase is Updated ==> acts.contains(ActionView::StopServer) && !acts.contains(
                ActionView::RestoreServer,
            )
            &&& run.phase is Failed ==> acts.contains(ActionView::StopServer) && acts.contains(
                ActionView::RestoreServer,
            )
        }),
{
    lemma_course(update_run::begun(force, target), inputs);
}

/// Whether something is noted to be at work once the run was told `inputs`, where `busy` was
/// noted before it began.
pub open spec fn busy_at(start: RunView, inputs: Seq<Input>, busy: bool) -> bool
    decreases inputs.len(),
{
    if inputs.len() == 0 {
        busy
    } else {
        update_run::busy_after(
            state_after(start, inputs.drop_last()).phase,
            state_after(start, inputs).phase,
            busy_at(start, inputs.drop_last(), busy),
        )
    }
}

/// The window is held open from the request that stops the server until the update ends, so
/// whenever a command is run, the repository taken back or the server started again; and at no
/// end is it held.
pub proof fn window_is_held_until_the_end(force: bool, target: Option<Seq<char>>, inputs: Seq<Input>)
    ensures
        ({
            let start = update_run::begun(force, target);
            let run = state_after(start, inputs);
            let acts = asked(start, inputs);
            &&& update_run::holds_window(run.phase) == (acts.contains(ActionView::StopServer)
                && !update_run::ended(run.phase))
            &&& update_run::ended(run.phase) ==> !update_run::holds_window(run.phase)
            &&& acts.last() is StopServer || acts.last() is RunStep || acts.last() is Sleep
                || acts.last() is MarkBad || acts.last() is ClearBad || acts.last() is RestoreServer
                || (run.moved is Some && acts.last() == reset_action(run.moved->0))
                ==> update_run::holds_window(run.phase)
            &&& acts.last() is Finish || acts.last() is Refuse ==> update_run::ended(run.phase)
        }),
{
    let start = update_run::begun(force, target);
    lemma_course(start, inputs);
    if inputs.len() > 0 {
        lemma_course(start, inputs.drop_last());
        lemma_no_way_back_yet(start, inputs.drop_last());
    }
}

proof fn lemma_no_way_back_yet(start: RunView, inputs: Seq<Input>)
    requires
        start == update_run::begun(start.force, start.target),
    ensures
        ({
            let run = state_after(start, inputs);
            !has_failed(run.phase) ==> run.moved is None
        }),
    decreases inputs.len(),
{
    if inputs.len() > 0 {
        lemma_no_way_back_yet(start, inputs.drop_last());
    }
}

/// Something is noted to be at work from when the server has been stopped, and no longer once
/// the update has ended. An update that is refused or not needed notes nothing.
pub proof fn nothing_is_at_work_after_the_end(
    force: bool,
    target: Option<Seq<char>>,
    inputs: Seq<Input>,
    busy: bool,
)
    ensures
        ({
            let start = update_run::begun(force, target);
            let run = state_after(start, inputs);
            let acts = asked(start, inputs);
            let noted = busy_at(start, inputs, busy);
            &&& !acts.contains(ActionView::StopServer) || run.phase is Stop ==> noted == busy
            &&& update_run::holds_window(run.phase) && !(run.phase is Stop) ==> noted
            &&& update_run::ended(run.phase) && acts.contains(ActionView::StopServer) ==> !noted
            &&& acts.last() matches ActionView::Finish(result) ==> noted == (
            result.already_latest && busy)
            &&& acts.last() is Refuse ==> noted == busy
        }),
    decreases inputs.len(),
{
    let start = update_run::begun(force, target);
    lemma_course(start, inputs);
    if inputs.len() > 0 {
        nothing_is_at_work_after_the_end(force, target, inputs.drop_last(), busy);
        lemma_course(start, inputs.drop_last());
    }
}

/// The fields of a result agree with each other: a failure, and nothing else, names a command
/// and shows the end of its output; what had to be taken back was either built again or not.
pub proof fn results_agree(force: bool, target: Option<Seq<char>>, inputs: Seq<Input>)
    ensures
        asked(update_run::begun(force, target), inputs).last() matches ActionView::Finish(result)
            ==> {
            &&& result.ok == (result.failed_step is None)
            &&& result.ok == (result.output_tail is None)
            &&& result.ok ==> result.prev_head is None
            &&& result.already_latest ==> result.ok && !result.stashed_changes
            &&& (result.prev_head is Some) == (result.auto_rolled_back
                || result.rollback_rebuild_failed)
            &&& !(result.auto_rolled_back && result.rollback_rebuild_failed)
            &&& result.output_tail matches Some(tail) ==> tail.len() <= update_run::SHOWN_CHARS
        },
{
    let start = update_run::begun(force, target);
    if inputs.len() > 0 {
        lemma_course(start, inputs.drop_last());
    }
}

/// A forced update never runs the first command: the source stays at its version.
pub proof fn forced_update_keeps_the_source(target: Option<Seq<char>>, inputs: Seq<Input>, k: int)
    requires
        0 <= k <= inputs.len(),
    ensures
        asked(update_run::begun(true, target), inputs)[k] matches ActionView::RunStep { index, .. }
            ==> index >= 1,
    decreases inputs.len(),
{
    let start = update_run::begun(true, target);
    lemma_course(start, inputs);
    if inputs.len() > 0 {
        let before = inputs.drop_last();
        lemma_course(start, before);
        if k < inputs.len() {
            forced_update_keeps_the_source(target, before, k);
        } else {
            let run = state_after(start, before);
            update_run::runs_stay_sound(run, inputs.last().reply, inputs.last().trouble);
        }
    }
}

/// An update that follows the upstream branch moves the source only by a pull that goes
/// forward: it never switches the branch, so commits of one's own are not lost.
pub proof fn following_only_goes_forward(
    force: bool,
    target: Option<Seq<char>>,
    inputs: Seq<Input>,
    k: int,
)
    requires
        update_run::tag_of(target) is None,
        0 <= k <= inputs.len(),
    ensures
        asked(update_run::begun(force, target), inputs)[k] matches ActionView::RunStep {
            index,
            command,
            ..
        } ==> (index == 0 ==> command == steps::pull_command()),
    decreases inputs.len(),
{
    let start = update_run::begun(force, target);
    if inputs.len() > 0 {
        let before = inputs.drop_last();
        lemma_course(start, before);
        if k < inputs.len() {
            following_only_goes_forward(force, target, before, k);
        }
    }
}

/// Where the update ends well, every command was run and did its work, the build among them.
pub proof fn updated_means_built(force: bool, target: Option<Seq<char>>, inputs: Seq<Input>, step: int)
    requires
        state_after(update_run::begun(force, target), inputs).phase is Updated,
        (if force {
            1
        } else {
            0int
        }) <= step < update_run::STEP_COUNT,
    ensures
        ({
            let start = update_run::begun(force, target);
            step_done(asked(start, inputs), inputs, state_after(start, inputs), step)
        }),
        step != 2 ==> ({
            let start = update_run::begun(force, target);
            answered(
                asked(start, inputs),
                inputs,
                step_action(state_after(start, inputs), step),
                true,
            )
        }),
{
    let start = update_run::begun(force, target);
    lemma_course(start, inputs);
    let run = state_after(start, inputs);
    assert(step_done(asked(start, inputs), inputs, run, step));
}

/// Where the update failed, a command that may not fail did, and the result names it. Where
/// the repository had moved on it was taken back to the commit from before; where the result
/// says that the earlier version was restored, the repository was taken back and
/// every command was done on it.
pub proof fn failure_is_told(force: bool, target: Option<Seq<char>>, inputs: Seq<Input>)
    requires
        state_after(update_run::begun(force, target), inputs).phase is Failed,
    ensures
        ({
            let start = update_run::begun(force, target);
            let run = state_after(start, inputs);
            let acts = asked(start, inputs);
            let result = update_run::failure(run);
            &&& answered(acts, inputs, step_action(run, run.failed), false)
            &&& result.failed_step == Some(update_run::label_at(target, run.failed))
            &&& (result.auto_rolled_back || result.rollback_rebuild_failed) == (
            result.prev_head is Some)
            &&& !(result.auto_rolled_back && result.rollback_rebuild_failed)
            &&& result.prev_head is Some ==> acts.contains(reset_action(result.prev_head->0))
            &&& result.auto_rolled_back ==> answered(
                acts,
                inputs,
                reset_action(result.prev_head->0),
                true,
            )
            &&& result.auto_rolled_back ==> forall|s: int|
                1 <= s < update_run::STEP_COUNT ==> #[trigger] rebuild_done(
                    acts,
                    inputs,
                    run.tool->0,
                    s,
                )
        }),
{
    lemma_course(update_run::begun(force, target), inputs);
}

/// A commit is recorded as one that does not build only where the build itself failed, on
/// that commit, and it is not the one from before the update.
pub proof fn only_failed_builds_are_recorded(
    force: bool,
    target: Option<Seq<char>>,
    inputs: Seq<Input>,
    input: Input,
    commit: Seq<char>,
)
    requires
        ({
            let run = state_after(update_run::begun(force, target), inputs);
            update_run::next(run, input.reply, input.trouble).1 == ActionView::MarkBad(commit)
        }),
    ensures
        ({
            let start = update_run::begun(force, target);
            let run = state_after(start, inputs);
            &&& answered(asked(start, inputs), inputs, step_action(run, 3), false)
            &&& asked(start, inputs).last() == ActionView::Git(seq!["rev-parse"@, "HEAD"@])
            &&& input.reply.ok
            &&& commit == input.reply.text
            &&& run.base != Some(commit)
        }),
{
    let start = update_run::begun(force, target);
    lemma_course(start, inputs);
    let before = inputs.drop_last();
    if inputs.len() > 0 {
        lemma_course(start, before);
    }
}

/// The first command waits for another try at most three times, 5, 10 and 15 seconds.
pub proof fn retries_are_limited(force: bool, target: Option<Seq<char>>, inputs: Seq<Input>)
    ensures
        ({
            let acts = asked(update_run::begun(force, target), inputs);
            &&& sleeps(acts) <= update_run::MAX_RETRIES
            &&& acts.last() matches ActionView::Sleep(secs) ==> secs == sleeps(acts)
                * update_run::RETRY_SECS
        }),
{
    let start = update_run::begun(force, target);
    lemma_course(start, inputs);
    if inputs.len() > 0 {
        lemma_course(start, inputs.drop_last());
    }
}

/// Local changes are set aside at most once, and a result that says so is right.
pub proof fn changes_are_set_aside_once(force: bool, target: Option<Seq<char>>, inputs: Seq<Input>)
    ensures
        ({
            let start = update_run::begun(force, target);
            let run = state_after(start, inputs);
            let acts = asked(start, inputs);
            &&& stashes(acts) <= 1
            &&& run.stashed ==> answered(acts, inputs, stash_action(), true)
            &&& update_run::success(run).stashed_changes == run.stashed
            &&& update_run::failure(run).stashed_changes == run.stashed
        }),
{
    lemma_course(update_run::begun(force, target), inputs);
}

proof fn lemma_at(start: RunView, inputs: Seq<Input>, k: int)
    requires
        0 <= k < inputs.len(),
    ensures
        ({
            let run = state_after(start, inputs.take(k));
            let (later, new) = update_run::next(run, inputs[k].reply, inputs[k].trouble);
            &&& state_after(start, inputs.take(k + 1)) == later
            &&& asked(start, inputs)[k + 1] == new
        }),
        asked(start, inputs).len() == inputs.len() + 1,
        asked(start, inputs)[0] == ActionView::ClearLock,
        state_after(start, inputs.take(0)) == start,
    decreases inputs.len(),
{
    assert(inputs.take(k + 1).drop_last() =~= inputs.take(k));
    assert(inputs.take(k + 1).last() == inputs[k]);
    assert(inputs.take(0) =~= seq![]);
    lemma_length(start, inputs);
    let before = inputs.drop_last();
    if k < before.len() {
        lemma_at(start, before, k);
        lemma_length(start, before);
        assert(before.take(k) =~= inputs.take(k));
        assert(before.take(k + 1) =~= inputs.take(k + 1));
    } else {
        lemma_length(start, before);
        assert(inputs.take(k) =~= before);
        if before.len() > 0 {
            lemma_at(start, before, 0);
        }
    }
}

proof fn lemma_length(start: RunView, inputs: Seq<Input>)
    ensures
        asked(start, inputs).len() == inputs.len() + 1,
    decreases inputs.len(),
{
    if inputs.len() > 0 {
        lemma_length(start, inputs.drop_last());
    }
}

/// A forced update is never answered with the news that there is nothing to do.
pub proof fn forced_update_is_never_skipped(target: Option<Seq<char>>, inputs: Seq<Input>, k: int)
    requires
        0 <= k <= inputs.len(),
    ensures
        asked(update_run::begun(true, target), inputs)[k] matches ActionView::Finish(result)
            ==> !result.already_latest,
    decreases inputs.len(),
{
    let start = update_run::begun(true, target);
    if inputs.len() > 0 {
        let before = inputs.drop_last();
        lemma_course(start, before);
        if k < inputs.len() {
            forced_update_is_never_skipped(target, before, k);
        }
    }
}

/// An update that follows the upstream branch is skipped exactly where it is not forced and
/// the repository is at the commit of upstream.
pub proof fn update_is_skipped_where_nothing_is_new(force: bool, inputs: Seq<Input>)
    requires
        inputs.len() >= 4,
        inputs[1].reply.ok,
        inputs[2].reply.ok,
        inputs[3].reply.ok,
    ensures
        ({
            let acts = asked(update_run::begun(force, None), inputs);
            let same = inputs[2].reply.text == inputs[3].reply.text;
            &&& acts[1] == ActionView::Git(seq!["fetch"@, "origin"@])
            &&& acts[2] == ActionView::Git(seq!["rev-parse"@, "HEAD"@])
            &&& acts[3] == ActionView::Git(seq!["rev-parse"@, "@{u}"@])
            &&& (acts[4] is Finish) == (same && !force)
            &&& (acts[4] is FindPnpm) == (!same || force)
        }),
{
    let start = update_run::begun(force, None);
    lemma_at(start, inputs, 0);
    lemma_at(start, inputs, 1);
    lemma_at(start, inputs, 2);
    lemma_at(start, inputs, 3);
}

/// The command that installs the dependencies.
pub open spec fn installs(command: CommandView, tool: ToolView) -> bool {
    &&& command.program == tool.program
    &&& command.args == tool.prefix + seq!["install"@, "--config.confirmModulesPurge=false"@]
    &&& command.envs.len() == 0
}

/// The command that removes the output of earlier builds.
pub open spec fn cleans(command: CommandView, tool: ToolView) -> bool {
    &&& command.program == tool.program
    &&& command.args == tool.prefix + seq!["run"@, "clean"@]
    &&& command.envs.len() == 0
}

/// The command that builds, with the titles of an official release.
pub open spec fn builds(command: CommandView, tool: ToolView) -> bool {
    &&& command.program == tool.program
    &&& command.args == tool.prefix + seq!["run"@, "build"@]
    &&& command.envs == seq![("DSH_BUILD_CLIENT_PROFILE"@, "official"@)]
}

/// The command that moves the source: to a tag where one was chosen, and otherwise forward to
/// what upstream has.
pub open spec fn moves_source(command: CommandView, target: Option<Seq<char>>) -> bool {
    &&& command.program == "git"@
    &&& command.envs.len() == 0
    &&& target is None || target == Some("master"@) ==> command.args == seq!["pull"@, "--ff-only"@]
    &&& (target is Some && target->0 != "master"@) ==> command.args == seq![
        "checkout"@,
        "-B"@,
        "dsh-selected"@,
        "refs/tags/"@ + target->0,
    ]
}

/// The request runs the command `index` of an update with these choices.
pub open spec fn runs(action: ActionView, target: Option<Seq<char>>, tool: ToolView, index: int) -> bool {
    action matches ActionView::RunStep { index: at, label, command } && at == index && {
        &&& index == 0 ==> moves_source(command, target)
        &&& index == 1 ==> installs(command, tool) && label == "安装依赖（pnpm install）"@
        &&& index == 2 ==> cleans(command, tool) && label == "清理旧构建产物（pnpm run clean）"@
        &&& index == 3 ==> builds(command, tool) && label == "重新构建（pnpm run build）"@
        &&& index == 0 && (target is None || target == Some("master"@)) ==> label
            == "拉取官方最新代码（git pull）"@
        &&& index == 0 && (target is Some && target->0 != "master"@) ==> label
            == "切换到所选版本 "@ + target->0
        &&& 0 <= index <= 3
    }
}

/// The request runs the command `index` on the earlier version.
pub open spec fn runs_again(action: ActionView, tool: ToolView, index: int) -> bool {
    action matches ActionView::RunStep { index: at, label, command } && at == index && {
        &&& index == 1 ==> installs(command, tool) && label == "回滚重建 · "@
            + "安装依赖（pnpm install）"@
        &&& index == 2 ==> cleans(command, tool) && label == "回滚重建 · "@
            + "清理旧构建产物（pnpm run clean）"@
        &&& index == 3 ==> builds(command, tool) && label == "回滚重建 · "@
            + "重新构建（pnpm run build）"@
        &&& 1 <= index <= 3
    }
}

/// The request asks git for the commit of the repository.
pub open spec fn asks_head(action: ActionView) -> bool {
    action == ActionView::Git(seq!["rev-parse"@, "HEAD"@])
}

/// Once the server is stopped, a forced update installs, and any other first moves the source.
pub proof fn commands_begin_with_the_source(run: RunView, reply: ReplyView, trouble: Trouble)
    requires
        update_run::sound(run),
        run.phase is Stop,
    ensures
        runs(
            update_run::next(run, reply, trouble).1,
            run.target,
            run.tool->0,
            if run.force {
                1
            } else {
                0int
            },
        ),
{
}

/// A command that succeeds is followed by the next one: the source is moved, the dependencies
/// are installed, old output is removed, and then comes the build. After the build the commit
/// is read.
pub proof fn success_leads_to_the_next_command(run: RunView, reply: ReplyView, trouble: Trouble)
    requires
        update_run::sound(run),
        run.phase is Step,
        reply.ok,
    ensures
        ({
            let (later, new) = update_run::next(run, reply, trouble);
            &&& run.step < 3 ==> later.phase is Step && later.step == run.step + 1 && runs(
                new,
                run.target,
                run.tool->0,
                run.step + 1,
            )
            &&& run.step == 3 ==> later.phase is NewHead && asks_head(new)
            &&& later.retries == run.retries && later.stashed == run.stashed && later.base
                == run.base
        }),
{
}

/// Where old output cannot be removed the build goes on; where the dependencies cannot be
/// installed or the build fails no further command is run, and the output is kept.
pub proof fn only_the_removal_of_old_output_may_fail(run: RunView, reply: ReplyView, trouble: Trouble)
    requires
        update_run::sound(run),
        run.phase is Step,
        !reply.ok,
    ensures
        ({
            let (later, new) = update_run::next(run, reply, trouble);
            &&& run.step == 2 ==> later.phase is Step && runs(new, run.target, run.tool->0, 3)
            &&& run.step == 1 || run.step == 3 ==> later.phase is FailedHead && asks_head(new)
                && later.failed == run.step && later.output == reply.text
            &&& later.base == run.base && later.stashed == run.stashed
        }),
{
}

/// Where the first command fails, it is tried again after 5, 10 and 15 seconds while the
/// network is at fault; where local changes stand in the way they are set aside once; and
/// otherwise the update has failed.
pub proof fn first_command_gets_another_chance(run: RunView, reply: ReplyView, trouble: Trouble)
    requires
        update_run::sound(run),
        run.phase is Step,
        run.step == 0,
        !reply.ok,
    ensures
        ({
            let (later, new) = update_run::next(run, reply, trouble);
            if trouble.network && run.retries < 3 {
                &&& new == ActionView::Sleep((run.retries + 1) * 5)
                &&& later.retries == run.retries + 1
                &&& later.stashed == run.stashed
                &&& later.phase is Wait
            } else if trouble.conflict && !run.stashed {
                &&& new == ActionView::Git(
                    seq![
                        "stash"@,
                        "push"@,
                        "--include-untracked"@,
                        "-m"@,
                        "dsh-shell auto-stash"@,
                    ],
                )
                &&& later.phase is Stash
                &&& later.output == reply.text
                &&& later.retries == run.retries
            } else {
                &&& asks_head(new)
                &&& later.phase is FailedHead
                &&& later.failed == 0
                &&& later.output == reply.text
            }
        }),
{
}

/// After the wait the same command is run again; after local changes were set aside too, and
/// the result will say so; where they could not be, the update has failed with the output of
/// the command.
pub proof fn another_chance_is_the_same_command(run: RunView, reply: ReplyView, trouble: Trouble)
    requires
        update_run::sound(run),
        run.phase is Wait || run.phase is Stash,
    ensures
        ({
            let (later, new) = update_run::next(run, reply, trouble);
            &&& run.phase is Wait || reply.ok ==> later.phase is Step && later.step == 0 && runs(
                new,
                run.target,
                run.tool->0,
                0,
            )
            &&& run.phase is Stash ==> later.stashed == reply.ok
            &&& run.phase is Wait ==> later.stashed == run.stashed
            &&& run.phase is Stash && !reply.ok ==> later.phase is FailedHead && asks_head(new)
                && later.output == run.output && later.failed == 0
            &&& later.retries == run.retries
        }),
{
}

/// Where all commands are done, a commit that is new is struck off the list of those that do
/// not build, and the update ends well.
pub proof fn built_commits_are_struck_off(run: RunView, reply: ReplyView, trouble: Trouble)
    requires
        update_run::sound(run),
        run.phase is NewHead || run.phase is Unmark,
    ensures
        ({
            let new = update_run::next(run, reply, trouble).1;
            let known = run.base matches Some(base) && base == reply.text;
            &&& run.phase is NewHead && reply.ok && !known ==> new == ActionView::ClearBad(
                reply.text,
            ) && update_run::next(run, reply, trouble).0.phase is Unmark
            &&& run.phase is Unmark || !reply.ok || known ==> (new matches ActionView::Finish(
                result,
            ) && result.ok && !result.already_latest && result.stashed_changes == run.stashed)
            &&& update_run::next(run, reply, trouble).0.stashed == run.stashed
        }),
{
}

/// Where the build failed on a commit that is not the one from before, that commit is
/// recorded. Where the repository has moved on it is taken back to the commit from before;
/// where it has not, or this is not known, the server is started again at once.
pub proof fn failed_update_is_taken_back(run: RunView, reply: ReplyView, trouble: Trouble)
    requires
        update_run::sound(run),
        run.phase is FailedHead,
    ensures
        ({
            let (later, new) = update_run::next(run, reply, trouble);
            let moved = reply.ok && run.base is Some && run.base->0 != reply.text;
            let fresh = reply.ok && (run.base is None || run.base->0 != reply.text);
            &&& run.failed == 3 && fresh ==> new == ActionView::MarkBad(reply.text)
                && later.phase is Mark
            &&& !(run.failed == 3 && fresh) && moved ==> new == ActionView::Git(
                seq!["reset"@, "--hard"@, run.base->0],
            ) && later.phase is Reset
            &&& !(run.failed == 3 && fresh) && !moved ==> new is RestoreServer
            &&& (later.moved is Some) == moved
            &&& moved ==> later.moved == run.base
            &&& later.failed == run.failed && later.output == run.output
        }),
{
}

/// Once the failed commit was recorded, the way back goes on as without the record.
pub proof fn way_back_follows_the_record(run: RunView, reply: ReplyView, trouble: Trouble)
    requires
        update_run::sound(run),
        run.phase is Mark,
    ensures
        ({
            let (later, new) = update_run::next(run, reply, trouble);
            &&& run.moved matches Some(base) ==> new == ActionView::Git(
                seq!["reset"@, "--hard"@, base],
            )
            &&& run.moved is None ==> new is RestoreServer
            &&& later.moved == run.moved && later.failed == run.failed && later.output == run.output
        }),
{
}

/// A repository that was taken back is built again, dependencies first; the server is started
/// once that is done, or as soon as it fails, and the earlier version counts as restored
/// exactly where everything was done.
pub proof fn earlier_version_is_built_again(run: RunView, reply: ReplyView, trouble: Trouble)
    requires
        update_run::sound(run),
        run.phase is Reset || run.phase is Rebuild,
    ensures
        ({
            let (later, new) = update_run::next(run, reply, trouble);
            let tool = run.tool->0;
            &&& run.phase is Reset && reply.ok ==> runs_again(new, tool, 1) && later.phase is Rebuild
                && later.step == 1
            &&& run.phase is Reset && !reply.ok ==> new is RestoreServer && !later.rebuilt
            &&& run.phase is Rebuild && run.step < 3 && (reply.ok || run.step == 2) ==> runs_again(
                new,
                tool,
                run.step + 1,
            ) && later.phase is Rebuild && later.step == run.step + 1
            &&& run.phase is Rebuild && run.step == 3 && reply.ok ==> new is RestoreServer
                && later.rebuilt
            &&& run.phase is Rebuild && run.step != 2 && !reply.ok ==> new is RestoreServer
                && !later.rebuilt
            &&& later.moved == run.moved && later.failed == run.failed && later.output == run.output
        }),
{
}

/// Once the server is started again, the failure is told: the command that failed, the end of
/// its output, and what became of the repository.
pub proof fn failure_is_reported_in_full(run: RunView, reply: ReplyView, trouble: Trouble)
    requires
        update_run::sound(run),
        run.phase is Restore,
    ensures
        update_run::next(run, reply, trouble).1 matches ActionView::Finish(result) && {
            &&& !result.ok
            &&& !result.already_latest
            &&& result.prev_head == run.moved
            &&& result.stashed_changes == run.stashed
            &&& result.auto_rolled_back == (run.moved is Some && run.rebuilt)
            &&& result.rollback_rebuild_failed == (run.moved is Some && !run.rebuilt)
            &&& run.output.len() <= 1500 ==> result.output_tail == Some(run.output)
            &&& run.output.len() > 1500 ==> result.output_tail == Some(
                run.output.skip(run.output.len() - 1500),
            )
            &&& run.failed == 1 ==> result.failed_step == Some("安装依赖（pnpm install）"@)
            &&& run.failed == 3 ==> result.failed_step == Some("重新构建（pnpm run build）"@)
            &&& run.failed == 0 && (run.target is None || run.target == Some("master"@))
                ==> result.failed_step == Some("拉取官方最新代码（git pull）"@)
            &&& run.failed == 0 && (run.target is Some && run.target->0 != "master"@)
                ==> result.failed_step == Some("切换到所选版本 "@ + run.target->0)
        },
{
}

/// Nothing is touched before everything is known: where upstream, a commit, the chosen version
/// or pnpm is missing, the update is refused with what was said, or with what is missing.
pub proof fn missing_answers_refuse_the_update(run: RunView, reply: ReplyView, trouble: Trouble)
    requires
        update_run::sound(run),
    ensures
        ({
            let (later, new) = update_run::next(run, reply, trouble);
            &&& (run.phase is Fetch || run.phase is Head || run.phase is Upstream) && !reply.ok
                ==> new == ActionView::Refuse(reply.text)
            &&& run.phase is Verify && !reply.ok ==> new == ActionView::Refuse(
                "远端不存在所选版本: "@ + run.target->0,
            )
            &&& run.phase is Pnpm && reply.tool is None ==> new == ActionView::Refuse(
                "找不到 pnpm 或 corepack：请安装 Node.js（自带 corepack），或在终端运行 npm install -g pnpm"@,
            )
            &&& new is Refuse ==> {
                ||| (run.phase is Fetch || run.phase is Head || run.phase is Upstream
                    || run.phase is Verify) && !reply.ok
                ||| run.phase is Pnpm && reply.tool is None
            }
        }),
{
}

/// The questions before the work: the lock is removed first; tags are asked for where a version
/// was chosen, and then that version has to exist; else the commit is compared with upstream.
/// Then pnpm is looked for, and the commit from before is noted.
pub proof fn questions_come_before_the_work(run: RunView, reply: ReplyView, trouble: Trouble)
    requires
        update_run::sound(run),
    ensures
        ({
            let (later, new) = update_run::next(run, reply, trouble);
            &&& run.phase is Lock && run.target is None ==> new == ActionView::Git(
                seq!["fetch"@, "origin"@],
            )
            &&& run.phase is Lock && run.target is Some ==> new == ActionView::Git(
                seq!["fetch"@, "origin"@, "--tags"@, "--force"@],
            )
            &&& run.phase is Lock ==> later.phase is Fetch
            &&& run.phase is Fetch && reply.ok && run.target is None ==> asks_head(new)
                && later.phase is Head
            &&& run.phase is Fetch && reply.ok && run.target == Some("master"@) ==> new
                == ActionView::Git(seq!["rev-parse"@, "--verify"@, "origin/master"@])
            &&& run.phase is Fetch && reply.ok && (run.target is Some && run.target->0 != "master"@) ==> new == ActionView::Git(
                seq!["rev-parse"@, "--verify"@, "refs/tags/"@ + run.target->0],
            )
            &&& run.phase is Fetch && reply.ok && run.target is Some ==> later.phase is Verify
            &&& run.phase is Head && reply.ok ==> later.local == reply.text && later.phase is Upstream
                && new == ActionView::Git(seq!["rev-parse"@, "@{u}"@])
            &&& run.phase is Upstream && reply.ok && (run.force || run.local != reply.text)
                ==> new is FindPnpm && later.phase is Pnpm
            &&& run.phase is Upstream && reply.ok && !run.force && run.local == reply.text
                ==> (new matches ActionView::Finish(result) && result.ok && result.already_latest)
            &&& run.phase is Verify && reply.ok ==> new is FindPnpm && later.phase is Pnpm
            &&& run.phase is Pnpm && reply.tool is Some ==> asks_head(new) && later.tool
                == reply.tool && later.phase is Base
            &&& run.phase is Base ==> new is ClearLock && later.phase is LockAgain
            &&& run.phase is Base && reply.ok ==> later.base == Some(reply.text)
            &&& run.phase is Base && !reply.ok ==> later.base is None
            &&& later.force == run.force && later.target == run.target
        }),
{
}

/// The two files that follow upstream are seen to before the server is stopped: each is put
/// back exactly where it is there and was changed.
pub proof fn changed_files_are_put_back(run: RunView, reply: ReplyView, trouble: Trouble)
    requires
        update_run::sound(run),
        run.phase is LockAgain || run.phase is FileThere || run.phase is FileDiff
            || run.phase is FileRestore,
    ensures
        ({
            let (later, new) = update_run::next(run, reply, trouble);
            let name = if run.file == 0 {
                "package.json"@
            } else {
                "pnpm-lock.yaml"@
            };
            let done = run.phase is FileThere && !reply.ok || run.phase is FileDiff && reply.ok
                || run.phase is FileRestore;
            &&& run.phase is LockAgain ==> new == ActionView::LookForFile("package.json"@)
                && later.phase is FileThere && later.file == 0
            &&& run.phase is FileThere && reply.ok ==> new == ActionView::Git(
                seq!["diff"@, "--quiet"@, "--"@, name],
            ) && later.phase is FileDiff && later.file == run.file
            &&& run.phase is FileDiff && !reply.ok ==> new == ActionView::Git(
                seq!["checkout"@, "--"@, name],
            ) && later.phase is FileRestore && later.file == run.file
            &&& done && run.file == 0 ==> new == ActionView::LookForFile("pnpm-lock.yaml"@)
                && later.phase is FileThere && later.file == 1
            &&& done && run.file == 1 ==> new is StopServer && later.phase is Stop
        }),
{
}

proof fn lemma_file_is_done(start: RunView, inputs: Seq<Input>, k: int) -> (m: int)
    requires
        0 <= k,
        k + 3 <= inputs.len(),
        ({
            let run = state_after(start, inputs.take(k));
            run.phase is FileThere && 0 <= run.file < 2
        }),
    ensures
        k < m <= k + 3,
        ({
            let run = state_after(start, inputs.take(k));
            let later = state_after(start, inputs.take(m));
            &&& run.file == 0 ==> later.phase is FileThere && later.file == 1
            &&& run.file == 1 ==> later.phase is Stop
            &&& later.tool == run.tool && later.force == run.force && later.target == run.target
        }),
{
    lemma_at(start, inputs, k);
    lemma_at(start, inputs, k + 1);
    lemma_at(start, inputs, k + 2);
    if !inputs[k].reply.ok {
        k + 1
    } else if inputs[k + 1].reply.ok {
        k + 2
    } else {
        k + 3
    }
}

/// Where upstream answers, the commits or the chosen version are there and pnpm is found, the
/// work begins, whatever else comes back: a forced update comes to install the dependencies,
/// and any other that has something new to move the source.
pub proof fn work_begins_where_everything_is_known(
    force: bool,
    target: Option<Seq<char>>,
    tool: ToolView,
    inputs: Seq<Input>,
)
    requires
        inputs.len() >= 14,
        inputs[1].reply.ok,
        inputs[2].reply.ok,
        target is None ==> inputs[3].reply.ok && inputs[4].reply.tool == Some(tool) && (force
            || inputs[2].reply.text != inputs[3].reply.text),
        target is Some ==> inputs[3].reply.tool == Some(tool),
    ensures
        exists|k: int|
            0 <= k <= inputs.len() && runs(
                #[trigger] asked(update_run::begun(force, target), inputs)[k],
                target,
                tool,
                if force {
                    1
                } else {
                    0int
                },
            ),
{
    let start = update_run::begun(force, target);
    lemma_at(start, inputs, 0);
    lemma_at(start, inputs, 1);
    lemma_at(start, inputs, 2);
    lemma_at(start, inputs, 3);
    lemma_at(start, inputs, 4);
    lemma_at(start, inputs, 5);
    lemma_at(start, inputs, 6);
    let first = if target is None {
        7
    } else {
        6int
    };
    let second = lemma_file_is_done(start, inputs, first);
    let stop = lemma_file_is_done(start, inputs, second);
    lemma_at(start, inputs, stop);
    assert(runs(
        asked(start, inputs)[stop + 1],
        target,
        tool,
        if force {
            1
        } else {
            0int
        },
    ));
}

/// A request is taken up where the repository is known and the version, if one is named, may be
/// handed to git; white space around the name does not count, and a blank name is none.
pub proof fn request_begins_an_update(
    repo_known: bool,
    force: Option<bool>,
    target: Option<&str>,
    out: Result<(update_run::UpdateRun, update_run::Action), String>,
    before: Seq<char>,
    name: Seq<char>,
    after: Seq<char>,
)
    requires
        call_ensures(update_run::UpdateRun::start, (repo_known, force, target), out),
        target is Some ==> target->0@ == before + name + after,
        forall|i: int| 0 <= i < before.len() ==> text::white_space().contains(#[trigger] before[i]),
        forall|i: int| 0 <= i < after.len() ==> text::white_space().contains(#[trigger] after[i]),
        name.len() > 0 ==> !text::white_space().contains(name[0]) && !text::white_space().contains(
            name.last(),
        ),
    ensures
        !repo_known ==> (out matches Err(message) && message@ == "仓库位置不可用"@),
        repo_known && (target is None || name.len() == 0) ==> (out matches Ok((run, action))
            && run@.target is None),
        repo_known && target is Some && name.len() > 0 && update::is_version_name(name) ==> (
        out matches Ok((run, action)) && run@.target == Some(name)),
        repo_known && target is Some && name.len() > 0 && !update::is_version_name(name) ==> (
        out matches Err(message) && message@ == "非法的版本目标: "@ + target->0@),
        out matches Ok((run, action)) ==> run@.force == (force == Some(true)) && run@.phase is Lock
            && run@ == update_run::begun(force == Some(true), run@.target) && action@ is ClearLock,
        out matches Ok((run, action)) ==> run@.file == 0 && run@.step == 0 && run@.retries == 0
            && !run@.stashed && run@.moved is None && !run@.rebuilt && run@.base is None
            && run@.tool is None && run@.failed == 0 && run@.output.len() == 0 && run@.local.len()
            == 0,
{
    text::white_space_around_is_removed(before, name, after);
}

/// A number that goes down with every answer.
pub open spec fn remaining(run: RunView) -> int {
    let budget = (update_run::STEP_COUNT - run.step) * 30 + (update_run::MAX_RETRIES - run.retries
        + if run.stashed {
        0int
    } else {
        1int
    }) * 4;
    match run.phase {
        Phase::Lock => 300,
        Phase::Fetch => 299,
        Phase::Head => 298,
        Phase::Upstream => 297,
        Phase::Verify => 297,
        Phase::Pnpm => 296,
        Phase::Base => 295,
        Phase::LockAgain => 294,
        Phase::FileThere => 280 - run.file * 4,
        Phase::FileDiff => 279 - run.file * 4,
        Phase::FileRestore => 278 - run.file * 4,
        Phase::Stop => 240,
        Phase::Step => 31 + budget,
        Phase::Wait => 32 + budget,
        Phase::Stash => 30 + budget,
        Phase::NewHead => 2,
        Phase::Unmark => 1,
        Phase::FailedHead => 20,
        Phase::Mark => 19,
        Phase::Reset => 18,
        Phase::Rebuild => 10 - run.step,
        Phase::Restore => 1,
        Phase::Untouched | Phase::Updated | Phase::Failed => 0,
    }
}

/// Every answer brings the end nearer, so an update ends whatever comes back.
pub proof fn every_answer_brings_the_end_nearer(run: RunView, reply: ReplyView, trouble: Trouble)
    requires
        update_run::sound(run),
        !update_run::ended(run.phase),
    ensures
        0 <= remaining(update_run::next(run, reply, trouble).0) < remaining(run),
{
    update_run::runs_stay_sound(run, reply, trouble);
}

/// An update has ended after at most 300 answers.
pub proof fn updates_end(force: bool, target: Option<Seq<char>>, inputs: Seq<Input>)
    requires
        inputs.len() >= 300,
    ensures
        update_run::ended(state_after(update_run::begun(force, target), inputs).phase),
{
    lemma_remaining(update_run::begun(force, target), inputs);
}

proof fn lemma_remaining(start: RunView, inputs: Seq<Input>)
    requires
        start == update_run::begun(start.force, start.target),
    ensures
        update_run::ended(state_after(start, inputs).phase) || remaining(state_after(start, inputs)) <= 300
            - inputs.len(),
        remaining(state_after(start, inputs)) > 0 || update_run::ended(state_after(start, inputs).phase),
    decreases inputs.len(),
{
    lemma_course(start, inputs);
    if inputs.len() > 0 {
        let before = inputs.drop_last();
        lemma_remaining(start, before);
        lemma_course(start, before);
        let run = state_after(start, before);
        if !update_run::ended(run.phase) {
            every_answer_brings_the_end_nearer(run, inputs.last().reply, inputs.last().trouble);
        }
    }
}

} // verus!
