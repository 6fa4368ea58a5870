//! The course of a look at what versions there are.

use vstd::prelude::*;
use vstd::string::*;

use crate::text;
use crate::update;
use crate::update::Versions;

verus! {

/// Work that a look asks for.
#[derive(Debug)]
pub enum CheckAction {
    /// Remove the lock of git's index, if it was left behind.
    ClearLock,
    /// Run git with these arguments and hand back what it gives.
    Git(Vec<String>),
    /// Read which commits failed to build.
    ReadBad,
    /// These are the versions.
    Finish(Versions),
    /// There is no answer, for this reason.
    Refuse(String),
    /// The look was over before.
    Nothing,
}

/// What came of a piece of work.
#[derive(Debug)]
pub struct CheckReply {
    /// It succeeded.
    pub ok: bool,
    /// What git gave, or its message.
    pub text: String,
    /// The commits that failed to build, where those were asked for.
    pub bad: Vec<String>,
}

/// What a look waits for.
#[derive(Clone, Copy, Debug, PartialEq, Eq, Structural)]
pub enum CheckPhase {
    Lock,
    Fetch,
    Head,
    Bad,
    Master,
    Tags,
    Done,
}

/// A look under way.
pub struct CheckRun {
    phase: CheckPhase,
    local: String,
    bad: Vec<String>,
    master: Option<String>,
}

/// `CheckRun` as plain values.
pub struct CheckView {
    /// What it waits for.
    pub phase: CheckPhase,
    /// The commit that the repository is at.
    pub local: Seq<char>,
    /// The commits that failed to build.
    pub bad: Seq<Seq<char>>,
    /// The commit of the upstream branch.
    pub master: Option<Seq<char>>,
}

impl View for CheckRun {
    type V = CheckView;

    closed spec fn view(&self) -> CheckView {
        CheckView {
            phase: self.phase,
            local: self.local@,
            bad: text::texts(self.bad@),
            master: text::content(self.master),
        }
    }
}

/// git is asked.
pub open spec fn asks_git(action: CheckAction, args: Seq<Seq<char>>) -> bool {
    action matches CheckAction::Git(list) && text::texts(list@) == args
}

/// The look ends without an answer.
pub open spec fn is_refused(action: CheckAction, message: Seq<char>) -> bool {
    action matches CheckAction::Refuse(told) && told@ == message
}

/// What git gave, where it gave something.
pub open spec fn given(reply: CheckReply) -> Option<Seq<char>> {
    if reply.ok {
        Some(reply.text@)
    } else {
        None
    }
}

/// From `run`, `reply` leads to `later`, and `action` is asked for next: upstream is asked for
/// its branches and tags, then the repository for its commit, then the list of commits that
/// failed is read, and then git tells the upstream branch and the tags. Where upstream or the
/// repository gives no answer the look ends; a missing branch or missing tags are left out.
pub open spec fn follows(
    run: CheckView,
    reply: CheckReply,
    later: CheckView,
    action: CheckAction,
) -> bool {
    match run.phase {
        CheckPhase::Lock => {
            &&& later == (CheckView { phase: CheckPhase::Fetch, ..run })
            &&& asks_git(action, seq!["fetch"@, "origin"@, "--tags"@, "--force"@])
        },
        CheckPhase::Fetch => if reply.ok {
            &&& later == (CheckView { phase: CheckPhase::Head, ..run })
            &&& asks_git(action, seq!["rev-parse"@, "HEAD"@])
        } else {
            &&& later == (CheckView { phase: CheckPhase::Done, ..run })
            &&& is_refused(action, reply.text@)
        },
        CheckPhase::Head => if reply.ok {
            &&& later == (CheckView { phase: CheckPhase::Bad, local: reply.text@, ..run })
            &&& action is ReadBad
        } else {
            &&& later == (CheckView { phase: CheckPhase::Done, ..run })
            &&& is_refused(action, reply.text@)
        },
        CheckPhase::Bad => {
            &&& later == (CheckView {
                phase: CheckPhase::Master,
                bad: text::texts(reply.bad@),
                ..run
            })
            &&& asks_git(action, seq!["rev-parse"@, "origin/master"@])
        },
        CheckPhase::Master => {
            &&& later == (CheckView { phase: CheckPhase::Tags, master: given(reply), ..run })
            &&& asks_git(
                action,
                seq![
                    "for-each-ref"@,
                    "--format=%(refname)\t%(objectname)\t%(*objectname)"@,
                    "refs/tags/dsh-*"@,
                ],
            )
        },
        CheckPhase::Tags => {
            &&& later == (CheckView { phase: CheckPhase::Done, ..run })
            &&& action matches CheckAction::Finish(versions)
            &&& versions.local@ == run.local
            &&& update::is_sorted_version_of(
                update::entry_views(versions.entries@),
                update::listed(run.local, run.master, given(reply), run.bad),
            )
        },
        CheckPhase::Done => later == run && action is Nothing,
    }
}

impl CheckRun {
    /// A look begins.
    pub fn start(repo_known: bool) -> (out: Result<(CheckRun, CheckAction), String>)
        ensures
            match out {
                Ok((run, action)) => {
                    &&& repo_known
                    &&& run@ == (CheckView {
                        phase: CheckPhase::Lock,
                        local: seq![],
                        bad: seq![],
                        master: None,
                    })
                    &&& action is ClearLock
                },
                Err(message) => !repo_known && message@ == "仓库位置不可用"@,
            },
    {
        if !repo_known {
            return Err("仓库位置不可用".to_string());
        }
        let run = CheckRun {
            phase: CheckPhase::Lock,
            local: String::new(),
            bad: Vec::new(),
            master: None,
        };
        assert(run@.local =~= seq![]);
        assert(run@.bad =~= seq![]);
        Ok((run, CheckAction::ClearLock))
    }

    /// Takes what came of the work that was asked for, and asks for the next.
    pub fn advance(&mut self, reply: CheckReply) -> (out: CheckAction)
        ensures
            follows(old(self)@, reply, final(self)@, out),
    {
        match self.phase {
            CheckPhase::Lock => {
                self.phase = CheckPhase::Fetch;
                CheckAction::Git(text::four("fetch", "origin", "--tags", "--force"))
            },
            CheckPhase::Fetch => if reply.ok {
                self.phase = CheckPhase::Head;
                CheckAction::Git(text::two("rev-parse", "HEAD"))
            } else {
                self.phase = CheckPhase::Done;
                CheckAction::Refuse(reply.text)
            },
            CheckPhase::Head => if reply.ok {
                self.phase = CheckPhase::Bad;
                self.local = reply.text;
                CheckAction::ReadBad
            } else {
                self.phase = CheckPhase::Done;
                CheckAction::Refuse(reply.text)
            },
            CheckPhase::Bad => {
                self.phase = CheckPhase::Master;
                self.bad = reply.bad;
                CheckAction::Git(text::two("rev-parse", "origin/master"))
            },
            CheckPhase::Master => {
                self.phase = CheckPhase::Tags;
                self.master = if reply.ok {
                    Some(reply.text)
                } else {
                    None
                };
                CheckAction::Git(
                    text::three(
                        "for-each-ref",
                        "--format=%(refname)\t%(objectname)\t%(*objectname)",
                        "refs/tags/dsh-*",
                    ),
                )
            },
            CheckPhase::Tags => {
                self.phase = CheckPhase::Done;
                let master: Option<&str> = match &self.master {
                    Some(m) => Some(m.as_str()),
                    None => None,
                };
                let tags: Option<&str> = if reply.ok {
                    Some(reply.text.as_str())
                } else {
                    None
                };
                CheckAction::Finish(
                    update::check_update_blocking(self.local.as_str(), master, tags, &self.bad),
                )
            },
            CheckPhase::Done => CheckAction::Nothing,
        }
    }
}

/// A look asks in this order: upstream for its branches and tags, the repository for its
/// commit, the shell for the commits that failed, and git for the upstream branch and the tags.
/// What was answered is kept for the list.
pub proof fn look_asks_in_its_order(
    run: CheckView,
    reply: CheckReply,
    later: CheckView,
    action: CheckAction,
)
    requires
        follows(run, reply, later, action),
    ensures
        run.phase is Lock ==> later.phase is Fetch && (action matches CheckAction::Git(args)
            && text::texts(args@) == seq!["fetch"@, "origin"@, "--tags"@, "--force"@]),
        run.phase is Fetch && reply.ok ==> later.phase is Head && (action matches CheckAction::Git(
            args,
        ) && text::texts(args@) == seq!["rev-parse"@, "HEAD"@]),
        run.phase is Head && reply.ok ==> later.phase is Bad && action is ReadBad && later.local
            == reply.text@,
        run.phase is Bad ==> later.phase is Master && later.bad == text::texts(reply.bad@) && (
        action matches CheckAction::Git(args) && text::texts(args@) == seq![
            "rev-parse"@,
            "origin/master"@,
        ]),
        run.phase is Master ==> later.phase is Tags && (action matches CheckAction::Git(args)
            && text::texts(args@) == seq![
            "for-each-ref"@,
            "--format=%(refname)\t%(objectname)\t%(*objectname)"@,
            "refs/tags/dsh-*"@,
        ]),
        run.phase is Master && reply.ok ==> later.master == Some(reply.text@),
        run.phase is Master && !reply.ok ==> later.master is None,
        !(run.phase is Head) ==> later.local == run.local,
        !(run.phase is Bad) ==> later.bad == run.bad,
        !(run.phase is Master) ==> later.master == run.master,
{
}

/// Where upstream or the repository gives no answer the look is refused with what was said, and
/// for no other reason.
pub proof fn look_is_refused_without_an_answer(
    run: CheckView,
    reply: CheckReply,
    later: CheckView,
    action: CheckAction,
)
    requires
        follows(run, reply, later, action),
    ensures
        (run.phase is Fetch || run.phase is Head) && !reply.ok ==> later.phase is Done && (
        action matches CheckAction::Refuse(message) && message@ == reply.text@),
        action is Refuse ==> (run.phase is Fetch || run.phase is Head) && !reply.ok,
{
}

/// At the end stands the list of what was told on the way: the same list that the answers make,
/// and there is only one.
pub proof fn look_ends_with_the_list(
    run: CheckView,
    reply: CheckReply,
    later: CheckView,
    action: CheckAction,
    local: &str,
    master: Option<&str>,
    tags: Option<&str>,
    bad: &Vec<String>,
    list: Versions,
)
    requires
        follows(run, reply, later, action),
        run.phase is Tags,
        local@ == run.local,
        crate::repo::text_of(master) == run.master,
        tags is Some == reply.ok,
        tags is Some ==> tags->0@ == reply.text@,
        text::texts(bad@) == run.bad,
        call_ensures(update::check_update_blocking, (local, master, tags, bad), list),
    ensures
        action matches CheckAction::Finish(versions) && versions.local@ == list.local@
            && update::entry_views(versions.entries@) == update::entry_views(list.entries@),
{
    update::version_list_is_unique(
        update::entry_views(action->Finish_0.entries@),
        update::entry_views(list.entries@),
        update::listed(run.local, run.master, given(reply), run.bad),
    );
}

/// A look begins where the repository is known, with the lock, and knows nothing yet.
pub proof fn look_begins(repo_known: bool, out: Result<(CheckRun, CheckAction), String>)
    requires
        call_ensures(CheckRun::start, (repo_known,), out),
    ensures
        repo_known ==> (out matches Ok((run, action)) && action is ClearLock && run@.phase is Lock),
        !repo_known ==> (out matches Err(message) && message@ == "仓库位置不可用"@),
{
}

/// A look goes on as the last reply says.
pub proof fn run_takes_the_next_step(reply: CheckReply, out: CheckAction)
    ensures
        forall|run: &mut CheckRun| #[trigger]
            call_ensures(CheckRun::advance, (run, reply), out) ==> follows(
                (*run)@,
                reply,
                final(run)@,
                out,
            ),
{
}

} // verus!
