//! The commands that build the harness, and what is kept of their output.

use vstd::prelude::*;
use vstd::string::*;

use crate::digits;
use crate::text;

verus! {

/// So many bytes of a command's output are kept.
pub const OUTPUT_LIMIT: usize = 6000;

/// How pnpm is called: a program, and the arguments that come before pnpm's own.
#[derive(Debug)]
pub struct Tool {
    pub program: String,
    pub prefix: Vec<String>,
}

/// `Tool` as plain values.
pub struct ToolView {
    pub program: Seq<char>,
    pub prefix: Seq<Seq<char>>,
}

impl View for Tool {
    type V = ToolView;

    open spec fn view(&self) -> ToolView {
        ToolView { program: self.program@, prefix: text::texts(self.prefix@) }
    }
}

/// One command: the program, its arguments, the variables added to its environment, and
/// whether the work goes on where it fails.
#[derive(Debug)]
pub struct StepCommand {
    pub program: String,
    pub args: Vec<String>,
    pub envs: Vec<(String, String)>,
    pub tolerated: bool,
}

/// `StepCommand` as plain values.
pub struct CommandView {
    pub program: Seq<char>,
    pub args: Seq<Seq<char>>,
    pub envs: Seq<(Seq<char>, Seq<char>)>,
    pub tolerated: bool,
}

impl View for StepCommand {
    type V = CommandView;

    open spec fn view(&self) -> CommandView {
        CommandView {
            program: self.program@,
            args: text::texts(self.args@),
            envs: pairs(self.envs@),
            tolerated: self.tolerated,
        }
    }
}

/// The pairs of a list, each text as its characters.
pub open spec fn pairs(list: Seq<(String, String)>) -> Seq<(Seq<char>, Seq<char>)> {
    list.map_values(|p: (String, String)| (p.0@, p.1@))
}

/// The commands of a list as plain values.
pub open spec fn command_views(list: Seq<StepCommand>) -> Seq<CommandView> {
    list.map_values(|c: StepCommand| c@)
}

/// Bring the branch forward to what its upstream has. Commits of one's own are never lost.
pub open spec fn pull_command() -> CommandView {
    CommandView {
        program: "git"@,
        args: seq!["pull"@, "--ff-only"@],
        envs: seq![],
        tolerated: false,
    }
}

/// Make the branch of selected versions stand at a tag.
pub open spec fn switch_command(tag: Seq<char>) -> CommandView {
    CommandView {
        program: "git"@,
        args: seq!["checkout"@, "-B"@, "dsh-selected"@, "refs/tags/"@ + tag],
        envs: seq![],
        tolerated: false,
    }
}

/// Install the dependencies, without the question that pnpm would put to a terminal.
pub open spec fn install_command(tool: ToolView) -> CommandView {
    CommandView {
        program: tool.program,
        args: tool.prefix + seq!["install"@, "--config.confirmModulesPurge=false"@],
        envs: seq![],
        tolerated: false,
    }
}

/// Remove the output of earlier builds. The work goes on where this fails.
pub open spec fn clean_command(tool: ToolView) -> CommandView {
    CommandView {
        program: tool.program,
        args: tool.prefix + seq!["run"@, "clean"@],
        envs: seq![],
        tolerated: true,
    }
}

/// Build, with the titles of an official release.
pub open spec fn build_command(tool: ToolView) -> CommandView {
    CommandView {
        program: tool.program,
        args: tool.prefix + seq!["run"@, "build"@],
        envs: seq![("DSH_BUILD_CLIENT_PROFILE"@, "official"@)],
        tolerated: false,
    }
}

/// Brings the branch forward to what its upstream has.
pub fn pull() -> (out: StepCommand)
    ensures
        out@ == pull_command(),
{
    let args: Vec<String> = text::extended(&Vec::new(), "pull", "--ff-only");
    let out = StepCommand {
        program: "git".to_string(),
        args,
        envs: Vec::new(),
        tolerated: false,
    };
    assert(out@.args =~= pull_command().args);
    assert(out@.envs =~= pull_command().envs);
    out
}

/// The branch on which a selected version stands, and the reference of the tag.
pub fn target_branch_spec(tag: &str) -> (out: (String, String))
    ensures
        out.0@ == "dsh-selected"@,
        out.1@ == "refs/tags/"@ + tag@,
{
    let mut reference: String = "refs/tags/".to_string();
    reference.append(tag);
    ("dsh-selected".to_string(), reference)
}

/// Makes the branch of selected versions stand at a tag.
pub fn switch(tag: &str) -> (out: StepCommand)
    ensures
        out@ == switch_command(tag@),
{
    let mut args: Vec<String> = text::extended(&Vec::new(), "checkout", "-B");
    let (branch, reference) = target_branch_spec(tag);
    args.push(branch);
    args.push(reference);
    let out = StepCommand {
        program: "git".to_string(),
        args,
        envs: Vec::new(),
        tolerated: false,
    };
    assert(out@.args =~= switch_command(tag@).args);
    assert(out@.envs =~= switch_command(tag@).envs);
    out
}

/// Installs the dependencies.
pub fn install(tool: &Tool) -> (out: StepCommand)
    ensures
        out@ == install_command(tool@),
{
    let out = StepCommand {
        program: tool.program.clone(),
        args: text::extended(&tool.prefix, "install", "--config.confirmModulesPurge=false"),
        envs: Vec::new(),
        tolerated: false,
    };
    assert(out@.envs =~= install_command(tool@).envs);
    out
}

/// Removes the output of earlier builds.
pub fn clean(tool: &Tool) -> (out: StepCommand)
    ensures
        out@ == clean_command(tool@),
{
    let out = StepCommand {
        program: tool.program.clone(),
        args: text::extended(&tool.prefix, "run", "clean"),
        envs: Vec::new(),
        tolerated: true,
    };
    assert(out@.envs =~= clean_command(tool@).envs);
    out
}

/// Builds.
pub fn build(tool: &Tool) -> (out: StepCommand)
    ensures
        out@ == build_command(tool@),
{
    let mut envs: Vec<(String, String)> = Vec::new();
    envs.push(("DSH_BUILD_CLIENT_PROFILE".to_string(), "official".to_string()));
    let out = StepCommand {
        program: tool.program.clone(),
        args: text::extended(&tool.prefix, "run", "build"),
        envs,
        tolerated: false,
    };
    assert(out@.envs =~= build_command(tool@).envs);
    out
}

/// The commands of an update that follows the upstream branch.
pub open spec fn following(tool: ToolView) -> Seq<CommandView> {
    seq![pull_command(), install_command(tool), clean_command(tool), build_command(tool)]
}

/// The commands of an update that follows the upstream branch.
pub fn update_commands(pnpm: &Tool) -> (out: Vec<StepCommand>)
    ensures
        command_views(out@) == following(pnpm@),
{
    let mut out: Vec<StepCommand> = Vec::new();
    out.push(pull());
    out.push(install(pnpm));
    out.push(clean(pnpm));
    out.push(build(pnpm));
    assert(command_views(out@) =~= following(pnpm@));
    out
}

/// What is kept of the output `text` once `line` was printed.
pub open spec fn kept(text: Seq<char>, line: Seq<char>) -> Seq<char> {
    digits::byte_tail(text + line + "\n"@, OUTPUT_LIMIT as nat)
}

/// What is kept of the output of a command that printed `lines`.
pub open spec fn kept_of(lines: Seq<Seq<char>>) -> Seq<char>
    decreases lines.len(),
{
    if lines.len() == 0 {
        seq![]
    } else {
        kept(kept_of(lines.drop_last()), lines.last())
    }
}

/// The output of a command that printed `lines`.
pub open spec fn printed(lines: Seq<Seq<char>>) -> Seq<char>
    decreases lines.len(),
{
    if lines.len() == 0 {
        seq![]
    } else {
        printed(lines.drop_last()) + lines.last() + "\n"@
    }
}

/// The status that is shown of a command that has ended.
pub open spec fn end_status(ok: bool) -> Seq<char> {
    if ok {
        "done"@
    } else {
        "failed"@
    }
}

/// A running command.
pub struct StepRun {
    output: String,
}

impl View for StepRun {
    type V = Seq<char>;

    closed spec fn view(&self) -> Seq<char> {
        self.output@
    }
}

impl StepRun {
    /// A command that has printed nothing.
    pub fn new() -> (run: StepRun)
        ensures
            run@ == kept_of(seq![]),
    {
        StepRun { output: String::new() }
    }

    /// Takes a line that the command printed, and gives the text to show for it.
    pub fn line(&mut self, line: &str) -> (shown: String)
        ensures
            final(self)@ == kept(old(self)@, line@),
            shown@ == line@ + "\n"@,
    {
        let mut all: String = self.output.clone();
        all.append(line);
        all.append("\n");
        self.output = digits::last_bytes(all.as_str(), OUTPUT_LIMIT).to_string();
        let mut shown: String = line.to_string();
        shown.append("\n");
        shown
    }

    /// Whether the command succeeded, given the code that it ended with, the status to show,
    /// and what was kept of its output.
    pub fn finish(self, code: Option<i32>) -> (out: (bool, String, String))
        ensures
            out.0 == (code == Some(0i32)),
            out.1@ == end_status(out.0),
            out.2@ == self@,
    {
        let ok: bool = match code {
            Some(c) => c == 0,
            None => false,
        };
        let status: String = if ok {
            "done".to_string()
        } else {
            "failed".to_string()
        };
        (ok, status, self.output)
    }
}

/// What stands in place of the output of a command that could not be started.
pub open spec fn not_started(program: Seq<char>) -> Seq<char> {
    "无法启动 "@ + program + "（未安装或不在 PATH）"@
}

/// How a step ended, from what its command printed and the code that it ended with: whether
/// it succeeded, and what is kept of its output. Without `lines` the command could not be
/// started.
pub fn run_update_step(program: &str, lines: Option<&Vec<String>>, code: Option<i32>) -> (out: (
    bool,
    String,
))
    ensures
        match lines {
            Some(list) => out.0 == (code == Some(0i32)) && out.1@ == kept_of(text::texts(list@)),
            None => !out.0 && out.1@ == not_started(program@),
        },
{
    match lines {
        None => {
            let mut message: String = "无法启动 ".to_string();
            message.append(program);
            message.append("（未安装或不在 PATH）");
            (false, message)
        },
        Some(list) => {
            let mut run = StepRun::new();
            let mut i: usize = 0;
            assert(text::texts(list@).take(0) =~= seq![]);
            while i < list.len()
                invariant
                    i <= list@.len(),
                    run@ == kept_of(text::texts(list@).take(i as int)),
                decreases list@.len() - i,
            {
                let ghost next = text::texts(list@).take(i + 1);
                assert(next.drop_last() =~= text::texts(list@).take(i as int));
                let _ = run.line(list[i].as_str());
                i = i + 1;
            }
            assert(text::texts(list@).take(list@.len() as int) =~= text::texts(list@));
            let (ok, _, output) = run.finish(code);
            (ok, output)
        },
    }
}

proof fn lemma_more_bytes(a: Seq<char>, b: Seq<char>)
    ensures
        digits::byte_count(a) <= digits::byte_count(a + b),
    decreases a.len(),
{
    if a.len() > 0 {
        let sum = a + b;
        assert(sum.drop_first() =~= a.drop_first() + b);
        lemma_more_bytes(a.drop_first(), b);
        assert(sum[0] == a[0]);
    }
}

proof fn lemma_tail_of_tail(a: Seq<char>, b: Seq<char>, limit: nat)
    ensures
        digits::byte_tail(a + b, limit) == digits::byte_tail(digits::byte_tail(a, limit) + b, limit),
    decreases a.len(),
{
    if a.len() > 0 && digits::byte_count(a) > limit {
        lemma_more_bytes(a, b);
        assert((a + b).skip(1) =~= a.skip(1) + b);
        lemma_tail_of_tail(a.skip(1), b, limit);
    }
}

/// What is kept is the longest end of the whole output that is within the limit: the limit
/// holds at all times, and no line is lost that could have stayed.
pub proof fn kept_is_the_end(lines: Seq<Seq<char>>)
    ensures
        kept_of(lines) == digits::byte_tail(printed(lines), OUTPUT_LIMIT as nat),
    decreases lines.len(),
{
    if lines.len() > 0 {
        let before = printed(lines.drop_last());
        let new = lines.last() + "\n"@;
        kept_is_the_end(lines.drop_last());
        lemma_tail_of_tail(before, new, OUTPUT_LIMIT as nat);
        assert(kept_of(lines.drop_last()) + lines.last() + "\n"@ =~= kept_of(lines.drop_last())
            + new);
        assert(printed(lines) =~= before + new);
    }
}

proof fn lemma_tail_within(text: Seq<char>, limit: nat)
    ensures
        digits::byte_count(digits::byte_tail(text, limit)) <= limit,
    decreases text.len(),
{
    if text.len() > 0 && digits::byte_count(text) > limit {
        lemma_tail_within(text.skip(1), limit);
    } else if text.len() == 0 {
        assert(text =~= seq![]);
    }
}

/// Whatever a command prints, no more than the limit is kept of it.
pub proof fn kept_is_within_the_limit(lines: Seq<Seq<char>>)
    ensures
        digits::byte_count(kept_of(lines)) <= OUTPUT_LIMIT,
{
    kept_is_the_end(lines);
    lemma_tail_within(printed(lines), OUTPUT_LIMIT as nat);
}

/// A step succeeded exactly where its command ended with the code 0; a command that could not be
/// started has failed, and the text says which it was.
pub proof fn steps_succeed_with_code_zero(
    program: &str,
    lines: Option<&Vec<String>>,
    code: Option<i32>,
    out: (bool, String),
)
    requires
        call_ensures(run_update_step, (program, lines, code), out),
    ensures
        lines is Some ==> out.0 == (code == Some(0i32)),
        lines is None ==> !out.0 && out.1@ == "无法启动 "@ + program@ + "（未安装或不在 PATH）"@,
        lines is Some ==> out.1@ == kept_of(text::texts(lines->0@)),
{
}

proof fn lemma_tail_is_an_end(all: Seq<char>, limit: nat, at: int)
    requires
        0 <= at <= all.len(),
    ensures
        digits::byte_tail(all, limit) == all.skip(all.len() - digits::byte_tail(all, limit).len()),
        digits::byte_tail(all, limit).len() <= all.len(),
        digits::byte_count(all.skip(at)) <= limit ==> digits::byte_tail(all, limit).len()
            >= all.len() - at,
    decreases all.len(),
{
    if all.len() == 0 || digits::byte_count(all) <= limit {
        assert(all.skip(0) =~= all);
    } else {
        let rest = all.skip(1);
        if at == 0 {
            assert(all.skip(0) =~= all);
            lemma_tail_is_an_end(rest, limit, 0);
        } else {
            lemma_tail_is_an_end(rest, limit, at - 1);
            assert(rest.skip(at - 1) =~= all.skip(at));
        }
        let tail = digits::byte_tail(rest, limit);
        assert(rest.skip(rest.len() - tail.len()) =~= all.skip(all.len() - tail.len()));
    }
}

/// What is kept of the output is an end of everything that was printed, of at most 6000 bytes,
/// and no longer end is as short as that.
pub proof fn end_of_the_output_is_kept(lines: Seq<Seq<char>>, at: int)
    requires
        0 <= at <= printed(lines).len(),
    ensures
        ({
            let all = printed(lines);
            let kept = kept_of(lines);
            &&& kept.len() <= all.len()
            &&& kept == all.skip(all.len() - kept.len())
            &&& digits::byte_count(kept) <= 6000
            &&& digits::byte_count(all.skip(at)) <= 6000 ==> kept.len() >= all.len() - at
        }),
{
    kept_is_the_end(lines);
    kept_is_within_the_limit(lines);
    lemma_tail_is_an_end(printed(lines), 6000, at);
}

/// What was printed is every line, each with a line feed behind it.
pub proof fn every_line_is_printed(lines: Seq<Seq<char>>, line: Seq<char>)
    ensures
        printed(lines.push(line)) == printed(lines) + line + "\n"@,
        printed(seq![]).len() == 0,
{
    assert(lines.push(line).drop_last() =~= lines);
}

/// The commands of an update, one by one: go forward only, install without a question, remove
/// old output, and build with the titles of an official release.
pub proof fn commands_are_these_four(pnpm: &Tool, out: Vec<StepCommand>)
    requires
        call_ensures(update_commands, (pnpm,), out),
    ensures
        out@.len() == 4,
        out@[0]@ == (CommandView {
            program: "git"@,
            args: seq!["pull"@, "--ff-only"@],
            envs: seq![],
            tolerated: false,
        }),
        out@[1]@ == (CommandView {
            program: pnpm@.program,
            args: pnpm@.prefix + seq!["install"@, "--config.confirmModulesPurge=false"@],
            envs: seq![],
            tolerated: false,
        }),
        out@[2]@ == (CommandView {
            program: pnpm@.program,
            args: pnpm@.prefix + seq!["run"@, "clean"@],
            envs: seq![],
            tolerated: true,
        }),
        out@[3]@ == (CommandView {
            program: pnpm@.program,
            args: pnpm@.prefix + seq!["run"@, "build"@],
            envs: seq![("DSH_BUILD_CLIENT_PROFILE"@, "official"@)],
            tolerated: false,
        }),
{
    let views = command_views(out@);
    assert(views.len() == out@.len());
    assert(views[0] == out@[0]@ && views[1] == out@[1]@ && views[2] == out@[2]@ && views[3]
        == out@[3]@);
}

/// A selected version stands on a branch of its own, at its tag.
pub proof fn selected_version_has_its_branch(tag: &str, out: (String, String), command: StepCommand)
    requires
        call_ensures(target_branch_spec, (tag,), out),
        call_ensures(switch, (tag,), command),
    ensures
        out.0@ == "dsh-selected"@,
        out.1@ == "refs/tags/"@ + tag@,
        command@.program == "git"@,
        command@.args == seq!["checkout"@, "-B"@, out.0@, out.1@],
        !command@.tolerated,
{
}

/// A command that has ended shows `done` where it succeeded and `failed` where not.
pub proof fn end_of_a_command_is_shown(run: StepRun, code: Option<i32>, out: (bool, String, String))
    requires
        call_ensures(StepRun::finish, (run, code), out),
    ensures
        code == Some(0i32) ==> out.0 && out.1@ == "done"@,
        code != Some(0i32) ==> !out.0 && out.1@ == "failed"@,
        out.2@ == run@,
{
}

/// Each line that a command prints is shown with its line end, and of all that was printed the
/// end is kept.
pub proof fn printed_line_is_shown(line: &str, shown: String)
    ensures
        forall|run: &mut StepRun| #[trigger]
            call_ensures(StepRun::line, (run, line), shown) ==> shown@ == line@ + "\n"@
                && final(run)@ == kept((*run)@, line@),
{
}

} // verus!
