//! The course of an installation.
//!
//! The run asks for one piece of work at a time, and what comes back decides what it asks for
//! next.

use vstd::prelude::*;
use vstd::string::*;

use crate::install;
use crate::steps;
use crate::steps::CommandView;
use crate::steps::StepCommand;
use crate::steps::Tool;
use crate::steps::ToolView;
use crate::text;
use crate::unicode;
use crate::update;
use crate::update::Busy;
use crate::update_run;
use crate::update_run::Reply;
use crate::update_run::ReplyView;

verus! {

/// A clone is tried again so many times where the network fails.
pub const MAX_RETRIES: u64 = 2;

/// A try waits so many seconds longer than the one before.
pub const RETRY_SECS: u64 = 5;

/// So many characters of the output of a command that failed are shown.
pub const SHOWN_CHARS: usize = 1500;

/// What the user wants.
#[derive(Clone, Copy, Debug, PartialEq, Eq, Structural)]
pub enum Mode {
    /// Clone the harness and build it.
    Fresh,
    /// Go on with an installation that was broken off.
    Resume,
    /// Use an installation as it is.
    UseAsIs,
}

/// Work that an installation asks for.
#[derive(Debug)]
pub enum InstallAction {
    /// Say what can be done with the place.
    Inspect,
    /// Find out how git is called.
    FindGit,
    /// Find out how pnpm is called.
    FindPnpm,
    /// Nothing to do: the window is held open from now on.
    HoldWindow,
    /// Remove what lies at the place, and see to it that the directory above is there.
    MakeRoom,
    /// Run a command, show its progress, and hand back its output. It runs in the directory
    /// above the place where `above` says so, and otherwise at the place.
    RunStep { index: usize, label: String, command: StepCommand, above: bool },
    /// Wait so many seconds.
    Sleep(u64),
    /// Remember the place, and that there is no need to install.
    Register,
    /// End a server that an earlier process left behind.
    CleanUp,
    /// Start the server.
    StartServer,
    /// Tell the window that the server answers here.
    Announce(String),
    /// The installation is over.
    Finish(InstallResult),
    /// There is no installation, for this reason; nothing was touched.
    Refuse(String),
    /// The installation was over before.
    Nothing,
}

/// `InstallAction` as plain values.
pub enum InstallActionView {
    Inspect,
    FindGit,
    FindPnpm,
    HoldWindow,
    MakeRoom,
    RunStep { index: int, label: Seq<char>, command: CommandView, above: bool },
    Sleep(int),
    Register,
    CleanUp,
    StartServer,
    Announce(Seq<char>),
    Finish(InstallResultView),
    Refuse(Seq<char>),
    Nothing,
}

impl View for InstallAction {
    type V = InstallActionView;

    open spec fn view(&self) -> InstallActionView {
        match *self {
            InstallAction::Inspect => InstallActionView::Inspect,
            InstallAction::FindGit => InstallActionView::FindGit,
            InstallAction::FindPnpm => InstallActionView::FindPnpm,
            InstallAction::HoldWindow => InstallActionView::HoldWindow,
            InstallAction::MakeRoom => InstallActionView::MakeRoom,
            InstallAction::RunStep { index, label, command, above } => InstallActionView::RunStep {
                index: index as int,
                label: label@,
                command: command@,
                above,
            },
            InstallAction::Sleep(secs) => InstallActionView::Sleep(secs as int),
            InstallAction::Register => InstallActionView::Register,
            InstallAction::CleanUp => InstallActionView::CleanUp,
            InstallAction::StartServer => InstallActionView::StartServer,
            InstallAction::Announce(url) => InstallActionView::Announce(url@),
            InstallAction::Finish(result) => InstallActionView::Finish(result@),
            InstallAction::Refuse(message) => InstallActionView::Refuse(message@),
            InstallAction::Nothing => InstallActionView::Nothing,
        }
    }
}

/// How an installation ended.
#[derive(Debug)]
pub struct InstallResult {
    pub ok: bool,
    /// The label of what failed.
    pub failed_step: Option<String>,
    /// The end of its output.
    pub output_tail: Option<String>,
    /// The harness is installed, but the server did not start.
    pub server_start_error: Option<String>,
}

/// `InstallResult` as plain values.
pub struct InstallResultView {
    pub ok: bool,
    pub failed_step: Option<Seq<char>>,
    pub output_tail: Option<Seq<char>>,
    pub server_start_error: Option<Seq<char>>,
}

impl View for InstallResult {
    type V = InstallResultView;

    open spec fn view(&self) -> InstallResultView {
        InstallResultView {
            ok: self.ok,
            failed_step: text::content(self.failed_step),
            output_tail: text::content(self.output_tail),
            server_start_error: text::content(self.server_start_error),
        }
    }
}

/// What an installation waits for.
#[derive(Clone, Copy, Debug, PartialEq, Eq, Structural)]
pub enum InstallPhase {
    /// The place is being looked at.
    Inspect,
    /// git is being looked for.
    Git,
    /// pnpm is being looked for.
    Pnpm,
    /// The window is being held open.
    Hold,
    /// The place is being made free.
    Room,
    /// A command is running.
    Step,
    /// The clone waits for another try.
    Wait,
    /// The place is being remembered.
    Register,
    /// A server that was left behind is being ended.
    CleanUp,
    /// The server is being started.
    Server,
    /// The window is being told.
    Announce,
    /// The end: refused, with nothing touched.
    Untouched,
    /// The end: a command failed.
    Failed,
    /// The end: installed.
    Installed,
}

/// An installation under way.
pub struct InstallRun {
    phase: InstallPhase,
    mode: Mode,
    dir: String,
    git: String,
    tool: Option<Tool>,
    step: usize,
    retries: u64,
}

/// `InstallRun` as plain values.
pub struct InstallView {
    /// What it waits for.
    pub phase: InstallPhase,
    /// What the user wants.
    pub mode: Mode,
    /// The place.
    pub dir: Seq<char>,
    /// How git is called.
    pub git: Seq<char>,
    /// How pnpm is called.
    pub tool: Option<ToolView>,
    /// Which command is run.
    pub step: int,
    /// How many times the clone was tried again.
    pub retries: int,
}

impl View for InstallRun {
    type V = InstallView;

    closed spec fn view(&self) -> InstallView {
        InstallView {
            phase: self.phase,
            mode: self.mode,
            dir: self.dir@,
            git: self.git@,
            tool: match self.tool {
                Some(t) => Some(t@),
                None => None,
            },
            step: self.step as int,
            retries: self.retries as int,
        }
    }
}

/// The mode that a request names.
pub open spec fn mode_named(name: Seq<char>) -> Option<Mode> {
    if name == "fresh"@ {
        Some(Mode::Fresh)
    } else if name == "resume"@ {
        Some(Mode::Resume)
    } else if name == "use"@ {
        Some(Mode::UseAsIs)
    } else {
        None
    }
}

/// What the place has to be for each mode.
pub open spec fn wanted_state(mode: Mode) -> Seq<char> {
    match mode {
        Mode::Fresh => "empty"@,
        Mode::Resume => "dsh_incomplete"@,
        Mode::UseAsIs => "dsh_valid"@,
    }
}

/// How many commands are run. An installation that is gone on with needs no clone.
pub open spec fn step_count(mode: Mode) -> int {
    match mode {
        Mode::Fresh => 3,
        Mode::Resume => 2,
        Mode::UseAsIs => 0,
    }
}

/// What the commands are called.
pub open spec fn step_labels() -> Seq<Seq<char>> {
    seq![
        "克隆官方仓库（git clone）"@,
        "安装依赖（pnpm install）"@,
        "构建（pnpm run build）"@,
    ]
}

/// Which of the three commands command `step` is.
pub open spec fn which(mode: Mode, step: int) -> int {
    if mode is Fresh {
        step
    } else {
        step + 1
    }
}

/// Clone the harness, with its progress shown.
pub open spec fn clone_command(git: Seq<char>, dir: Seq<char>) -> CommandView {
    CommandView {
        program: git,
        args: seq!["clone"@, "--progress"@, install::OFFICIAL_REPO_URL@, dir],
        envs: seq![],
        tolerated: false,
    }
}

/// Command `step`.
pub open spec fn command_at(run: InstallView, step: int) -> CommandView {
    if which(run.mode, step) == 0 {
        clone_command(run.git, run.dir)
    } else if which(run.mode, step) == 1 {
        steps::install_command(run.tool->0)
    } else {
        steps::build_command(run.tool->0)
    }
}

/// The installation ends with nothing touched.
pub open spec fn refused(run: InstallView, message: Seq<char>) -> (InstallView, InstallActionView) {
    (InstallView { phase: InstallPhase::Untouched, ..run }, InstallActionView::Refuse(message))
}

/// The run waits for a piece of work.
pub open spec fn at(run: InstallView, phase: InstallPhase, action: InstallActionView) -> (
    InstallView,
    InstallActionView,
) {
    (InstallView { phase, ..run }, action)
}

/// Command `step` is run. A clone needs room first; after the last command the place is
/// remembered.
pub open spec fn at_step(run: InstallView, step: int) -> (InstallView, InstallActionView) {
    let here = InstallView { step, ..run };
    if step >= step_count(run.mode) {
        at(here, InstallPhase::Register, InstallActionView::Register)
    } else if which(run.mode, step) == 0 {
        at(here, InstallPhase::Room, InstallActionView::MakeRoom)
    } else {
        running(here)
    }
}

/// The command is run.
pub open spec fn running(run: InstallView) -> (InstallView, InstallActionView) {
    at(
        run,
        InstallPhase::Step,
        InstallActionView::RunStep {
            index: run.step,
            label: step_labels()[which(run.mode, run.step)],
            command: command_at(run, run.step),
            above: which(run.mode, run.step) == 0,
        },
    )
}

/// The place was looked at: it may have changed since the user chose it.
pub open spec fn after_inspect(run: InstallView, reply: ReplyView) -> (
    InstallView,
    InstallActionView,
) {
    if reply.text == wanted_state(run.mode) {
        match run.mode {
            Mode::UseAsIs => at(run, InstallPhase::Register, InstallActionView::Register),
            Mode::Fresh => at(run, InstallPhase::Git, InstallActionView::FindGit),
            Mode::Resume => at(run, InstallPhase::Pnpm, InstallActionView::FindPnpm),
        }
    } else if run.mode is UseAsIs {
        refused(run, "所选目录不再是完整可用的 dsh 安装，请重新检查"@)
    } else {
        refused(run, "目录状态已变化（当前："@ + reply.text + "），请重新检查目录"@)
    }
}

/// git was looked for.
pub open spec fn after_git(run: InstallView, reply: ReplyView) -> (InstallView, InstallActionView) {
    if reply.ok {
        at(
            InstallView { git: reply.text, ..run },
            InstallPhase::Pnpm,
            InstallActionView::FindPnpm,
        )
    } else {
        refused(run, "找不到 git：请先安装 Git for Windows（git-scm.com）后重试"@)
    }
}

/// pnpm was looked for.
pub open spec fn after_pnpm(run: InstallView, reply: ReplyView) -> (
    InstallView,
    InstallActionView,
) {
    match reply.tool {
        Some(tool) => at(
            InstallView { tool: Some(tool), ..run },
            InstallPhase::Hold,
            InstallActionView::HoldWindow,
        ),
        None => refused(run, update_run::no_pnpm()),
    }
}

/// The result of an installation of which a command failed.
pub open spec fn failure(run: InstallView, output: Seq<char>) -> InstallResultView {
    InstallResultView {
        ok: false,
        failed_step: Some(step_labels()[which(run.mode, run.step)]),
        output_tail: Some(text::last_chars(output, SHOWN_CHARS as nat)),
        server_start_error: None,
    }
}

/// A command has ended. A clone is tried again where the network failed.
pub open spec fn after_step(run: InstallView, reply: ReplyView, network: bool) -> (
    InstallView,
    InstallActionView,
) {
    if reply.ok {
        at_step(run, run.step + 1)
    } else if which(run.mode, run.step) == 0 && run.retries < MAX_RETRIES && network {
        let retries = run.retries + 1;
        at(
            InstallView { retries, ..run },
            InstallPhase::Wait,
            InstallActionView::Sleep(retries * RETRY_SECS),
        )
    } else {
        at(
            run,
            InstallPhase::Failed,
            InstallActionView::Finish(failure(run, reply.text)),
        )
    }
}

/// The result of an installation that is complete.
pub open spec fn success() -> InstallResultView {
    InstallResultView {
        ok: true,
        failed_step: None,
        output_tail: None,
        server_start_error: None,
    }
}

/// The server was to be started.
pub open spec fn after_server(run: InstallView, reply: ReplyView) -> (
    InstallView,
    InstallActionView,
) {
    if reply.ok {
        at(run, InstallPhase::Announce, InstallActionView::Announce(reply.text))
    } else {
        at(
            run,
            InstallPhase::Installed,
            InstallActionView::Finish(
                InstallResultView {
                    ok: false,
                    failed_step: Some("启动服务"@),
                    output_tail: None,
                    server_start_error: Some(reply.text),
                },
            ),
        )
    }
}

/// Where the run goes on from what came back, and what it asks for next. `network` tells that
/// the output of a command speaks of a network that failed.
pub open spec fn next(run: InstallView, reply: ReplyView, network: bool) -> (
    InstallView,
    InstallActionView,
) {
    match run.phase {
        InstallPhase::Inspect => after_inspect(run, reply),
        InstallPhase::Git => after_git(run, reply),
        InstallPhase::Pnpm => after_pnpm(run, reply),
        InstallPhase::Hold => at_step(run, 0),
        InstallPhase::Room => running(run),
        InstallPhase::Step => after_step(run, reply, network),
        InstallPhase::Wait => at(run, InstallPhase::Room, InstallActionView::MakeRoom),
        InstallPhase::Register => at(run, InstallPhase::CleanUp, InstallActionView::CleanUp),
        InstallPhase::CleanUp => at(run, InstallPhase::Server, InstallActionView::StartServer),
        InstallPhase::Server => after_server(run, reply),
        InstallPhase::Announce => at(
            run,
            InstallPhase::Installed,
            InstallActionView::Finish(success()),
        ),
        InstallPhase::Untouched | InstallPhase::Failed | InstallPhase::Installed => (
            run,
            InstallActionView::Nothing,
        ),
    }
}

/// The run is over.
pub open spec fn ended(phase: InstallPhase) -> bool {
    phase is Untouched || phase is Failed || phase is Installed
}

/// The window is held open: from the request to do so until the end. An installation that is
/// used as it is does not ask for that.
pub open spec fn holds_window(run: InstallView) -> bool {
    &&& !(run.mode is UseAsIs)
    &&& run.phase is Hold || run.phase is Room || run.phase is Step || run.phase is Wait
        || run.phase is Register || run.phase is CleanUp || run.phase is Server
        || run.phase is Announce
}

/// Whether something is noted to be at work once an answer took the run from `before` to
/// `after`, where `busy` was noted until then: it is from when the request to hold the window
/// was answered, and is no longer when the window is let go.
pub open spec fn busy_after(before: InstallView, after: InstallView, busy: bool) -> bool {
    if before.phase is Hold {
        true
    } else if holds_window(before) && !holds_window(after) {
        false
    } else {
        busy
    }
}

/// An installation begins. The request was checked before.
pub open spec fn begun(dir: Seq<char>, mode: Mode) -> InstallView {
    InstallView {
        phase: InstallPhase::Inspect,
        mode,
        dir,
        git: seq![],
        tool: None,
        step: 0,
        retries: 0,
    }
}

/// What holds of an installation at all times.
pub open spec fn sound(run: InstallView) -> bool {
    &&& run.phase is Hold || run.phase is Room || run.phase is Step || run.phase is Wait
        || run.phase is Failed ==> run.tool is Some && !(run.mode is UseAsIs)
    &&& run.phase is Git || run.phase is Room || run.phase is Wait ==> run.mode is Fresh
    &&& run.phase is Pnpm ==> !(run.mode is UseAsIs)
    &&& run.phase is Room || run.phase is Wait ==> run.step == 0
    &&& run.phase is Step || run.phase is Failed ==> 0 <= run.step < step_count(run.mode)
    &&& 0 <= run.retries <= MAX_RETRIES
}

/// An installation stays sound whatever comes back.
pub proof fn runs_stay_sound(run: InstallView, reply: ReplyView, network: bool)
    requires
        sound(run),
    ensures
        sound(next(run, reply, network).0),
{
}

fn mode_of(name: &str) -> (out: Option<Mode>)
    ensures
        out == mode_named(name@),
{
    if text::same(name, "fresh") {
        Some(Mode::Fresh)
    } else if text::same(name, "resume") {
        Some(Mode::Resume)
    } else if text::same(name, "use") {
        Some(Mode::UseAsIs)
    } else {
        None
    }
}

fn count_of(mode: Mode) -> (out: usize)
    ensures
        out == step_count(mode),
{
    match mode {
        Mode::Fresh => 3,
        Mode::Resume => 2,
        Mode::UseAsIs => 0,
    }
}

fn place_of(mode: Mode, step: usize) -> (out: usize)
    requires
        step < step_count(mode),
    ensures
        out == which(mode, step as int),
{
    match mode {
        Mode::Fresh => step,
        _ => step + 1,
    }
}

fn label_of(place: usize) -> (out: &'static str)
    requires
        place < 3,
    ensures
        out@ == step_labels()[place as int],
{
    match place {
        0 => "克隆官方仓库（git clone）",
        1 => "安装依赖（pnpm install）",
        _ => "构建（pnpm run build）",
    }
}

fn make_clone(git: &str, dir: &str) -> (out: StepCommand)
    ensures
        out@ == clone_command(git@, dir@),
{
    let out = StepCommand {
        program: git.to_string(),
        args: text::four("clone", "--progress", install::OFFICIAL_REPO_URL, dir),
        envs: Vec::new(),
        tolerated: false,
    };
    assert(out@.envs =~= seq![]);
    out
}

impl InstallRun {
    /// An installation begins: the request is checked, and the first piece of work is asked
    /// for.
    pub fn start(dir: &str, mode: &str) -> (out: Result<(InstallRun, InstallAction), String>)
        ensures
            match out {
                Ok((run, action)) => {
                    &&& text::stripped(dir@).len() > 0
                    &&& mode_named(mode@) is Some
                    &&& run@ == begun(text::stripped(dir@), mode_named(mode@)->0)
                    &&& sound(run@)
                    &&& action@ == InstallActionView::Inspect
                },
                Err(message) => if text::stripped(dir@).len() == 0 {
                    message@ == "安装目录为空"@
                } else {
                    mode_named(mode@) is None && message@ == "未知的安装模式: "@ + mode@
                },
            },
    {
        let dir: &str = text::trim(dir);
        if dir.is_empty() {
            return Err("安装目录为空".to_string());
        }
        match mode_of(mode) {
            None => {
                let mut message: String = "未知的安装模式: ".to_string();
                message.append(mode);
                Err(message)
            },
            Some(m) => {
                let run = InstallRun {
                    phase: InstallPhase::Inspect,
                    mode: m,
                    dir: dir.to_string(),
                    git: String::new(),
                    tool: None,
                    step: 0,
                    retries: 0,
                };
                assert(run@.git =~= seq![]);
                Ok((run, InstallAction::Inspect))
            },
        }
    }

    fn refuse(&mut self, message: String) -> (out: InstallAction)
        ensures
            (final(self)@, out@) == refused(old(self)@, message@),
    {
        self.phase = InstallPhase::Untouched;
        InstallAction::Refuse(message)
    }

    fn to_run(&mut self) -> (out: InstallAction)
        requires
            old(self)@.tool is Some,
            old(self)@.step < step_count(old(self)@.mode),
        ensures
            (final(self)@, out@) == running(old(self)@),
    {
        self.phase = InstallPhase::Step;
        let place: usize = place_of(self.mode, self.step);
        let label: String = label_of(place).to_string();
        match &self.tool {
            Some(tool) => {
                let command: StepCommand = if place == 0 {
                    make_clone(self.git.as_str(), self.dir.as_str())
                } else if place == 1 {
                    steps::install(tool)
                } else {
                    steps::build(tool)
                };
                InstallAction::RunStep { index: self.step, label, command, above: place == 0 }
            },
            None => InstallAction::Nothing,
        }
    }

    fn to_step(&mut self, step: usize) -> (out: InstallAction)
        requires
            old(self)@.tool is Some,
        ensures
            (final(self)@, out@) == at_step(old(self)@, step as int),
    {
        self.step = step;
        if step >= count_of(self.mode) {
            self.phase = InstallPhase::Register;
            InstallAction::Register
        } else if place_of(self.mode, step) == 0 {
            self.phase = InstallPhase::Room;
            InstallAction::MakeRoom
        } else {
            self.to_run()
        }
    }

    fn on_inspect(&mut self, reply: Reply) -> (out: InstallAction)
        ensures
            (final(self)@, out@) == after_inspect(old(self)@, reply@),
    {
        let state: &str = reply.text.as_str();
        match self.mode {
            Mode::UseAsIs => if text::same(state, "dsh_valid") {
                self.phase = InstallPhase::Register;
                return InstallAction::Register;
            } else {
                return self.refuse(
                    "所选目录不再是完整可用的 dsh 安装，请重新检查".to_string(),
                );
            },
            Mode::Fresh => if text::same(state, "empty") {
                self.phase = InstallPhase::Git;
                return InstallAction::FindGit;
            },
            Mode::Resume => if text::same(state, "dsh_incomplete") {
                self.phase = InstallPhase::Pnpm;
                return InstallAction::FindPnpm;
            },
        }
        let mut message: String = "目录状态已变化（当前：".to_string();
        message.append(state);
        message.append("），请重新检查目录");
        self.refuse(message)
    }

    fn on_git(&mut self, reply: Reply) -> (out: InstallAction)
        ensures
            (final(self)@, out@) == after_git(old(self)@, reply@),
    {
        if reply.ok {
            self.git = reply.text;
            self.phase = InstallPhase::Pnpm;
            InstallAction::FindPnpm
        } else {
            self.refuse("找不到 git：请先安装 Git for Windows（git-scm.com）后重试".to_string())
        }
    }

    fn on_pnpm(&mut self, reply: Reply) -> (out: InstallAction)
        ensures
            (final(self)@, out@) == after_pnpm(old(self)@, reply@),
    {
        match reply.tool {
            Some(tool) => {
                self.tool = Some(tool);
                self.phase = InstallPhase::Hold;
                InstallAction::HoldWindow
            },
            None => self.refuse(
                "找不到 pnpm 或 corepack：请安装 Node.js（自带 corepack），或在终端运行 npm install -g pnpm".to_string(),
            ),
        }
    }

    fn on_step(&mut self, reply: Reply, network: bool) -> (out: InstallAction)
        requires
            old(self)@.tool is Some,
            old(self)@.step < step_count(old(self)@.mode),
            old(self)@.retries <= MAX_RETRIES,
        ensures
            (final(self)@, out@) == after_step(old(self)@, reply@, network),
    {
        if reply.ok {
            return self.to_step(self.step + 1);
        }
        let place: usize = place_of(self.mode, self.step);
        if place == 0 && self.retries < MAX_RETRIES && network {
            self.retries = self.retries + 1;
            self.phase = InstallPhase::Wait;
            InstallAction::Sleep(self.retries * RETRY_SECS)
        } else {
            self.phase = InstallPhase::Failed;
            InstallAction::Finish(
                InstallResult {
                    ok: false,
                    failed_step: Some(label_of(place).to_string()),
                    output_tail: Some(text::tail_chars(reply.text.as_str(), SHOWN_CHARS)),
                    server_start_error: None,
                },
            )
        }
    }

    fn on_server(&mut self, reply: Reply) -> (out: InstallAction)
        ensures
            (final(self)@, out@) == after_server(old(self)@, reply@),
    {
        if reply.ok {
            self.phase = InstallPhase::Announce;
            InstallAction::Announce(reply.text)
        } else {
            self.phase = InstallPhase::Installed;
            InstallAction::Finish(
                InstallResult {
                    ok: false,
                    failed_step: Some("启动服务".to_string()),
                    output_tail: None,
                    server_start_error: Some(reply.text),
                },
            )
        }
    }

    fn keeps_window(&self) -> (out: bool)
        ensures
            out == holds_window(self@),
    {
        match self.phase {
            InstallPhase::Hold
            | InstallPhase::Room
            | InstallPhase::Step
            | InstallPhase::Wait
            | InstallPhase::Register
            | InstallPhase::CleanUp
            | InstallPhase::Server
            | InstallPhase::Announce => self.mode != Mode::UseAsIs,
            _ => false,
        }
    }

    fn take(&mut self, reply: Reply, network: bool) -> (out: InstallAction)
        requires
            sound(old(self)@),
        ensures
            (final(self)@, out@) == next(old(self)@, reply@, network),
            sound(final(self)@),
    {
        proof {
            runs_stay_sound(self@, reply@, network);
        }
        match self.phase {
            InstallPhase::Inspect => self.on_inspect(reply),
            InstallPhase::Git => self.on_git(reply),
            InstallPhase::Pnpm => self.on_pnpm(reply),
            InstallPhase::Hold => self.to_step(0),
            InstallPhase::Room => self.to_run(),
            InstallPhase::Step => self.on_step(reply, network),
            InstallPhase::Wait => {
                self.phase = InstallPhase::Room;
                InstallAction::MakeRoom
            },
            InstallPhase::Register => {
                self.phase = InstallPhase::CleanUp;
                InstallAction::CleanUp
            },
            InstallPhase::CleanUp => {
                self.phase = InstallPhase::Server;
                InstallAction::StartServer
            },
            InstallPhase::Server => self.on_server(reply),
            InstallPhase::Announce => {
                self.phase = InstallPhase::Installed;
                InstallAction::Finish(
                    InstallResult {
                        ok: true,
                        failed_step: None,
                        output_tail: None,
                        server_start_error: None,
                    },
                )
            },
            InstallPhase::Untouched
            | InstallPhase::Failed
            | InstallPhase::Installed => InstallAction::Nothing,
        }
    }

    /// Takes what came of the work that was asked for, and asks for the next. `network` tells
    /// that the output of a command speaks of a network that failed; `busy` is told when the
    /// window is held open and when it is let go.
    pub fn advance_with(&mut self, reply: Reply, network: bool, busy: &mut Busy) -> (out:
        InstallAction)
        requires
            sound(old(self)@),
        ensures
            (final(self)@, out@) == next(old(self)@, reply@, network),
            sound(final(self)@),
            final(busy)@ == busy_after(old(self)@, final(self)@, old(busy)@),
    {
        let asked: InstallPhase = self.phase;
        let held: bool = self.keeps_window();
        let out: InstallAction = self.take(reply, network);
        if let InstallPhase::Hold = asked {
            busy.set_updating(true);
        } else if held && !self.keeps_window() {
            busy.set_updating(false);
        }
        out
    }

    /// Takes what came of the work that was asked for, and asks for the next. `busy` is told
    /// when the window is held open and when it is let go.
    pub fn advance(&mut self, reply: Reply, busy: &mut Busy) -> (out: InstallAction)
        requires
            sound(old(self)@),
        ensures
            (final(self)@, out@) == next(
                old(self)@,
                reply@,
                update::tells_of_network(unicode::lower_text(reply@.text)),
            ),
            sound(final(self)@),
            final(busy)@ == busy_after(old(self)@, final(self)@, old(busy)@),
    {
        let network: bool = update::looks_like_network_error(reply.text.as_str());
        self.advance_with(reply, network, busy)
    }
}

/// What a run is told at one point.
pub struct Told {
    pub reply: ReplyView,
    pub network: bool,
}

/// Where a run stands once it was told `inputs`.
pub open spec fn state_after(start: InstallView, inputs: Seq<Told>) -> InstallView
    decreases inputs.len(),
{
    if inputs.len() == 0 {
        start
    } else {
        next(
            state_after(start, inputs.drop_last()),
            inputs.last().reply,
            inputs.last().network,
        ).0
    }
}

/// What a run has asked for once it was told `inputs`. Input `k` answers request `k`; the last
/// request is open.
pub open spec fn asked(start: InstallView, inputs: Seq<Told>) -> Seq<InstallActionView>
    decreases inputs.len(),
{
    if inputs.len() == 0 {
        seq![InstallActionView::Inspect]
    } else {
        asked(start, inputs.drop_last()).push(
            next(
                state_after(start, inputs.drop_last()),
                inputs.last().reply,
                inputs.last().network,
            ).1,
        )
    }
}

/// The place is remembered.
pub open spec fn is_registered(phase: InstallPhase) -> bool {
    phase is Register || phase is CleanUp || phase is Server || phase is Announce
        || phase is Installed
}

/// The request changes something on this machine.
pub open spec fn touches(action: InstallActionView) -> bool {
    action is MakeRoom || action is RunStep || action is Register || action is StartServer
}

/// The request to run command `step`.
pub open spec fn step_action(run: InstallView, step: int) -> InstallActionView {
    running(InstallView { step, ..run }).1
}

/// `action` was asked for, and it succeeded.
pub open spec fn succeeded(
    acts: Seq<InstallActionView>,
    inputs: Seq<Told>,
    action: InstallActionView,
) -> bool {
    exists|k: int|
        0 <= k < inputs.len() && k < acts.len() && #[trigger] acts[k] == action
            && inputs[k].reply.ok
}

/// How many times a run waited.
pub open spec fn sleeps(acts: Seq<InstallActionView>) -> nat
    decreases acts.len(),
{
    if acts.len() == 0 {
        0
    } else {
        sleeps(acts.drop_last()) + if acts.last() is Sleep {
            1nat
        } else {
            0nat
        }
    }
}

/// What the requests and answers so far say of where the run stands.
spec fn history(run: InstallView, acts: Seq<InstallActionView>, inputs: Seq<Told>) -> bool {
    &&& sound(run)
    &&& acts.len() == inputs.len() + 1
    &&& acts[0] is Inspect
    &&& run.phase is Inspect ==> inputs.len() == 0
    &&& !(run.phase is Inspect || run.phase is Untouched) ==> inputs.len() > 0
        && inputs[0].reply.text == wanted_state(run.mode)
    &&& run.phase is Inspect || run.phase is Git || run.phase is Pnpm || run.phase is Hold
        || run.phase is Untouched ==> forall|k: int|
        0 <= k < acts.len() ==> !touches(#[trigger] acts[k])
    &&& sleeps(acts) == run.retries
    &&& run.phase is Step ==> acts.last() == step_action(run, run.step)
    &&& run.phase is Step || run.phase is Failed ==> forall|s: int|
        0 <= s < run.step ==> succeeded(acts, inputs, #[trigger] step_action(run, s))
    &&& is_registered(run.phase) ==> forall|s: int|
        0 <= s < step_count(run.mode) ==> succeeded(acts, inputs, #[trigger] step_action(run, s))
}

proof fn lemma_succeeded_stays(
    acts: Seq<InstallActionView>,
    inputs: Seq<Told>,
    new: InstallActionView,
    input: Told,
    action: InstallActionView,
)
    requires
        acts.len() == inputs.len() + 1,
        succeeded(acts, inputs, action),
    ensures
        succeeded(acts.push(new), inputs.push(input), action),
{
    let k = choose|k: int|
        0 <= k < inputs.len() && k < acts.len() && #[trigger] acts[k] == action
            && inputs[k].reply.ok;
    assert(acts.push(new)[k] == action);
    assert(inputs.push(input)[k] == inputs[k]);
}

#[verifier::rlimit(50)]
proof fn lemma_history(
    run: InstallView,
    acts: Seq<InstallActionView>,
    inputs: Seq<Told>,
    input: Told,
)
    requires
        history(run, acts, inputs),
    ensures
        ({
            let (later, new) = next(run, input.reply, input.network);
            history(later, acts.push(new), inputs.push(input))
        }),
{
    let (later, new) = next(run, input.reply, input.network);
    let acts2 = acts.push(new);
    let inputs2 = inputs.push(input);
    runs_stay_sound(run, input.reply, input.network);
    assert(acts2.drop_last() =~= acts);
    assert(sleeps(acts2) == sleeps(acts) + if new is Sleep {
        1nat
    } else {
        0nat
    });
    if inputs.len() == 0 {
        assert(inputs2[0] == input);
    } else {
        assert(inputs2[0] == inputs[0]);
    }
    assert forall|s: int| succeeded(acts, inputs, step_action(run, s)) && !(run.phase is Git
        || run.phase is Pnpm) implies succeeded(
        acts2,
        inputs2,
        #[trigger] step_action(later, s),
    ) by {
        lemma_succeeded_stays(acts, inputs, new, input, step_action(run, s));
    }
    let last = inputs.len() as int;
    assert(acts2[last] == acts.last() && inputs2[last] == input);
    if run.phase is Step && input.reply.ok {
        assert(succeeded(acts2, inputs2, step_action(later, run.step)));
    }
}

proof fn lemma_course(start: InstallView, inputs: Seq<Told>)
    requires
        start == begun(start.dir, start.mode),
    ensures
        history(state_after(start, inputs), asked(start, inputs), inputs),
        state_after(start, inputs).mode == start.mode,
        state_after(start, inputs).dir == start.dir,
    decreases inputs.len(),
{
    if inputs.len() == 0 {
        let acts = asked(start, inputs);
        assert(sleeps(acts.drop_last()) == 0);
    } else {
        let before = inputs.drop_last();
        lemma_course(start, before);
        lemma_history(state_after(start, before), asked(start, before), before, inputs.last());
        assert(before.push(inputs.last()) =~= inputs);
    }
}

/// What lies at the place is removed only for a fresh installation, and only where the place
/// was found to be free; a refused installation has touched nothing.
pub proof fn nothing_of_the_user_is_removed(dir: Seq<char>, mode: Mode, inputs: Seq<Told>, k: int)
    requires
        0 <= k <= inputs.len(),
    ensures
        ({
            let start = begun(dir, mode);
            let acts = asked(start, inputs);
            &&& acts[k] is MakeRoom ==> mode is Fresh && k > 0 && acts[0] is Inspect
                && inputs[0].reply.text == "empty"@
            &&& state_after(start, inputs).phase is Untouched ==> !touches(acts[k])
        }),
    decreases inputs.len(),
{
    let start = begun(dir, mode);
    lemma_course(start, inputs);
    if inputs.len() > 0 {
        let before = inputs.drop_last();
        lemma_course(start, before);
        if k < inputs.len() {
            nothing_of_the_user_is_removed(dir, mode, before, k);
            assert(asked(start, inputs)[k] == asked(start, before)[k]);
        } else {
            let run = state_after(start, before);
            runs_stay_sound(run, inputs.last().reply, inputs.last().network);
        }
    }
}

/// A place is remembered as an installation only where it was found complete, or where every
/// command that it lacked was run and succeeded.
pub proof fn registered_means_complete(dir: Seq<char>, mode: Mode, inputs: Seq<Told>, step: int)
    requires
        is_registered(state_after(begun(dir, mode), inputs).phase),
        0 <= step < step_count(mode),
    ensures
        ({
            let start = begun(dir, mode);
            succeeded(
                asked(start, inputs),
                inputs,
                step_action(state_after(start, inputs), step),
            )
        }),
{
    let start = begun(dir, mode);
    lemma_course(start, inputs);
    let run = state_after(start, inputs);
    assert(succeeded(asked(start, inputs), inputs, step_action(run, step)));
}

/// A place is used as it is only where it was found complete.
pub proof fn used_means_complete(dir: Seq<char>, inputs: Seq<Told>)
    requires
        is_registered(state_after(begun(dir, Mode::UseAsIs), inputs).phase),
    ensures
        inputs.len() > 0,
        inputs[0].reply.text == "dsh_valid"@,
{
    lemma_course(begun(dir, Mode::UseAsIs), inputs);
}

/// A clone waits for another try at most twice, 5 and 10 seconds.
pub proof fn retries_are_limited(dir: Seq<char>, mode: Mode, inputs: Seq<Told>)
    ensures
        ({
            let acts = asked(begun(dir, mode), inputs);
            &&& sleeps(acts) <= MAX_RETRIES
            &&& acts.last() matches InstallActionView::Sleep(secs) ==> secs == sleeps(acts)
                * RETRY_SECS
        }),
{
    let start = begun(dir, mode);
    lemma_course(start, inputs);
    if inputs.len() > 0 {
        lemma_course(start, inputs.drop_last());
    }
}

/// How many times a run asked for a clone.
pub open spec fn clones(acts: Seq<InstallActionView>) -> nat
    decreases acts.len(),
{
    if acts.len() == 0 {
        0
    } else {
        clones(acts.drop_last()) + if acts.last() matches InstallActionView::RunStep { above, .. }
            && above {
            1nat
        } else {
            0nat
        }
    }
}

/// The window was held open.
spec fn was_held(run: InstallView) -> bool {
    holds_window(run) || !(run.mode is UseAsIs) && (run.phase is Failed || run.phase is Installed)
}

proof fn lemma_requests(start: InstallView, inputs: Seq<Told>)
    requires
        start == begun(start.dir, start.mode),
    ensures
        ({
            let run = state_after(start, inputs);
            let acts = asked(start, inputs);
            &&& acts.contains(InstallActionView::HoldWindow) == was_held(run)
            &&& acts.contains(InstallActionView::Register) == is_registered(run.phase)
            &&& clones(acts) <= run.retries + 1
            &&& run.phase is Room || run.phase is Wait ==> clones(acts) == run.retries
            &&& run.phase is Step && which(run.mode, run.step) == 0 ==> clones(acts) == run.retries
                + 1
            &&& !(run.mode is Fresh) || run.phase is Inspect || run.phase is Git || run.phase is Pnpm
                || run.phase is Hold || run.phase is Untouched ==> clones(acts) == 0
            &&& run.phase is Inspect || run.phase is Git || run.phase is Pnpm || run.phase is Hold
                ==> run.retries == 0
        }),
    decreases inputs.len(),
{
    lemma_course(start, inputs);
    let acts = asked(start, inputs);
    if inputs.len() == 0 {
        assert(clones(acts.drop_last()) == 0);
        assert(acts[0] is Inspect);
    } else {
        let before = inputs.drop_last();
        let earlier = asked(start, before);
        lemma_course(start, before);
        lemma_requests(start, before);
        assert(acts.drop_last() =~= earlier);
        vstd::seq_lib::lemma_seq_contains_after_push(
            earlier,
            acts.last(),
            InstallActionView::HoldWindow,
        );
        vstd::seq_lib::lemma_seq_contains_after_push(
            earlier,
            acts.last(),
            InstallActionView::Register,
        );
    }
}

/// A clone is asked for at most three times, and only by a fresh installation.
pub proof fn clones_are_limited(dir: Seq<char>, mode: Mode, inputs: Seq<Told>)
    ensures
        clones(asked(begun(dir, mode), inputs)) <= MAX_RETRIES + 1,
        !(mode is Fresh) ==> clones(asked(begun(dir, mode), inputs)) == 0,
{
    let start = begun(dir, mode);
    lemma_course(start, inputs);
    lemma_requests(start, inputs);
}

/// Where a command failed for good, the place is not remembered as an installation, and nothing
/// more is asked for.
pub proof fn failed_installation_is_not_remembered(
    dir: Seq<char>,
    mode: Mode,
    inputs: Seq<Told>,
    input: Told,
)
    requires
        state_after(begun(dir, mode), inputs).phase is Failed,
    ensures
        !asked(begun(dir, mode), inputs).contains(InstallActionView::Register),
        next(state_after(begun(dir, mode), inputs), input.reply, input.network) == (
            state_after(begun(dir, mode), inputs),
            InstallActionView::Nothing,
        ),
{
    lemma_requests(begun(dir, mode), inputs);
}

/// Whether something is noted to be at work once the run was told `inputs`, where `busy` was
/// noted before it began.
pub open spec fn busy_at(start: InstallView, inputs: Seq<Told>, busy: bool) -> bool
    decreases inputs.len(),
{
    if inputs.len() == 0 {
        busy
    } else {
        busy_after(
            state_after(start, inputs.drop_last()),
            state_after(start, inputs),
            busy_at(start, inputs.drop_last(), busy),
        )
    }
}

/// The window is held open from the request to do so until the installation ends, so whenever
/// the place is made free or a command is run; and at no end is it held.
pub proof fn window_is_held_until_the_end(dir: Seq<char>, mode: Mode, inputs: Seq<Told>)
    ensures
        ({
            let start = begun(dir, mode);
            let run = state_after(start, inputs);
            let acts = asked(start, inputs);
            &&& holds_window(run) == (acts.contains(InstallActionView::HoldWindow) && !ended(
                run.phase,
            ))
            &&& ended(run.phase) ==> !holds_window(run)
            &&& acts.last() is HoldWindow || acts.last() is MakeRoom || acts.last() is RunStep
                || acts.last() is Sleep ==> holds_window(run)
            &&& acts.last() is Finish || acts.last() is Refuse ==> ended(run.phase)
        }),
{
    let start = begun(dir, mode);
    lemma_course(start, inputs);
    lemma_requests(start, inputs);
    if inputs.len() > 0 {
        lemma_course(start, inputs.drop_last());
        runs_stay_sound(
            state_after(start, inputs.drop_last()),
            inputs.last().reply,
            inputs.last().network,
        );
    }
}

/// Something is noted to be at work from when the request to hold the window was answered, and
/// no longer once the installation has ended. One that is refused, or used as it is, notes
/// nothing.
pub proof fn nothing_is_at_work_after_the_end(
    dir: Seq<char>,
    mode: Mode,
    inputs: Seq<Told>,
    busy: bool,
)
    ensures
        ({
            let start = begun(dir, mode);
            let run = state_after(start, inputs);
            let acts = asked(start, inputs);
            let noted = busy_at(start, inputs, busy);
            &&& !acts.contains(InstallActionView::HoldWindow) || run.phase is Hold ==> noted == busy
            &&& holds_window(run) && !(run.phase is Hold) ==> noted
            &&& ended(run.phase) && acts.contains(InstallActionView::HoldWindow) ==> !noted
            &&& acts.last() is Finish ==> noted == (mode is UseAsIs && busy)
            &&& acts.last() is Refuse ==> noted == busy
        }),
    decreases inputs.len(),
{
    let start = begun(dir, mode);
    lemma_course(start, inputs);
    lemma_requests(start, inputs);
    if inputs.len() > 0 {
        let before = inputs.drop_last();
        nothing_is_at_work_after_the_end(dir, mode, before, busy);
        lemma_course(start, before);
        lemma_requests(start, before);
    }
}

/// A command was asked for, and it succeeded.
pub open spec fn done(acts: Seq<InstallActionView>, inputs: Seq<Told>, command: CommandView) -> bool {
    exists|k: int|
        0 <= k < inputs.len() && k < acts.len() && (#[trigger] acts[k] matches
            InstallActionView::RunStep { command: run, .. } && run == command)
            && inputs[k].reply.ok
}

proof fn lemma_tools_are_those_found(start: InstallView, inputs: Seq<Told>)
    requires
        start == begun(start.dir, start.mode),
    ensures
        ({
            let run = state_after(start, inputs);
            let early = run.phase is Inspect || run.phase is Git || run.phase is Pnpm
                || run.phase is Untouched;
            &&& run.phase is Inspect ==> inputs.len() == 0
            &&& run.phase is Git ==> inputs.len() == 1 && run.mode is Fresh
            &&& run.phase is Pnpm && run.mode is Fresh ==> inputs.len() == 2 && run.git
                == inputs[1].reply.text
            &&& run.phase is Pnpm && run.mode is Resume ==> inputs.len() == 1
            &&& !early && run.mode is Fresh ==> inputs.len() >= 3 && run.git
                == inputs[1].reply.text && run.tool == inputs[2].reply.tool && run.tool is Some
            &&& !early && run.mode is Resume ==> inputs.len() >= 2 && run.tool
                == inputs[1].reply.tool && run.tool is Some
            &&& run.mode == start.mode && run.dir == start.dir
        }),
    decreases inputs.len(),
{
    if inputs.len() > 0 {
        let before = inputs.drop_last();
        lemma_tools_are_those_found(start, before);
        lemma_course(start, before);
        assert forall|i: int| 0 <= i < before.len() implies before[i] == #[trigger] inputs[i] by {}
    }
}

/// A place is remembered only once what it lacked was put there: the dependencies were
/// installed and the harness was built, each with the pnpm that was found, and for a fresh
/// installation the harness was cloned to the place with the git that was found.
pub proof fn remembered_places_are_built(dir: Seq<char>, mode: Mode, inputs: Seq<Told>)
    requires
        mode is Fresh || mode is Resume,
        asked(begun(dir, mode), inputs).contains(InstallActionView::Register),
    ensures
        ({
            let acts = asked(begun(dir, mode), inputs);
            let tool = (if mode is Fresh {
                inputs[2].reply.tool
            } else {
                inputs[1].reply.tool
            })->0;
            &&& done(
                acts,
                inputs,
                CommandView {
                    program: tool.program,
                    args: tool.prefix + seq!["install"@, "--config.confirmModulesPurge=false"@],
                    envs: seq![],
                    tolerated: false,
                },
            )
            &&& done(
                acts,
                inputs,
                CommandView {
                    program: tool.program,
                    args: tool.prefix + seq!["run"@, "build"@],
                    envs: seq![("DSH_BUILD_CLIENT_PROFILE"@, "official"@)],
                    tolerated: false,
                },
            )
            &&& mode is Fresh ==> done(
                acts,
                inputs,
                CommandView {
                    program: inputs[1].reply.text,
                    args: seq![
                        "clone"@,
                        "--progress"@,
                        "https://github.com/deepseek-ai/deepseek-harness.git"@,
                        dir,
                    ],
                    envs: seq![],
                    tolerated: false,
                },
            )
        }),
{
    let start = begun(dir, mode);
    let acts = asked(start, inputs);
    let run = state_after(start, inputs);
    lemma_course(start, inputs);
    lemma_requests(start, inputs);
    lemma_tools_are_those_found(start, inputs);
    assert(succeeded(acts, inputs, step_action(run, 0)));
    assert(succeeded(acts, inputs, step_action(run, 1)));
    if mode is Fresh {
        assert(succeeded(acts, inputs, step_action(run, 2)));
    }
}

/// An installation begins only where the place is what the request takes it for; otherwise it
/// is refused, and the message tells what the place is now.
pub proof fn place_has_to_be_what_is_asked(run: InstallView, reply: ReplyView, network: bool)
    requires
        sound(run),
        run.phase is Inspect,
    ensures
        ({
            let new = next(run, reply, network).1;
            &&& run.mode is Fresh && reply.text == "empty"@ ==> new is FindGit
            &&& run.mode is Resume && reply.text == "dsh_incomplete"@ ==> new is FindPnpm
            &&& run.mode is UseAsIs && reply.text == "dsh_valid"@ ==> new is Register
            &&& run.mode is Fresh && reply.text != "empty"@ || run.mode is Resume && reply.text
                != "dsh_incomplete"@ ==> new == InstallActionView::Refuse(
                "目录状态已变化（当前："@ + reply.text + "），请重新检查目录"@,
            )
            &&& run.mode is UseAsIs && reply.text != "dsh_valid"@ ==> new
                == InstallActionView::Refuse(
                "所选目录不再是完整可用的 dsh 安装，请重新检查"@,
            )
        }),
{
}

/// Without git there is no clone, and without pnpm no installation; with both the window is
/// held before anything is touched.
pub proof fn tools_come_first(run: InstallView, reply: ReplyView, network: bool)
    requires
        sound(run),
        run.phase is Git || run.phase is Pnpm,
    ensures
        ({
            let (later, new) = next(run, reply, network);
            &&& run.phase is Git && reply.ok ==> new is FindPnpm && later.git == reply.text
            &&& run.phase is Git && !reply.ok ==> new == InstallActionView::Refuse(
                "找不到 git：请先安装 Git for Windows（git-scm.com）后重试"@,
            )
            &&& run.phase is Pnpm && reply.tool is Some ==> new is HoldWindow && later.tool
                == reply.tool
            &&& run.phase is Pnpm && reply.tool is None ==> new == InstallActionView::Refuse(
                "找不到 pnpm 或 corepack：请安装 Node.js（自带 corepack），或在终端运行 npm install -g pnpm"@,
            )
        }),
{
}

/// What has to be run, in order: a fresh installation makes room and clones, in the directory
/// above the place; then both kinds install the dependencies and build, at the place; and then
/// the place is remembered.
pub proof fn commands_come_in_their_order(run: InstallView, reply: ReplyView, network: bool)
    requires
        sound(run),
    ensures
        ({
            let (later, new) = next(run, reply, network);
            let tool = run.tool->0;
            let ran = if run.mode is Fresh {
                run.step
            } else {
                run.step + 1
            };
            let on = run.phase is Step && reply.ok;
            &&& run.phase is Hold && run.mode is Fresh || run.phase is Wait ==> new is MakeRoom
            &&& run.phase is Room ==> new == (InstallActionView::RunStep {
                index: 0,
                label: "克隆官方仓库（git clone）"@,
                command: CommandView {
                    program: run.git,
                    args: seq![
                        "clone"@,
                        "--progress"@,
                        "https://github.com/deepseek-ai/deepseek-harness.git"@,
                        run.dir,
                    ],
                    envs: seq![],
                    tolerated: false,
                },
                above: true,
            })
            &&& run.phase is Hold && run.mode is Resume || on && ran == 0 ==> new == (
            InstallActionView::RunStep {
                index: if run.mode is Fresh {
                    1
                } else {
                    0int
                },
                label: "安装依赖（pnpm install）"@,
                command: CommandView {
                    program: tool.program,
                    args: tool.prefix + seq!["install"@, "--config.confirmModulesPurge=false"@],
                    envs: seq![],
                    tolerated: false,
                },
                above: false,
            })
            &&& on && ran == 1 ==> new == (InstallActionView::RunStep {
                index: if run.mode is Fresh {
                    2
                } else {
                    1int
                },
                label: "构建（pnpm run build）"@,
                command: CommandView {
                    program: tool.program,
                    args: tool.prefix + seq!["run"@, "build"@],
                    envs: seq![("DSH_BUILD_CLIENT_PROFILE"@, "official"@)],
                    tolerated: false,
                },
                above: false,
            })
            &&& on && ran == 2 ==> new is Register
            &&& on ==> later.step == run.step + 1
            &&& later.dir == run.dir && later.mode == run.mode
            &&& run.tool is Some ==> run.phase is Pnpm || later.tool == run.tool
            &&& run.phase is Git || later.git == run.git
        }),
{
}

/// A clone that the network broke off waits 5 and then 10 seconds for another try. Any other
/// failure ends the installation, and the result names the command and shows the end of its
/// output.
pub proof fn failed_commands_are_told(run: InstallView, reply: ReplyView, network: bool)
    requires
        sound(run),
        run.phase is Step,
        !reply.ok,
    ensures
        ({
            let (later, new) = next(run, reply, network);
            let ran = if run.mode is Fresh {
                run.step
            } else {
                run.step + 1
            };
            if ran == 0 && network && run.retries < 2 {
                &&& new == InstallActionView::Sleep((run.retries + 1) * 5)
                &&& later.retries == run.retries + 1
                &&& later.phase is Wait
            } else {
                new matches InstallActionView::Finish(result) && {
                    &&& !result.ok
                    &&& result.server_start_error is None
                    &&& ran == 0 ==> result.failed_step == Some("克隆官方仓库（git clone）"@)
                    &&& ran == 1 ==> result.failed_step == Some("安装依赖（pnpm install）"@)
                    &&& ran == 2 ==> result.failed_step == Some("构建（pnpm run build）"@)
                    &&& reply.text.len() <= 1500 ==> result.output_tail == Some(reply.text)
                    &&& reply.text.len() > 1500 ==> result.output_tail == Some(
                        reply.text.skip(reply.text.len() - 1500),
                    )
                }
            }
        }),
{
}

/// Once the place is remembered, a server that was left behind is ended and a new one started:
/// where it answers, the window is told and all is well; where it does not, the result says so.
pub proof fn server_is_started_at_the_end(run: InstallView, reply: ReplyView, network: bool)
    requires
        sound(run),
    ensures
        ({
            let new = next(run, reply, network).1;
            &&& run.phase is Register ==> new is CleanUp
            &&& run.phase is CleanUp ==> new is StartServer
            &&& run.phase is Server && reply.ok ==> new == InstallActionView::Announce(reply.text)
            &&& run.phase is Server && !reply.ok ==> new == InstallActionView::Finish(
                InstallResultView {
                    ok: false,
                    failed_step: Some("启动服务"@),
                    output_tail: None,
                    server_start_error: Some(reply.text),
                },
            )
            &&& run.phase is Announce ==> new == InstallActionView::Finish(
                InstallResultView {
                    ok: true,
                    failed_step: None,
                    output_tail: None,
                    server_start_error: None,
                },
            )
        }),
{
}

/// A request names a place and one of three kinds of installation; white space around the place
/// does not count.
pub proof fn request_begins_an_installation(
    dir: &str,
    mode: &str,
    out: Result<(InstallRun, InstallAction), String>,
    before: Seq<char>,
    place: Seq<char>,
    after: Seq<char>,
)
    requires
        call_ensures(InstallRun::start, (dir, mode), out),
        dir@ == before + place + after,
        forall|i: int| 0 <= i < before.len() ==> text::white_space().contains(#[trigger] before[i]),
        forall|i: int| 0 <= i < after.len() ==> text::white_space().contains(#[trigger] after[i]),
        place.len() > 0 ==> !text::white_space().contains(place[0]) && !text::white_space().contains(
            place.last(),
        ),
    ensures
        place.len() == 0 ==> (out matches Err(message) && message@ == "安装目录为空"@),
        place.len() > 0 && mode@ == "fresh"@ ==> (out matches Ok((run, action)) && run@.mode
            is Fresh),
        place.len() > 0 && mode@ == "resume"@ ==> (out matches Ok((run, action)) && run@.mode
            is Resume),
        place.len() > 0 && mode@ == "use"@ ==> (out matches Ok((run, action)) && run@.mode
            is UseAsIs),
        place.len() > 0 && mode@ != "fresh"@ && mode@ != "resume"@ && mode@ != "use"@ ==> (
        out matches Err(message) && message@ == "未知的安装模式: "@ + mode@),
        out matches Ok((run, action)) ==> run@ == begun(place, run@.mode) && action@ is Inspect,
        out matches Ok((run, action)) ==> run@.phase is Inspect && run@.dir == place && run@.tool
            is None && run@.step == 0 && run@.retries == 0,
{
    text::white_space_around_is_removed(before, place, after);
    reveal_strlit("fresh");
    reveal_strlit("resume");
    reveal_strlit("use");
    assert("fresh"@.len() == 5 && "resume"@.len() == 6 && "use"@.len() == 3);
}

/// A number that goes down with every answer.
pub open spec fn remaining(run: InstallView) -> int {
    match run.phase {
        InstallPhase::Inspect => 54,
        InstallPhase::Git => 53,
        InstallPhase::Pnpm => 52,
        InstallPhase::Hold => 51,
        InstallPhase::Room => 32 - run.retries * 4,
        InstallPhase::Wait => 33 - run.retries * 4,
        InstallPhase::Step => if which(run.mode, run.step) == 0 {
            31 - run.retries * 4
        } else {
            10 - run.step
        },
        InstallPhase::Register => 5,
        InstallPhase::CleanUp => 4,
        InstallPhase::Server => 3,
        InstallPhase::Announce => 2,
        InstallPhase::Untouched | InstallPhase::Failed | InstallPhase::Installed => 0,
    }
}

/// Every answer brings the end nearer, so an installation ends whatever comes back.
pub proof fn every_answer_brings_the_end_nearer(run: InstallView, reply: ReplyView, network: bool)
    requires
        sound(run),
        !ended(run.phase),
    ensures
        0 <= remaining(next(run, reply, network).0) < remaining(run),
{
    runs_stay_sound(run, reply, network);
}

/// An installation goes on as the last reply says, and what the output of a command means is
/// read from it.
pub proof fn run_takes_the_next_step(reply: Reply, network: bool, out: InstallAction)
    ensures
        forall|run: &mut InstallRun, busy: &mut Busy| #[trigger]
            call_ensures(InstallRun::advance_with, (run, reply, network, busy), out) ==> (
            final(run)@,
            out@,
        ) == next((*run)@, reply@, network) && final(busy)@ == busy_after(
                (*run)@,
                final(run)@,
                (*busy)@,
            ),
        forall|run: &mut InstallRun, busy: &mut Busy| #[trigger]
            call_ensures(InstallRun::advance, (run, reply, busy), out) ==> (final(run)@, out@) == next(
                (*run)@,
                reply@,
                update::tells_of_network(unicode::lower_text(reply@.text)),
            ) && final(busy)@ == busy_after((*run)@, final(run)@, (*busy)@),
{
}

} // verus!
