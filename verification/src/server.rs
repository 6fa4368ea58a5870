//! The server process: how it is started, when it is ready, and which process is one that was
//! left behind.

use vstd::prelude::*;
use vstd::string::*;

use crate::digits;
use crate::nav;
use crate::repo;
use crate::text;
use crate::unicode;

verus! {

/// The port that the server is to have.
pub const DSH_PORT: u16 = 3080;

/// The line that tells that the server is ready goes on with the port after this.
pub const URL_LINE: &'static str = "dsh web: http://127.0.0.1:";

/// The server has so many milliseconds to become ready, whatever it prints meanwhile.
pub const START_TIMEOUT_MS: u64 = 60_000;

/// So many lines of the server's output are kept.
pub const LOG_LINES: usize = 400;

/// The command that starts the server: the built entry where it is there, and otherwise the
/// source.
pub open spec fn server_args(
    built: Option<Seq<char>>,
    source: Option<Seq<char>>,
    port: nat,
) -> Option<Seq<Seq<char>>> {
    match built {
        Some(path) => Some(seq![path, "web"@, "--port"@, digits::decimal(port), "--no-open"@]),
        None => match source {
            Some(path) => Some(
                seq![
                    "--import"@,
                    "tsx/esm"@,
                    path,
                    "web"@,
                    "--port"@,
                    digits::decimal(port),
                    "--no-open"@,
                ],
            ),
            None => None,
        },
    }
}

fn with_port(list: Vec<String>, port: u16) -> (out: Vec<String>)
    ensures
        text::texts(out@) == text::texts(list@) + seq![
            "web"@,
            "--port"@,
            digits::decimal(port as nat),
            "--no-open"@,
        ],
{
    let number: String = digits::write_decimal(port as u64);
    let out: Vec<String> = text::pushed(
        text::pushed(text::pushed(text::pushed(list, "web"), "--port"), number.as_str()),
        "--no-open",
    );
    assert(text::texts(out@) =~= text::texts(list@) + seq![
        "web"@,
        "--port"@,
        digits::decimal(port as nat),
        "--no-open"@,
    ]);
    out
}

/// The program that starts the server and its arguments: the built entry where it is there,
/// and otherwise the source. The system picks the port where `port` is 0.
pub fn server_command(built: Option<&str>, source: Option<&str>, port: u16) -> (out: Option<
    (String, Vec<String>),
>)
    ensures
        match out {
            Some((program, args)) => program@ == "node"@ && server_args(
                repo::text_of(built),
                repo::text_of(source),
                port as nat,
            ) == Some(text::texts(args@)),
            None => built is None && source is None,
        },
{
    match built {
        Some(path) => {
            let empty: Vec<String> = Vec::new();
            assert(text::texts(empty@) =~= seq![]);
            let args: Vec<String> = with_port(text::pushed(empty, path), port);
            assert(text::texts(args@) =~= seq![
                path@,
                "web"@,
                "--port"@,
                digits::decimal(port as nat),
                "--no-open"@,
            ]);
            Some(("node".to_string(), args))
        },
        None => match source {
            Some(path) => {
                let args: Vec<String> = with_port(
                    text::three("--import", "tsx/esm", path),
                    port,
                );
                assert(text::texts(args@) =~= seq![
                    "--import"@,
                    "tsx/esm"@,
                    path@,
                    "web"@,
                    "--port"@,
                    digits::decimal(port as nat),
                    "--no-open"@,
                ]);
                Some(("node".to_string(), args))
            },
            None => None,
        },
    }
}

/// The message speaks of a port that another process has.
pub open spec fn tells_of_port_in_use(message: Seq<char>) -> bool {
    ||| text::has_text(text::lowered(message), "eaddrinuse"@)
    ||| text::has_text(text::lowered(message), "address already in use"@)
}

/// Whether the message speaks of a port that another process has.
pub fn looks_like_port_in_use(msg: &str) -> (out: bool)
    ensures
        out == tells_of_port_in_use(msg@),
{
    text::lower_contains(msg, "eaddrinuse") || text::lower_contains(msg, "address already in use")
}

/// The lines that were kept, as one text.
pub fn tail_text(log_tail: &Vec<String>) -> (out: String)
    ensures
        out@ == text::joined(text::texts(log_tail@), "\n"@),
{
    text::join(log_tail, "\n")
}

/// Where the repository has no entry to start the server by.
pub fn no_entry(repo: &str) -> (out: String)
    ensures
        out@ == "在 "@ + repo@
            + " 找不到 apps/cli 入口（lib/bin.js 或 src/bin.ts），请先在仓库执行 pnpm install 并构建"@,
{
    let mut out: String = "在 ".to_string();
    out.append(repo);
    out.append(
        " 找不到 apps/cli 入口（lib/bin.js 或 src/bin.ts），请先在仓库执行 pnpm install 并构建",
    );
    out
}

/// Where the program could not be started.
pub fn not_started(program: &str, error: &str) -> (out: String)
    ensures
        out@ == "无法启动 "@ + program@ + ": "@ + error@
            + "\n请确认 Node.js 已安装且在 PATH 中"@,
{
    let mut out: String = "无法启动 ".to_string();
    out.append(program);
    out.append(": ");
    out.append(error);
    out.append("\n请确认 Node.js 已安装且在 PATH 中");
    out
}

/// The port that a line tells, where it tells that the server is ready.
pub open spec fn ready_port(line: Seq<char>) -> Option<nat> {
    match text::first_occurrence(line, URL_LINE@) {
        Some(at) => digits::number_in(
            text::head(line.skip(at + URL_LINE@.len()), seq![',', ' ', ')']),
            65535,
        ),
        None => None,
    }
}

/// The port that a line tells, where it tells that the server is ready.
pub fn find_ready_port(line: &str) -> (out: Option<u16>)
    ensures
        match out {
            Some(port) => ready_port(line@) == Some(port as nat),
            None => ready_port(line@) is None,
        },
{
    match text::find(line, URL_LINE) {
        None => None,
        Some(at) => {
            let stops: Vec<char> = vec![',', ' ', ')'];
            assert(stops@ =~= seq![',', ' ', ')']);
            let width: usize = URL_LINE.unicode_len();
            let len: usize = line.unicode_len();
            proof {
                text::lemma_first_occurrence(line@, URL_LINE@);
            }
            let rest: &str = text::after(line, at + width);
            match digits::parse_number(text::first_piece(rest, &stops), 65535) {
                Some(port) => Some(port as u16),
                None => None,
            }
        },
    }
}

/// The lines that are kept once `line` was printed: the newest ones.
pub open spec fn kept(lines: Seq<Seq<char>>, line: Seq<char>) -> Seq<Seq<char>> {
    let all = lines.push(line);
    if all.len() > LOG_LINES {
        all.drop_first()
    } else {
        all
    }
}

/// The server did not become ready in time.
pub open spec fn late_message(lines: Seq<Seq<char>>) -> Seq<char> {
    "服务器 60 秒内未就绪。最近日志：\n"@ + text::joined(lines, "\n"@)
}

/// The server ended before it was ready.
pub open spec fn ended_message(code: Option<i32>, lines: Seq<Seq<char>>) -> Seq<char> {
    "服务器进程提前退出（退出码 "@ + (match code {
        Some(c) => digits::signed_decimal(c as int),
        None => "未知"@,
    }) + "）。最近日志：\n"@ + text::joined(lines, "\n"@)
}

/// What starting the server asks for.
#[derive(Debug)]
pub enum StartAction {
    /// Start the process with this port, and note its number.
    Launch(u16),
    /// Wait for the next line of its output, as long as there is time.
    Listen,
    /// End the process, and say the code that it ended with.
    Abort,
    /// The server is ready: let the window go to this port, and hand on the address.
    Ready { port: u16, url: String },
    /// The server could not be started, for this reason.
    Fail(String),
    /// The end was reached before.
    Nothing,
}

/// `StartAction` as plain values.
pub enum StartActionView {
    Launch(int),
    Listen,
    Abort,
    Ready { port: int, url: Seq<char> },
    Fail(Seq<char>),
    Nothing,
}

impl View for StartAction {
    type V = StartActionView;

    open spec fn view(&self) -> StartActionView {
        match *self {
            StartAction::Launch(port) => StartActionView::Launch(port as int),
            StartAction::Listen => StartActionView::Listen,
            StartAction::Abort => StartActionView::Abort,
            StartAction::Ready { port, url } => StartActionView::Ready {
                port: port as int,
                url: url@,
            },
            StartAction::Fail(message) => StartActionView::Fail(message@),
            StartAction::Nothing => StartActionView::Nothing,
        }
    }
}

/// What came of it.
#[derive(Debug)]
pub struct StartReply {
    /// Why the process could not be started.
    pub error: Option<String>,
    /// The line that was printed.
    pub line: Option<String>,
    /// Where no line was printed: the output has ended, and not the time.
    pub closed: bool,
    /// The code that the process ended with.
    pub code: Option<i32>,
}

/// `StartReply` as plain values.
pub struct StartReplyView {
    pub error: Option<Seq<char>>,
    pub line: Option<Seq<char>>,
    pub closed: bool,
    pub code: Option<i32>,
}

impl View for StartReply {
    type V = StartReplyView;

    open spec fn view(&self) -> StartReplyView {
        StartReplyView {
            error: text::content(self.error),
            line: text::content(self.line),
            closed: self.closed,
            code: self.code,
        }
    }
}

/// What the start waits for.
#[derive(Clone, Copy, Debug, PartialEq, Eq, Structural)]
pub enum StartPhase {
    /// The process is being started.
    Launch,
    /// The next line is being waited for.
    Listen,
    /// The process is being ended, since the time is over.
    AbortLate,
    /// The process is being ended, since its output has ended.
    AbortEnded,
    /// The end.
    Done,
}

/// A start under way.
pub struct StartRun {
    phase: StartPhase,
    port: u16,
    lines: Vec<String>,
}

/// `StartRun` as plain values.
pub struct StartView {
    /// What it waits for.
    pub phase: StartPhase,
    /// The port that the process was started with.
    pub port: int,
    /// The newest lines of its output.
    pub lines: Seq<Seq<char>>,
}

impl View for StartRun {
    type V = StartView;

    closed spec fn view(&self) -> StartView {
        StartView {
            phase: self.phase,
            port: self.port as int,
            lines: text::texts(self.lines@),
        }
    }
}

/// A try has failed. Where a certain port was asked for and another process has it, the system
/// is left to pick one.
pub open spec fn after_failure(run: StartView, message: Seq<char>) -> (StartView, StartActionView) {
    if run.port != 0 && tells_of_port_in_use(message) {
        (
            StartView { phase: StartPhase::Launch, port: 0, lines: seq![] },
            StartActionView::Launch(0),
        )
    } else {
        (StartView { phase: StartPhase::Done, ..run }, StartActionView::Fail(message))
    }
}

/// The process was to be started.
pub open spec fn after_launch(run: StartView, reply: StartReplyView) -> (
    StartView,
    StartActionView,
) {
    match reply.error {
        Some(message) => after_failure(run, message),
        None => (StartView { phase: StartPhase::Listen, ..run }, StartActionView::Listen),
    }
}

/// A line was printed, or the output or the time has ended.
pub open spec fn after_listen(run: StartView, reply: StartReplyView) -> (
    StartView,
    StartActionView,
) {
    match reply.line {
        Some(line) => {
            let heard = StartView { lines: kept(run.lines, line), ..run };
            match ready_port(line) {
                Some(port) => (
                    StartView { phase: StartPhase::Done, ..heard },
                    StartActionView::Ready { port: port as int, url: nav::service_url(port) },
                ),
                None => (heard, StartActionView::Listen),
            }
        },
        None => if reply.closed {
            (StartView { phase: StartPhase::AbortEnded, ..run }, StartActionView::Abort)
        } else {
            (StartView { phase: StartPhase::AbortLate, ..run }, StartActionView::Abort)
        },
    }
}

/// Where the start goes on from what came back, and what it asks for next.
pub open spec fn next(run: StartView, reply: StartReplyView) -> (StartView, StartActionView) {
    match run.phase {
        StartPhase::Launch => after_launch(run, reply),
        StartPhase::Listen => after_listen(run, reply),
        StartPhase::AbortLate => after_failure(run, late_message(run.lines)),
        StartPhase::AbortEnded => after_failure(run, ended_message(reply.code, run.lines)),
        StartPhase::Done => (run, StartActionView::Nothing),
    }
}

fn write_late(lines: &Vec<String>) -> (out: String)
    ensures
        out@ == late_message(text::texts(lines@)),
{
    let mut out: String = "服务器 60 秒内未就绪。最近日志：\n".to_string();
    out.append(tail_text(lines).as_str());
    out
}

fn write_ended(code: Option<i32>, lines: &Vec<String>) -> (out: String)
    ensures
        out@ == ended_message(code, text::texts(lines@)),
{
    let number: String = match code {
        Some(c) => digits::write_signed(c),
        None => "未知".to_string(),
    };
    let mut out: String = "服务器进程提前退出（退出码 ".to_string();
    out.append(number.as_str());
    out.append("）。最近日志：\n");
    out.append(tail_text(lines).as_str());
    out
}

fn write_url(port: u16) -> (out: String)
    ensures
        out@ == nav::service_url(port as nat),
{
    let mut out: String = "http://127.0.0.1:".to_string();
    out.append(digits::write_decimal(port as u64).as_str());
    out
}

impl StartRun {
    /// A start begins, with the port that is wanted.
    pub fn start(preferred_port: u16) -> (out: (StartRun, StartAction))
        ensures
            out.0@ == (StartView {
                phase: StartPhase::Launch,
                port: preferred_port as int,
                lines: seq![],
            }),
            out.1@ == StartActionView::Launch(preferred_port as int),
    {
        let run = StartRun { phase: StartPhase::Launch, port: preferred_port, lines: Vec::new() };
        assert(run@.lines =~= seq![]);
        (run, StartAction::Launch(preferred_port))
    }

    fn fail(&mut self, message: String) -> (out: StartAction)
        ensures
            (final(self)@, out@) == after_failure(old(self)@, message@),
    {
        if self.port != 0 && looks_like_port_in_use(message.as_str()) {
            self.phase = StartPhase::Launch;
            self.port = 0;
            self.lines = Vec::new();
            assert(self@.lines =~= seq![]);
            StartAction::Launch(0)
        } else {
            self.phase = StartPhase::Done;
            StartAction::Fail(message)
        }
    }

    fn keep(&mut self, line: &str)
        ensures
            final(self)@ == (StartView { lines: kept(old(self)@.lines, line@), ..old(self)@ }),
    {
        let ghost before = text::texts(self.lines@);
        self.lines.push(line.to_string());
        assert(text::texts(self.lines@) =~= before.push(line@));
        if self.lines.len() > LOG_LINES {
            let _ = self.lines.remove(0);
            assert(text::texts(self.lines@) =~= before.push(line@).drop_first());
        }
    }

    fn on_line(&mut self, line: String) -> (out: StartAction)
        requires
            old(self)@.phase is Listen,
        ensures
            (final(self)@, out@) == after_listen(
                old(self)@,
                StartReplyView { error: None, line: Some(line@), closed: false, code: None },
            ),
    {
        self.keep(line.as_str());
        match find_ready_port(line.as_str()) {
            Some(port) => {
                self.phase = StartPhase::Done;
                StartAction::Ready { port, url: write_url(port) }
            },
            None => StartAction::Listen,
        }
    }

    /// Takes what came of it, and says what to do next.
    pub fn advance(&mut self, reply: StartReply) -> (out: StartAction)
        ensures
            (final(self)@, out@) == next(old(self)@, reply@),
    {
        match self.phase {
            StartPhase::Launch => match reply.error {
                Some(message) => self.fail(message),
                None => {
                    self.phase = StartPhase::Listen;
                    StartAction::Listen
                },
            },
            StartPhase::Listen => match reply.line {
                Some(line) => self.on_line(line),
                None => {
                    self.phase = if reply.closed {
                        StartPhase::AbortEnded
                    } else {
                        StartPhase::AbortLate
                    };
                    StartAction::Abort
                },
            },
            StartPhase::AbortLate => {
                let message: String = write_late(&self.lines);
                self.fail(message)
            },
            StartPhase::AbortEnded => {
                let message: String = write_ended(reply.code, &self.lines);
                self.fail(message)
            },
            StartPhase::Done => StartAction::Nothing,
        }
    }
}

/// How many milliseconds are left to wait once so many have passed.
pub fn time_left(elapsed_ms: u64) -> (left: u64)
    ensures
        left == (if elapsed_ms >= START_TIMEOUT_MS {
            0
        } else {
            START_TIMEOUT_MS - elapsed_ms
        }),
{
    if elapsed_ms >= START_TIMEOUT_MS {
        0
    } else {
        START_TIMEOUT_MS - elapsed_ms
    }
}

/// What the file with the number of a server's process says.
#[derive(Clone, Copy, Debug, PartialEq, Eq, Structural)]
pub enum StaleServer {
    /// There is no file: nothing to do.
    NoFile,
    /// It holds no number: remove it.
    NotANumber,
    /// See whether this process is a server that was left behind, and remove the file.
    Process(u32),
}

/// What the file with the number of a server's process says.
pub fn cleanup_stale_server(text: Option<&str>) -> (out: StaleServer)
    ensures
        match text {
            None => out is NoFile,
            Some(t) => match digits::number_in(text::stripped(t@), u32::MAX as nat) {
                Some(pid) => out matches StaleServer::Process(p) && p == pid,
                None => out is NotANumber,
            },
        },
{
    match text {
        None => StaleServer::NoFile,
        Some(t) => match digits::parse_number(text::trim(t), u32::MAX) {
            Some(pid) => StaleServer::Process(pid),
            None => StaleServer::NotANumber,
        },
    }
}

/// Column `at` of a line of values in quotation marks.
pub open spec fn csv_column(line: Seq<char>, at: int) -> Seq<char> {
    text::trimmed(text::fields(line, "\",\""@)[at], seq!['"'])
}

/// The line tells of a Node.js process with this number.
pub open spec fn names_node(line: Seq<char>, pid: nat) -> bool {
    &&& text::fields(line, "\",\""@).len() >= 2
    &&& text::lowered(csv_column(line, 0)) == text::lowered("node.exe"@)
    &&& csv_column(line, 1) == digits::decimal(pid)
}

/// One of the lines tells of a Node.js process with this number.
pub open spec fn any_names_node(lines: Seq<Seq<char>>, pid: nat) -> bool {
    exists|i: int| 0 <= i < lines.len() && #[trigger] names_node(lines[i], pid)
}

fn line_names_node(line: &str, want: &str, pid: u32) -> (out: bool)
    requires
        want@ == digits::decimal(pid as nat),
    ensures
        out == names_node(line@, pid as nat),
{
    let quote: Vec<char> = vec!['"'];
    assert(quote@ =~= seq!['"']);
    proof {
        reveal_strlit("\",\"");
    }
    let columns: Vec<String> = text::split_text(line, "\",\"");
    let ghost views = text::fields(line@, "\",\""@);
    assert(views == text::texts(columns@));
    if columns.len() < 2 {
        return false;
    }
    assert(views[0] == columns@[0]@);
    assert(views[1] == columns@[1]@);
    let name: &str = text::trim_set(columns[0].as_str(), &quote);
    let number: &str = text::trim_set(columns[1].as_str(), &quote);
    text::same_but_case(name, "node.exe") && text::same(number, want)
}

/// Whether the list of processes holds a Node.js process with exactly this number.
pub fn pid_is_node(csv: &str, pid: u32) -> (out: bool)
    ensures
        out == any_names_node(text::lines_of(csv@), pid as nat),
{
    let want: String = digits::write_decimal(pid as u64);
    let lines: Vec<String> = text::lines(csv);
    let ghost views = text::lines_of(csv@);
    let mut i: usize = 0;
    while i < lines.len()
        invariant
            i <= lines@.len(),
            views == text::texts(lines@),
            views == text::lines_of(csv@),
            want@ == digits::decimal(pid as nat),
            forall|j: int| 0 <= j < i ==> !#[trigger] names_node(views[j], pid as nat),
        decreases lines@.len() - i,
    {
        assert(views[i as int] == lines@[i as int]@);
        if line_names_node(lines[i].as_str(), want.as_str(), pid) {
            assert(names_node(views[i as int], pid as nat));
            return true;
        }
        i = i + 1;
    }
    false
}

/// Whether the list of processes that was printed holds a Node.js process with exactly this
/// number.
pub fn output_names_node(stdout: &Vec<u8>, pid: u32) -> (out: bool)
    ensures
        out == any_names_node(text::lines_of(unicode::lossy_text(stdout@)), pid as nat),
{
    let csv: String = unicode::decode(stdout);
    pid_is_node(csv.as_str(), pid)
}

/// The arguments that ask for the process with this number.
pub fn list_process_args(pid: u32) -> (out: Vec<String>)
    ensures
        text::texts(out@) == seq![
            "/FI"@,
            "PID eq "@ + digits::decimal(pid as nat),
            "/FO"@,
            "CSV"@,
            "/NH"@,
        ],
{
    let mut filter: String = "PID eq ".to_string();
    filter.append(digits::write_decimal(pid as u64).as_str());
    let out: Vec<String> = text::pushed(text::four("/FI", filter.as_str(), "/FO", "CSV"), "/NH");
    assert(text::texts(out@) =~= seq![
        "/FI"@,
        "PID eq "@ + digits::decimal(pid as nat),
        "/FO"@,
        "CSV"@,
        "/NH"@,
    ]);
    out
}

/// The arguments that end the process with this number and those that it started.
pub fn kill_args(pid: u32) -> (out: Vec<String>)
    ensures
        text::texts(out@) == seq!["/pid"@, digits::decimal(pid as nat), "/T"@, "/F"@],
{
    let number: String = digits::write_decimal(pid as u64);
    text::four("/pid", number.as_str(), "/T", "/F")
}

/// Whether the server ended by itself: there is a process that is watched, and it has ended.
/// A server that was stopped is watched no longer.
pub fn server_died(child_ended: Option<bool>) -> (out: bool)
    ensures
        out == (child_ended == Some(true)),
{
    match child_ended {
        Some(e) => e,
        None => false,
    }
}

/// Where a start stands once it was told `replies`.
pub open spec fn state_after(start: StartView, replies: Seq<StartReplyView>) -> StartView
    decreases replies.len(),
{
    if replies.len() == 0 {
        start
    } else {
        next(state_after(start, replies.drop_last()), replies.last()).0
    }
}

/// How many times the process was started once a start was told `replies`.
pub open spec fn launches(start: StartView, replies: Seq<StartReplyView>) -> nat
    decreases replies.len(),
{
    if replies.len() == 0 {
        1
    } else {
        launches(start, replies.drop_last()) + if next(
            state_after(start, replies.drop_last()),
            replies.last(),
        ).1 is Launch {
            1nat
        } else {
            0nat
        }
    }
}

/// The process is started at most twice, and only once where the system picks the port.
pub proof fn at_most_two_tries(port: u16, replies: Seq<StartReplyView>)
    ensures
        ({
            let start = StartView { phase: StartPhase::Launch, port: port as int, lines: seq![] };
            &&& launches(start, replies) <= 2
            &&& port == 0 ==> launches(start, replies) == 1
        }),
{
    lemma_tries(
        StartView { phase: StartPhase::Launch, port: port as int, lines: seq![] },
        replies,
    );
}

proof fn lemma_tries(start: StartView, replies: Seq<StartReplyView>)
    ensures
        start.port == 0 ==> launches(start, replies) == 1 && state_after(start, replies).port == 0,
        start.port != 0 ==> launches(start, replies) == (if state_after(start, replies).port == 0 {
            2nat
        } else {
            1nat
        }),
    decreases replies.len(),
{
    if replies.len() > 0 {
        lemma_tries(start, replies.drop_last());
    }
}

/// The second try is made only where a certain port was asked for and the message of the first
/// try speaks of a port that another process has.
pub proof fn second_try_needs_a_port_in_use(run: StartView, reply: StartReplyView)
    ensures
        next(run, reply).1 matches StartActionView::Launch(port) ==> {
            &&& port == 0
            &&& run.port != 0
            &&& next(run, reply).0.port == 0
            &&& match run.phase {
                StartPhase::Launch => reply.error is Some && tells_of_port_in_use(
                    reply.error->0,
                ),
                StartPhase::AbortLate => tells_of_port_in_use(late_message(run.lines)),
                StartPhase::AbortEnded => tells_of_port_in_use(
                    ended_message(reply.code, run.lines),
                ),
                _ => false,
            }
        },
        run.port == 0 ==> next(run, reply).0.port == 0,
{
}

/// A start is told ready only by a line of the process, and the address that it hands on is
/// that of the port in this line.
pub proof fn ready_means_a_line_said_so(run: StartView, reply: StartReplyView, port: int, url: Seq<char>)
    requires
        next(run, reply).1 == (StartActionView::Ready { port, url }),
    ensures
        run.phase is Listen,
        reply.line is Some,
        0 <= port <= 65535,
        ready_port(reply.line->0) == Some(port as nat),
        url == nav::service_url(port as nat),
{
    lemma_ready_port_fits(reply.line->0);
}

proof fn lemma_ready_port_fits(line: Seq<char>)
    ensures
        ready_port(line) matches Some(port) ==> port <= 65535,
{
}

/// Once its port is registered, the window may go to the address of a server that is ready.
pub proof fn ready_address_may_be_shown(run: StartView, reply: StartReplyView, port: u16, url: Seq<char>, ports: Set<u16>)
    requires
        next(run, reply).1 == (StartActionView::Ready { port: port as int, url }),
    ensures
        nav::may_visit(ports.insert(port), url),
{
    ready_means_a_line_said_so(run, reply, port as int, url);
    nav::registered_service_is_shown(ports.insert(port), port, seq![]);
    assert(nav::service_url(port as nat) + seq![] =~= nav::service_url(port as nat));
}

/// The replies that hand on lines.
pub open spec fn line_replies(lines: Seq<Seq<char>>) -> Seq<StartReplyView> {
    lines.map_values(
        |line: Seq<char>|
            StartReplyView { error: None, line: Some(line), closed: false, code: None },
    )
}

/// As long as no line says that the server is ready the start listens on, and however much
/// the process prints, the newest 400 lines are kept, in their order.
pub proof fn newest_lines_are_kept(port: int, lines: Seq<Seq<char>>)
    requires
        forall|i: int| 0 <= i < lines.len() ==> ready_port(#[trigger] lines[i]) is None,
    ensures
        ({
            let start = StartView { phase: StartPhase::Listen, port, lines: seq![] };
            state_after(start, line_replies(lines)) == (StartView {
                lines: repo::last_of(lines, LOG_LINES as int),
                ..start
            })
        }),
    decreases lines.len(),
{
    let start = StartView { phase: StartPhase::Listen, port, lines: seq![] };
    if lines.len() > 0 {
        let before = lines.drop_last();
        newest_lines_are_kept(port, before);
        assert(line_replies(lines).drop_last() =~= line_replies(before));
        assert(kept(repo::last_of(before, LOG_LINES as int), lines.last()) =~= repo::last_of(
            lines,
            LOG_LINES as int,
        ));
    } else {
        assert(line_replies(lines) =~= seq![]);
        assert(repo::last_of(lines, LOG_LINES as int) =~= seq![]);
    }
}

/// The line with which the server tells its port is understood, whatever stands before it and
/// whichever port was asked for: the start is over, and the address is that of the port told.
pub proof fn told_port_is_the_one_that_counts(
    run: StartView,
    reply: StartReplyView,
    before: Seq<char>,
    port: u16,
    after: Seq<char>,
)
    requires
        run.phase is Listen,
        reply.line == Some(
            before + "dsh web: http://127.0.0.1:"@ + (digits::decimal(port as nat) + after),
        ),
        forall|i: int|
            0 <= i < before.len() ==> !text::occurs_at(
                reply.line->0,
                "dsh web: http://127.0.0.1:"@,
                i,
            ),
        after.len() == 0 || after[0] == ',' || after[0] == ' ' || after[0] == ')',
    ensures
        next(run, reply).1 == (StartActionView::Ready {
            port: port as int,
            url: "http://127.0.0.1:"@ + digits::decimal(port as nat),
        }),
        next(run, reply).0.phase is Done,
{
    let mark = "dsh web: http://127.0.0.1:"@;
    let number = digits::decimal(port as nat);
    let line = reply.line->0;
    let rest = number + after;
    let stops = seq![',', ' ', ')'];
    assert(line.subrange(before.len() as int, (before.len() + mark.len()) as int) =~= mark);
    text::lemma_first_occurrence_is(line, mark, before.len() as int);
    assert(line.skip((before.len() + mark.len()) as int) =~= rest);
    digits::decimal_is_digits(port as nat);
    digits::decimal_reads_back(port as nat, 65535);
    assert(stops[0] == ',' && stops[1] == ' ' && stops[2] == ')');
    assert forall|i: int| 0 <= i < number.len() implies !stops.contains(#[trigger] rest[i]) by {
        assert(rest[i] == number[i]);
        assert(digits::is_digit(number[i]));
    }
    if after.len() > 0 {
        assert(rest[number.len() as int] == after[0]);
    }
    text::lemma_stop_at_is(rest, stops, number.len() as int);
    assert(rest.take(number.len() as int) =~= number);
}

/// Where a line tells a port, the start is over at once, whatever port was asked for.
pub proof fn ready_lines_are_never_passed_over(run: StartView, reply: StartReplyView, port: nat)
    requires
        run.phase is Listen,
        reply.line is Some,
        ready_port(reply.line->0) == Some(port),
    ensures
        next(run, reply).1 == (StartActionView::Ready {
            port: port as int,
            url: "http://127.0.0.1:"@ + digits::decimal(port),
        }),
{
}

/// Every other line is kept and listened past; where the output or the time ends, the process
/// is ended, and a process that was started is listened to.
pub proof fn other_lines_are_listened_past(run: StartView, reply: StartReplyView)
    ensures
        run.phase is Listen && reply.line is Some && !text::has_text(
            reply.line->0,
            "dsh web: http://127.0.0.1:"@,
        ) ==> next(run, reply).1 is Listen && next(run, reply).0.phase is Listen && next(
            run,
            reply,
        ).0.lines.len() > 0 && next(run, reply).0.lines.last() == reply.line->0,
        run.phase is Listen && reply.line is None ==> next(run, reply).1 is Abort && next(
            run,
            reply,
        ).0.lines == run.lines,
        run.phase is Listen && reply.line is None && reply.closed ==> next(run, reply).0.phase
            is AbortEnded,
        run.phase is Listen && reply.line is None && !reply.closed ==> next(run, reply).0.phase
            is AbortLate,
        run.phase is Launch && reply.error is None ==> next(run, reply).1 is Listen && next(
            run,
            reply,
        ).0.phase is Listen,
        next(run, reply).1 is Launch || next(run, reply).0.port == run.port,
{
    if reply.line is Some {
        text::lemma_first_occurrence(reply.line->0, "dsh web: http://127.0.0.1:"@);
    }
}

/// A message that holds one of the two phrases, in whatever case, speaks of a port in use.
pub proof fn port_in_use_is_recognised(msg: &str, out: bool, part: Seq<char>)
    requires
        call_ensures(looks_like_port_in_use, (msg,), out),
        text::has_text(msg@, part),
        text::lowered(part) == "eaddrinuse"@ || text::lowered(part) == "address already in use"@,
    ensures
        out,
{
    text::lower_case_keeps_parts(msg@, part);
}

proof fn lemma_message_holds_the_lines(run: StartView, code: Option<i32>, i: int)
    requires
        0 <= i < run.lines.len(),
    ensures
        text::has_text(late_message(run.lines), run.lines[i]),
        text::has_text(ended_message(code, run.lines), run.lines[i]),
{
    let none: Seq<char> = seq![];
    let all = text::joined(run.lines, "\n"@);
    text::joined_texts_stand_in_the_whole(run.lines, "\n"@, i);
    let late = "服务器 60 秒内未就绪。最近日志：\n"@;
    text::part_stands_between(late, all, none);
    assert(late + all + none =~= late_message(run.lines));
    text::parts_of_parts_stand_in_the_text(late_message(run.lines), all, run.lines[i]);
    let number = match code {
        Some(c) => digits::signed_decimal(c as int),
        None => "未知"@,
    };
    let ended = "服务器进程提前退出（退出码 "@ + number + "）。最近日志：\n"@;
    text::part_stands_between(ended, all, none);
    assert(ended + all + none =~= ended_message(code, run.lines));
    text::parts_of_parts_stand_in_the_text(ended_message(code, run.lines), all, run.lines[i]);
}

/// Where the process has said in one of its lines that the port is taken, and a certain port
/// was asked for, it is started once more with a port of the system's choice, and listened to
/// from the beginning.
pub proof fn taken_port_is_given_up(run: StartView, reply: StartReplyView, i: int, part: Seq<char>)
    requires
        run.phase is AbortEnded || run.phase is AbortLate,
        run.port != 0,
        0 <= i < run.lines.len(),
        text::has_text(run.lines[i], part),
        text::lowered(part) == "eaddrinuse"@ || text::lowered(part) == "address already in use"@,
    ensures
        next(run, reply).1 == StartActionView::Launch(0),
        next(run, reply).0.port == 0,
        next(run, reply).0.phase is Launch,
        next(run, reply).0.lines.len() == 0,
{
    lemma_message_holds_the_lines(run, reply.code, i);
    text::parts_of_parts_stand_in_the_text(late_message(run.lines), run.lines[i], part);
    text::parts_of_parts_stand_in_the_text(
        ended_message(reply.code, run.lines),
        run.lines[i],
        part,
    );
    text::lower_case_keeps_parts(late_message(run.lines), part);
    text::lower_case_keeps_parts(ended_message(reply.code, run.lines), part);
}

/// Where it was left to the system to pick the port, or nothing speaks of a port in use, the
/// start has failed, and the message tells why: what kept the process from starting, that the
/// time is over, or the code that it ended with, and its newest lines.
pub proof fn failed_start_tells_why(run: StartView, reply: StartReplyView)
    ensures
        ({
            let (later, new) = next(run, reply);
            let lines = text::joined(run.lines, "\n"@);
            let message = if run.phase is Launch {
                reply.error->0
            } else if run.phase is AbortLate {
                "服务器 60 秒内未就绪。最近日志：\n"@ + lines
            } else {
                "服务器进程提前退出（退出码 "@ + (match reply.code {
                    Some(c) => digits::signed_decimal(c as int),
                    None => "未知"@,
                }) + "）。最近日志：\n"@ + lines
            };
            let over = run.phase is Launch && reply.error is Some || run.phase is AbortLate
                || run.phase is AbortEnded;
            let taken = text::has_text(text::lowered(message), "eaddrinuse"@) || text::has_text(
                text::lowered(message),
                "address already in use"@,
            );
            &&& over && (run.port == 0 || !taken) ==> new == StartActionView::Fail(message)
                && later.phase is Done
            &&& over && run.port != 0 && taken ==> new == StartActionView::Launch(0)
        }),
{
}

/// The server is started by its built entry, and by its source only where there is no built
/// one; it gets the port, and is told not to open a browser.
pub proof fn built_entry_goes_first(
    built: Option<&str>,
    source: Option<&str>,
    port: u16,
    out: Option<(String, Vec<String>)>,
)
    requires
        call_ensures(server_command, (built, source, port), out),
    ensures
        (out is None) == (built is None && source is None),
        out matches Some((program, args)) ==> program@ == "node"@,
        built is Some ==> (out matches Some((program, args)) && text::texts(args@) == seq![
            built->0@,
            "web"@,
            "--port"@,
            digits::decimal(port as nat),
            "--no-open"@,
        ]),
        built is None && source is Some ==> (out matches Some((program, args)) && text::texts(
            args@,
        ) == seq![
            "--import"@,
            "tsx/esm"@,
            source->0@,
            "web"@,
            "--port"@,
            digits::decimal(port as nat),
            "--no-open"@,
        ]),
{
}

/// The time that is left and the time that has passed make up one minute, until it is over.
pub proof fn a_minute_is_waited(elapsed: u64, left: u64)
    requires
        call_ensures(time_left, (elapsed,), left),
    ensures
        elapsed <= 60_000 ==> left + elapsed == 60_000,
        elapsed > 60_000 ==> left == 0,
{
}

/// A number in the file, with or without white space around it, is a process to look at; a
/// blank file holds none, and without a file there is nothing to do.
pub proof fn noted_process_is_found(
    text: Option<&str>,
    out: StaleServer,
    before: Seq<char>,
    pid: u32,
    after: Seq<char>,
)
    requires
        call_ensures(cleanup_stale_server, (text,), out),
        forall|i: int| 0 <= i < before.len() ==> text::white_space().contains(#[trigger] before[i]),
        forall|i: int| 0 <= i < after.len() ==> text::white_space().contains(#[trigger] after[i]),
    ensures
        text is None ==> out is NoFile,
        text is Some && text->0@ == before + digits::decimal(pid as nat) + after ==> out
            == StaleServer::Process(pid),
        text is Some && text->0@ == before + after ==> out is NotANumber,
{
    let number = digits::decimal(pid as nat);
    digits::decimal_is_digits(pid as nat);
    digits::decimal_reads_back(pid as nat, u32::MAX as nat);
    assert(digits::is_digit(number[0]) && digits::is_digit(number[number.len() - 1]));
    text::visible_characters_are_no_white_space(number[0]);
    text::visible_characters_are_no_white_space(number.last());
    text::white_space_around_is_removed(before, number, after);
    let none: Seq<char> = seq![];
    text::white_space_around_is_removed(before, none, after);
    assert(before + none + after =~= before + after);
}

/// A line of the list of processes tells of the Node.js process with this number exactly where
/// its first column is `node.exe`, in whatever case, and its second column is the whole number.
pub proof fn process_is_known_by_name_and_number(
    name: Seq<char>,
    listed: nat,
    rest: Seq<char>,
    pid: nat,
)
    requires
        name.len() > 0,
        name[0] != ',',
        forall|i: int| 0 <= i < name.len() ==> #[trigger] name[i] != '"',
    ensures
        names_node(
            seq!['"'] + name + "\",\""@ + (digits::decimal(listed) + "\",\""@ + rest),
            pid,
        ) == (text::lowered(name) == "node.exe"@ && listed == pid),
{
    let glue = "\",\""@;
    let number = digits::decimal(listed);
    reveal_strlit("\",\"");
    reveal_strlit("node.exe");
    assert(text::lowered("node.exe"@) =~= "node.exe"@);
    digits::decimal_is_digits(listed);
    digits::decimal_is_digits(pid);
    let first = seq!['"'] + name;
    let second = number + glue + rest;
    let line = first + glue + second;
    assert forall|i: int| 0 <= i < first.len() implies !text::occurs_at(line, glue, i) by {
        if text::occurs_at(line, glue, i) {
            let piece = line.subrange(i, i + glue.len());
            assert(piece[0] == line[i] && piece[1] == line[i + 1]);
            assert(line[i] == first[i]);
            if i > 0 {
                assert(first[i] == name[i - 1]);
            } else {
                assert(line[1] == name[0]);
            }
        }
    }
    text::first_field_is_cut_off(first, glue, second);
    assert forall|i: int| 0 <= i < number.len() implies !text::occurs_at(second, glue, i) by {
        if text::occurs_at(second, glue, i) {
            let piece = second.subrange(i, i + glue.len());
            assert(piece[0] == second[i]);
            assert(second[i] == number[i]);
            assert(digits::is_digit(number[i]));
        }
    }
    text::first_field_is_cut_off(number, glue, rest);
    let all = text::fields(line, glue);
    assert(all[0] == first);
    assert(all[1] == number);
    let quote = seq!['"'];
    assert(quote[0] == '"');
    assert(first[0] == '"');
    assert(first[1] == name[0]);
    text::lemma_trimmed_start_is(first, quote, 1);
    assert(first.skip(1) =~= name);
    assert(name[name.len() - 1] != '"');
    text::lemma_trimmed_end_is(name, quote, name.len() as int);
    assert(name.take(name.len() as int) =~= name);
    assert(digits::is_digit(number[0]) && digits::is_digit(number[number.len() - 1]));
    text::lemma_trimmed_start_is(number, quote, 0);
    assert(number.skip(0) =~= number);
    text::lemma_trimmed_end_is(number, quote, number.len() as int);
    assert(number.take(number.len() as int) =~= number);
}

/// The list of processes names the process where one of its lines does, and not otherwise.
pub proof fn process_is_looked_for_in_every_line(csv: &str, pid: u32, out: bool, i: int)
    requires
        call_ensures(pid_is_node, (csv, pid), out),
        0 <= i < text::lines_of(csv@).len(),
    ensures
        names_node(text::lines_of(csv@)[i], pid as nat) ==> out,
        out ==> exists|j: int|
            0 <= j < text::lines_of(csv@).len() && #[trigger] names_node(
                text::lines_of(csv@)[j],
                pid as nat,
            ),
{
}

/// A server counts as dead only where a process is watched and has ended.
pub proof fn only_a_watched_process_dies(child_ended: Option<bool>, out: bool)
    requires
        call_ensures(server_died, (child_ended,), out),
    ensures
        child_ended is None ==> !out,
        child_ended matches Some(ended) ==> out == ended,
{
}

/// A start goes on as the last reply says.
pub proof fn run_takes_the_next_step(reply: StartReply, out: StartAction)
    ensures
        forall|run: &mut StartRun| #[trigger]
            call_ensures(StartRun::advance, (run, reply), out) ==> (final(run)@, out@) == next(
                (*run)@,
                reply@,
            ),
{
}

/// The lines of the log are told one below the other, each as it is.
pub proof fn told_lines_stand_below_each_other(lines: &Vec<String>, out: String)
    requires
        call_ensures(tail_text, (lines,), out),
        lines@.len() > 0,
        forall|i: int, k: int|
            0 <= i < lines@.len() && 0 <= k < lines@[i]@.len() ==> #[trigger] lines@[i]@[k] != '\n',
    ensures
        text::pieces(out@, seq!['\n']) == text::texts(lines@),
{
    reveal_strlit("\n");
    assert("\n"@ =~= seq!['\n']);
    let parts = text::texts(lines@);
    assert forall|i: int, k: int|
        0 <= i < parts.len() && 0 <= k < parts[i].len() implies #[trigger] parts[i][k] != '\n' by {
        assert(lines@[i]@[k] != '\n');
    }
    text::joined_texts_come_apart(parts, '\n');
}

/// A server that cannot be started is told with its place, or with the program and the reason.
pub proof fn missing_server_is_told(
    repo: &str,
    no: String,
    program: &str,
    error: &str,
    not: String,
)
    requires
        call_ensures(no_entry, (repo,), no),
        call_ensures(not_started, (program, error), not),
    ensures
        no@ == "在 "@ + repo@
            + " 找不到 apps/cli 入口（lib/bin.js 或 src/bin.ts），请先在仓库执行 pnpm install 并构建"@,
        not@ == "无法启动 "@ + program@ + ": "@ + error@
            + "\n请确认 Node.js 已安装且在 PATH 中"@,
{
}

/// A line that tells an address tells the port behind it, wherever the address stands; a line
/// without one tells none.
pub proof fn ready_port_stands_in_the_line(
    line: &str,
    out: Option<u16>,
    before: Seq<char>,
    port: u16,
    end: char,
    after: Seq<char>,
)
    requires
        call_ensures(find_ready_port, (line,), out),
    ensures
        !text::has_text(line@, "dsh web: http://127.0.0.1:"@) ==> out is None,
        line@ == before + "dsh web: http://127.0.0.1:"@ + (digits::decimal(port as nat) + seq![end]
            + after) && (end == ',' || end == ' ' || end == ')') && (forall|i: int|
            0 <= i < before.len() ==> !text::occurs_at(
                line@,
                "dsh web: http://127.0.0.1:"@,
                i,
            )) ==> out == Some(port),
{
    let mark = "dsh web: http://127.0.0.1:"@;
    text::lemma_first_occurrence(line@, mark);
    let told = digits::decimal(port as nat);
    if line@ == before + mark + (told + seq![end] + after) && (end == ',' || end == ' ' || end
        == ')') && (forall|i: int| 0 <= i < before.len() ==> !text::occurs_at(line@, mark, i)) {
        let at = before.len() as int;
        assert(line@.subrange(at, at + mark.len()) =~= mark);
        assert forall|i: int| 0 <= i < at implies !text::occurs_at(line@, mark, i) by {}
        text::lemma_first_occurrence_is(line@, mark, at);
        let rest = line@.skip(at + mark.len());
        assert(rest =~= told + seq![end] + after);
        let stops = seq![',', ' ', ')'];
        assert(stops[0] == ',' && stops[1] == ' ' && stops[2] == ')');
        digits::decimal_is_digits(port as nat);
        assert forall|i: int| 0 <= i < told.len() implies !stops.contains(#[trigger] told[i]) by {
            assert(digits::is_digit(told[i]));
        }
        text::first_piece_is_cut_off(told, end, after, stops);
        digits::decimal_reads_back(port as nat, 65535);
    }
}

/// The list of processes is asked for by number, and a process is ended with all that it
/// started.
pub proof fn processes_are_named_by_number(
    pid: u32,
    list: Vec<String>,
    end: Vec<String>,
    stdout: &Vec<u8>,
    named: bool,
    csv: &str,
    known: bool,
)
    requires
        call_ensures(list_process_args, (pid,), list),
        call_ensures(kill_args, (pid,), end),
        call_ensures(output_names_node, (stdout, pid), named),
        call_ensures(pid_is_node, (csv, pid), known),
        csv@ == unicode::lossy_text(stdout@),
    ensures
        text::texts(list@) == seq![
            "/FI"@,
            "PID eq "@ + digits::decimal(pid as nat),
            "/FO"@,
            "CSV"@,
            "/NH"@,
        ],
        text::texts(end@) == seq!["/pid"@, digits::decimal(pid as nat), "/T"@, "/F"@],
        named == known,
{
}

/// A line whose columns are not set apart names no process.
pub proof fn other_lines_name_no_process(csv: &str, pid: u32, out: bool)
    requires
        call_ensures(pid_is_node, (csv, pid), out),
        !text::has_text(csv@, "\",\""@),
        forall|i: int| 0 <= i < csv@.len() ==> #[trigger] csv@[i] != '\n',
    ensures
        !out,
{
    let mark = "\",\""@;
    let set = seq!['\n'];
    text::lemma_stop_at_is(csv@, set, csv@.len() as int);
    let lines = text::lines_of(csv@);
    assert(lines.len() <= 1);
    if lines.len() == 1 {
        assert(lines[0] == csv@);
        text::lemma_first_occurrence(csv@, mark);
        assert(text::fields(csv@, mark) =~= seq![csv@]);
        assert(!names_node(csv@, pid as nat));
    }
}

/// A start begins with the port that is wanted, which is 3080 where nothing else is said, and
/// with no lines.
pub proof fn start_begins_with_the_wanted_port(port: u16, out: (StartRun, StartAction))
    requires
        call_ensures(StartRun::start, (port,), out),
    ensures
        out.0@.phase is Launch,
        out.0@.port == port,
        out.0@.lines.len() == 0,
        out.1@ == StartActionView::Launch(port as int),
        port == DSH_PORT ==> out.0@.port == 3080,
{
}

/// Four hundred lines are kept: a new one goes to the end, and where there is no room the oldest
/// one goes.
pub proof fn oldest_line_makes_room(run: StartView, reply: StartReplyView)
    requires
        run.phase is Listen,
        reply.line is Some,
        run.lines.len() <= 400,
    ensures
        run.lines.len() < 400 ==> next(run, reply).0.lines == run.lines.push(reply.line->0),
        run.lines.len() == 400 ==> next(run, reply).0.lines == run.lines.skip(1).push(
            reply.line->0,
        ),
{
    assert(run.lines.len() == 400 ==> run.lines.push(reply.line->0).drop_first()
        =~= run.lines.skip(1).push(reply.line->0));
}

} // verus!
