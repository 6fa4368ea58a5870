use dsh_shell::nav::allowed;
use dsh_shell::server::{
    cleanup_stale_server, find_ready_port, kill_args, list_process_args, looks_like_port_in_use,
    no_entry, not_started, output_names_node, pid_is_node, server_command, server_died, tail_text, time_left,
    StaleServer, StartAction, StartReply, StartRun, DSH_PORT,
};

fn list(items: &[&str]) -> Vec<String> {
    items.iter().map(|s| s.to_string()).collect()
}

fn done() -> StartReply {
    StartReply { error: None, line: None, closed: false, code: None }
}

fn line(text: &str) -> StartReply {
    StartReply { line: Some(text.to_string()), ..done() }
}

fn closed() -> StartReply {
    StartReply { closed: true, ..done() }
}

fn code(code: Option<i32>) -> StartReply {
    StartReply { code, ..done() }
}

#[test]
fn detects_port_in_use_output() {
    assert!(looks_like_port_in_use("Error: listen EADDRINUSE: address already in use :::3080"));
    assert!(looks_like_port_in_use("EADDRINUSE"));
    assert!(!looks_like_port_in_use("服务器 60 秒内未就绪"));
}

#[test]
fn pid_match_is_column_exact() {
    let csv = "\"node.exe\",\"1234\",\"Console\",\"1\",\"50,000 K\"\r\n";
    assert!(pid_is_node(csv, 1234));
    assert!(!pid_is_node(csv, 123));
    assert!(!pid_is_node("\"chrome.exe\",\"1234\",\"Console\",\"1\",\"1 K\"\r\n", 1234));
    assert!(!pid_is_node("INFO: No tasks are running which match the specified criteria.\r\n", 1234));
}

#[test]
fn the_name_of_the_process_may_be_in_capitals() {
    assert!(pid_is_node("x\n\"NODE.EXE\",\"7\"\n", 7));
    assert!(output_names_node(&b"\xff\n\"node.exe\",\"7\"\r\n".to_vec(), 7));
    assert!(!output_names_node(&b"\"node.exe\",\"7\xff\"\r\n".to_vec(), 7));
}

#[test]
fn the_built_entry_goes_first() {
    let (program, args) = server_command(Some("/b.js"), Some("/s.ts"), 3080).unwrap();
    assert_eq!(program, "node");
    assert_eq!(args, list(&["/b.js", "web", "--port", "3080", "--no-open"]));
    let (_, args) = server_command(None, Some("/s.ts"), 0).unwrap();
    assert_eq!(
        args,
        list(&["--import", "tsx/esm", "/s.ts", "web", "--port", "0", "--no-open"])
    );
    assert!(server_command(None, None, 1).is_none());
}

#[test]
fn the_ready_line_tells_the_port() {
    assert_eq!(find_ready_port("dsh web: http://127.0.0.1:3080"), Some(3080));
    assert_eq!(find_ready_port("x dsh web: http://127.0.0.1:1 (token)"), Some(1));
    assert_eq!(find_ready_port("dsh web: http://127.0.0.1:51234, ready"), Some(51234));
    assert_eq!(find_ready_port("dsh web: http://127.0.0.1:70000"), None);
    assert_eq!(find_ready_port("dsh web: http://127.0.0.1:"), None);
    assert_eq!(find_ready_port("dsh web: http://127.0.0.1:12/?token=1"), None);
    assert_eq!(find_ready_port("listening"), None);
}

#[test]
fn a_server_that_is_ready_may_be_shown() {
    let (mut run, first) = StartRun::start(DSH_PORT);
    assert!(matches!(first, StartAction::Launch(3080)));
    assert!(matches!(run.advance(done()), StartAction::Listen));
    assert!(matches!(run.advance(line("hello")), StartAction::Listen));
    match run.advance(line("dsh web: http://127.0.0.1:3080")) {
        StartAction::Ready { port, url } => {
            assert_eq!(url, "http://127.0.0.1:3080");
            let mut ports = allowed();
            assert!(!ports.is_allowed(&url));
            ports.allow_port(port);
            assert!(ports.is_allowed(&url));
        }
        other => panic!("{:?}", other),
    }
    assert!(matches!(run.advance(done()), StartAction::Nothing));
}

#[test]
fn a_port_in_use_leads_to_one_more_try() {
    let (mut run, _) = StartRun::start(3080);
    run.advance(done());
    run.advance(line("Error: listen EADDRINUSE: address already in use :::3080"));
    assert!(matches!(run.advance(closed()), StartAction::Abort));
    assert!(matches!(run.advance(code(Some(1))), StartAction::Launch(0)));
    run.advance(done());
    run.advance(line("EADDRINUSE"));
    run.advance(closed());
    match run.advance(code(None)) {
        StartAction::Fail(message) => {
            assert_eq!(message, "服务器进程提前退出（退出码 未知）。最近日志：\nEADDRINUSE")
        }
        other => panic!("{:?}", other),
    }
}

#[test]
fn a_server_that_ends_or_is_late_fails() {
    let (mut run, _) = StartRun::start(3080);
    run.advance(done());
    run.advance(line("a"));
    run.advance(line("b"));
    run.advance(closed());
    match run.advance(code(Some(-3))) {
        StartAction::Fail(message) => {
            assert_eq!(message, "服务器进程提前退出（退出码 -3）。最近日志：\na\nb")
        }
        other => panic!("{:?}", other),
    }
    let (mut run, _) = StartRun::start(3080);
    run.advance(done());
    assert!(matches!(run.advance(done()), StartAction::Abort));
    match run.advance(code(Some(0))) {
        StartAction::Fail(message) => assert_eq!(message, "服务器 60 秒内未就绪。最近日志：\n"),
        other => panic!("{:?}", other),
    }
}

#[test]
fn a_process_that_does_not_start_fails() {
    let message = not_started("node", "not found");
    assert_eq!(message, "无法启动 node: not found\n请确认 Node.js 已安装且在 PATH 中");
    let (mut run, _) = StartRun::start(3080);
    let reply = StartReply { error: Some(message.clone()), ..done() };
    assert!(matches!(run.advance(reply), StartAction::Fail(m) if m == message));
    assert_eq!(
        no_entry("/r"),
        "在 /r 找不到 apps/cli 入口（lib/bin.js 或 src/bin.ts），请先在仓库执行 pnpm install 并构建"
    );
}

#[test]
fn the_newest_400_lines_are_kept() {
    let (mut run, _) = StartRun::start(0);
    run.advance(done());
    for i in 0..450 {
        run.advance(line(&format!("l{i}")));
    }
    run.advance(done());
    let want: Vec<String> = (50..450).map(|i| format!("l{i}")).collect();
    match run.advance(code(None)) {
        StartAction::Fail(message) => {
            assert_eq!(message, format!("服务器 60 秒内未就绪。最近日志：\n{}", tail_text(&want)))
        }
        other => panic!("{:?}", other),
    }
}

#[test]
fn the_time_to_start_is_one_minute_in_all() {
    assert_eq!(time_left(0), 60_000);
    assert_eq!(time_left(59_999), 1);
    assert_eq!(time_left(60_000), 0);
    assert_eq!(time_left(u64::MAX), 0);
}

#[test]
fn the_file_with_the_process_is_read() {
    assert_eq!(cleanup_stale_server(None), StaleServer::NoFile);
    assert_eq!(cleanup_stale_server(Some("x")), StaleServer::NotANumber);
    assert_eq!(cleanup_stale_server(Some(" 42\n")), StaleServer::Process(42));
    assert_eq!(list_process_args(42), list(&["/FI", "PID eq 42", "/FO", "CSV", "/NH"]));
    assert_eq!(kill_args(42), list(&["/pid", "42", "/T", "/F"]));
    assert!(server_died(Some(true)));
    assert!(!server_died(Some(false)));
    assert!(!server_died(None));
}
