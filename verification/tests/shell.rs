use dsh_shell::nav::allowed;
use dsh_shell::shell::{
    guard, respond, secret_path, secret_text, serve, shell_url, token_matches, NOT_ALLOWED,
};
use dsh_shell::window::{
    crash_place, not_a_repository, on_close, on_quit, open_external, start_failure, version_info,
    CloseAnswer, CloseFlag,
};

#[test]
fn only_the_token_lets_a_caller_pass() {
    let token = Some("abc".to_string());
    assert!(token_matches(&token, "abc"));
    assert!(!token_matches(&token, "abd"));
    assert!(!token_matches(&token, "ab"));
    assert!(!token_matches(&None, ""));
    assert_eq!(guard(&token, "abc"), Ok(()));
    assert_eq!(guard(&None, "abc"), Err(NOT_ALLOWED.to_string()));
}

#[test]
fn the_page_is_handed_out_on_its_path_alone() {
    let secret = secret_text(0xab, 0x1);
    assert_eq!(secret, "ab1");
    let path = secret_path(&secret);
    assert_eq!(path, "/ab1/index.html");
    let page = "<p>页</p>";
    let got = respond("GET /ab1/index.html?k=ab1 HTTP/1.1\r\nHost: x\r\n\r\n", &path, page);
    assert_eq!(got.body, page);
    assert_eq!(
        got.head,
        "HTTP/1.1 200 OK\r\nContent-Type: text/html; charset=utf-8\r\nContent-Length: 10\r\nCache-Control: no-store\r\nContent-Security-Policy: default-src 'self'; script-src 'self' 'unsafe-inline'; style-src 'self' 'unsafe-inline'; img-src 'self' data: https:; frame-src http://127.0.0.1:* http://localhost:*; connect-src 'self' ipc: http://ipc.localhost\r\nX-Content-Type-Options: nosniff\r\nConnection: close\r\n\r\n"
    );
    for request in ["GET / HTTP/1.1", "GET /ab1/ HTTP/1.1", "GET", "GET /AB1/index.html"] {
        let got = respond(request, &path, page);
        assert_eq!(got.body, "");
        assert!(got.head.starts_with("HTTP/1.1 404 Not Found\r\n"));
        assert!(got.head.contains("Content-Length: 0\r\n"));
    }
    for request in ["POST /ab1/index.html HTTP/1.1", "get /ab1/index.html", ""] {
        let got = respond(request, &path, page);
        assert_eq!(got.body, "");
        assert!(got.head.starts_with("HTTP/1.1 405 Method Not Allowed\r\n"));
    }
}

#[test]
fn bytes_that_are_no_text_do_not_disturb() {
    let mut sent = b"GET /a/index.html#x HTTP/1.1\r\n".to_vec();
    sent.push(0xff);
    assert_eq!(serve(&sent, "/a/index.html", "p").body, "p");
}

#[test]
fn the_window_may_go_to_the_page() {
    let url = shell_url(51234, "ab1");
    assert_eq!(url, "http://127.0.0.1:51234/ab1/index.html?k=ab1");
    let mut ports = allowed();
    ports.allow_port(51234);
    assert!(ports.is_allowed(&url));
}

#[test]
fn closing_is_asked_about_unless_decided() {
    let mut flag = CloseFlag::new();
    assert!(!flag.skip_close_confirm());
    assert_eq!(on_close(flag.skip_close_confirm(), true), CloseAnswer::Ask { updating: true });
    flag.decide();
    assert_eq!(on_close(flag.skip_close_confirm(), true), CloseAnswer::Close);
    assert_eq!(on_quit(true), CloseAnswer::Ask { updating: true });
    assert_eq!(on_quit(false), CloseAnswer::Close);
}

#[test]
fn only_web_addresses_leave_the_shell() {
    assert_eq!(open_external("https://x"), Ok(()));
    assert_eq!(open_external("http://x"), Ok(()));
    assert_eq!(open_external("file:///x"), Err("仅支持 http/https 链接".to_string()));
}

#[test]
fn the_dialog_about_the_program_is_filled() {
    let info = version_info("1.2.3", Some("/r"), Some("{\"version\":\"9.9.9\"}"));
    assert_eq!((info.shell.as_str(), info.dsh.as_str(), info.repo.as_str()), ("1.2.3", "9.9.9", "/r"));
    let info = version_info("1.2.3", None, None);
    assert_eq!((info.dsh.as_str(), info.repo.as_str()), ("", ""));
}

#[test]
fn messages_are_put_together() {
    assert_eq!(crash_place("a.rs", 3, 14), "a.rs:3:14");
    assert_eq!(start_failure("e"), "DeepSeek Harness 启动失败\n\ne");
    assert_eq!(
        not_a_repository("/x"),
        "所选目录不是有效的 deepseek-harness 仓库（缺少 apps\\cli\\package.json）: /x"
    );
}
