use dsh_shell::nav::{allowed, is_allowed_navigation, split_host_port};

#[test]
fn allows_only_registered_local_ports() {
    let mut list = allowed();
    list.allow_port(3080);
    list.allow_port(51234);
    assert!(list.is_allowed("http://127.0.0.1:3080/"));
    assert!(list.is_allowed("http://127.0.0.1:3080/index.html?k=abc"));
    assert!(list.is_allowed("http://localhost:51234/x"));
    assert!(!list.is_allowed("http://127.0.0.1:9999/"));
    assert!(!list.is_allowed("http://localhost/"));
    assert!(!list.is_allowed("https://evil.com/127.0.0.1:3080"));
    assert!(!list.is_allowed("http://127.0.0.1.evil.com:3080/"));
    assert!(!list.is_allowed("http://user@127.0.0.1:3080/"));
    assert!(list.is_allowed("about:blank"));
}

#[test]
fn an_empty_list_shows_no_server() {
    let list = allowed();
    assert!(!list.is_allowed("http://127.0.0.1:3080/"));
    assert!(!list.is_allowed("http://[::1]:3080/"));
    assert!(list.is_allowed("tauri://localhost"));
    assert!(!list.is_allowed("file:///etc/passwd"));
}

#[test]
fn the_bracketed_loopback_counts() {
    let mut list = allowed();
    list.allow_port(3080);
    assert!(list.is_allowed("http://[::1]:3080/"));
    assert!(!list.is_allowed("http://[::2]:3080/"));
    assert!(!list.is_allowed("http://127.0.0.1:65536/"));
}

#[test]
fn authorities_are_split() {
    assert_eq!(split_host_port("a:1"), Some(("a", Some(1))));
    assert_eq!(split_host_port("a"), Some(("a", None)));
    assert_eq!(split_host_port("a:x"), Some(("a", None)));
    assert_eq!(split_host_port("[::1]:8"), Some(("::1", Some(8))));
}

#[test]
fn shell_pages_are_known_by_their_host() {
    assert!(is_allowed_navigation("tauri://localhost/index.html"));
    assert!(is_allowed_navigation("http://127.0.0.1:1/x"));
    assert!(is_allowed_navigation("https://localhost"));
    assert!(is_allowed_navigation("http://dsh.internal/"));
    assert!(is_allowed_navigation("http://tauri.localhost/"));
    assert!(is_allowed_navigation("http://[::1]:3080/"));
    assert!(!is_allowed_navigation("http://127.0.0.1.evil.com/"));
    assert!(!is_allowed_navigation("ftp://127.0.0.1/"));
    assert!(!is_allowed_navigation("http://xlocalhost]/"));
    assert!(!is_allowed_navigation("http://]/"));
    assert!(!is_allowed_navigation("http://中localhost]:1/"));
    assert!(!is_allowed_navigation("http://[localhost/"));
    assert!(is_allowed_navigation("http://[localhost]/"));
}

#[test]
fn what_the_list_lets_in_is_a_page_of_the_shell() {
    let mut list = allowed();
    list.allow_port(3080);
    for url in ["http://127.0.0.1:3080/x", "http://[::1]:3080/", "https://localhost:3080", "about:blank"] {
        assert!(list.is_allowed(url));
        assert!(is_allowed_navigation(url));
    }
}
