use dsh_shell::json::{get, get_text, parse_json, print_json, Json};
use dsh_shell::repo::{
    bad_remotes, clear_bad_remote, is_bad_remote, locate_repo, mark_bad_remote, parse_repo_root,
    read_repo_config, repo_dsh_version, write_repo_config, ConfigWrite, RepoChoice,
};

fn written(write: ConfigWrite) -> String {
    match write {
        ConfigWrite::Write(text) => text,
        other => panic!("{:?}", other),
    }
}

#[test]
fn documents_are_read_by_serde_json() {
    let tree = parse_json(" {\"a\": [null, true, 1.5, \"x\\u0041\"], \"b\": {}} ").unwrap();
    match get(&tree, "a") {
        Some(Json::Array(list)) => {
            assert_eq!(list.len(), 4);
            assert!(matches!(list[0], Json::Null));
            assert!(matches!(list[1], Json::Bool(true)));
            assert!(matches!(&list[2], Json::Fraction(n) if n.as_f64() == Some(1.5)));
            assert!(matches!(&list[3], Json::Text(s) if s == "xA"));
        }
        other => panic!("{:?}", other),
    }
    assert!(get(&tree, "c").is_none());
    assert!(parse_json("{").is_none());
    assert!(parse_json("").is_none());
}

#[test]
fn documents_are_written_by_serde_json() {
    let tree = parse_json("{ \"b\" : \"q\\n\", \"a\" : [ ] }").unwrap();
    assert_eq!(print_json(tree), "{\"a\":[],\"b\":\"q\\n\"}");
}

#[test]
fn the_place_is_read_from_the_new_file_first() {
    let new = Some("{\"repoRoot\":\"/new\"}");
    let old = Some("{\"repoRoot\":\"/old\"}");
    assert_eq!(read_repo_config(new, old, true), (Some("/new".to_string()), false));
    assert_eq!(read_repo_config(None, old, false), (Some("/old".to_string()), true));
    assert_eq!(read_repo_config(Some("{}"), old, true), (Some("/old".to_string()), false));
    assert_eq!(read_repo_config(Some("nonsense"), None, true), (None, false));
    assert_eq!(parse_repo_root(Some("{\"repoRoot\":5}")), None);
}

#[test]
fn the_place_is_written_beside_what_is_there() {
    let text = written(write_repo_config(Some("{\"other\":1,\"repoRoot\":\"/a\"}"), "/b"));
    assert_eq!(parse_repo_root(Some(&text)), Some("/b".to_string()));
    assert!(text.contains("\"other\":1"));
    assert_eq!(written(write_repo_config(None, "/b")), "{\"repoRoot\":\"/b\"}");
    assert_eq!(written(write_repo_config(Some("null"), "/b")), "{\"repoRoot\":\"/b\"}");
    assert!(matches!(write_repo_config(Some("[1]"), "/b"), ConfigWrite::NotAnObject));
}

#[test]
fn a_recorded_commit_is_found_again() {
    let text = written(mark_bad_remote(None, "abc"));
    assert!(is_bad_remote(Some(&text), "abc"));
    assert!(!is_bad_remote(Some(&text), "ab"));
    assert!(matches!(mark_bad_remote(Some(&text), "abc"), ConfigWrite::Keep));
    assert!(matches!(mark_bad_remote(Some("5"), "abc"), ConfigWrite::NotAnObject));
}

#[test]
fn eight_commits_are_kept() {
    let mut text = "{\"repoRoot\":\"/r\"}".to_string();
    for i in 0..10 {
        text = written(mark_bad_remote(Some(&text), &format!("c{i}")));
    }
    let want: Vec<String> = (2..10).map(|i| format!("c{i}")).collect();
    assert_eq!(bad_remotes(Some(&text)), want);
    assert_eq!(parse_repo_root(Some(&text)), Some("/r".to_string()));
}

#[test]
fn a_cleared_commit_is_gone_and_the_others_stay() {
    let text = "{\"badRemoteCommits\":[\"a\",1,\"b\",\"a\"],\"repoRoot\":\"/r\"}";
    let cleared = written(clear_bad_remote(Some(text), "a"));
    assert_eq!(bad_remotes(Some(&cleared)), vec!["b".to_string()]);
    assert!(cleared.contains("[1,\"b\"]"));
    assert!(matches!(clear_bad_remote(None, "a"), ConfigWrite::Keep));
    assert!(matches!(clear_bad_remote(Some("{\"badRemoteCommits\":1}"), "a"), ConfigWrite::Keep));
}

#[test]
fn the_version_is_read_from_the_package() {
    assert_eq!(repo_dsh_version(Some("{\"version\":\"9.9.9\"}")), "9.9.9");
    assert_eq!(repo_dsh_version(Some("{\"version\":9}")), "");
    assert_eq!(repo_dsh_version(Some("x")), "");
    assert_eq!(repo_dsh_version(None), "");
    let tree = parse_json("{\"name\":\"n\"}").unwrap();
    assert_eq!(get_text(&tree, "name"), Some("n".to_string()));
}

#[test]
fn the_repository_is_looked_for_in_order() {
    let above = vec![false, true, true];
    assert_eq!(locate_repo(Some(true), Some(true), &above), RepoChoice::FromEnv);
    assert_eq!(locate_repo(Some(false), Some(true), &above), RepoChoice::NotFound);
    assert_eq!(locate_repo(None, Some(true), &above), RepoChoice::Saved);
    assert_eq!(locate_repo(None, Some(false), &above), RepoChoice::Above(1));
    assert_eq!(locate_repo(None, None, &vec![false; 3]), RepoChoice::NotFound);
    let far = vec![false, false, false, false, false, true];
    assert_eq!(locate_repo(None, None, &far), RepoChoice::NotFound);
}

#[test]
fn numbers_are_kept_apart_and_read_back() {
    let text = "[0,18446744073709551615,-1,-9223372036854775808,1.5,1.0,18446744073709551616]";
    let list = match parse_json(text) {
        Some(Json::Array(list)) => list,
        other => panic!("{:?}", other),
    };
    assert!(matches!(list[0], Json::Whole(0)));
    assert!(matches!(list[1], Json::Whole(u64::MAX)));
    assert!(matches!(list[2], Json::Negative(-1)));
    assert!(matches!(list[3], Json::Negative(i64::MIN)));
    assert!(matches!(list[4], Json::Fraction(_)));
    assert!(matches!(list[5], Json::Fraction(_)));
    assert!(matches!(list[6], Json::Fraction(_)));
    let whole = "[0,18446744073709551615,-1,-9223372036854775808]";
    assert_eq!(print_json(parse_json(whole).unwrap()), whole);
}

#[test]
fn records_survive_beside_numbers() {
    let text = "{\"n\":7,\"m\":-7,\"f\":[0.1,1.7976931348623157e308,5e-324],\"repoRoot\":\"/r\"}";
    let marked = written(mark_bad_remote(Some(text), "a"));
    let marked = written(mark_bad_remote(Some(&marked), "b"));
    assert_eq!(bad_remotes(Some(&marked)), vec!["a".to_string(), "b".to_string()]);
    assert!(marked.contains("\"n\":7") && marked.contains("\"m\":-7"));
    let cleared = written(clear_bad_remote(Some(&marked), "a"));
    assert!(!is_bad_remote(Some(&cleared), "a"));
    assert!(is_bad_remote(Some(&cleared), "b"));
    assert_eq!(parse_repo_root(Some(&cleared)), Some("/r".to_string()));
    let moved = written(write_repo_config(Some(&cleared), "/s"));
    assert_eq!(parse_repo_root(Some(&moved)), Some("/s".to_string()));
    assert!(is_bad_remote(Some(&moved), "b"));
}

#[test]
fn a_document_as_deep_as_the_reader_goes_is_written_and_read() {
    let deep = format!("{{\"d\":{}{}}}", "[".repeat(126), "]".repeat(126));
    let marked = written(mark_bad_remote(Some(&deep), "a"));
    assert!(is_bad_remote(Some(&marked), "a"));
    let deeper = format!("{{\"d\":{}{}}}", "[".repeat(127), "]".repeat(127));
    assert!(parse_json(&deeper).is_none());
}
