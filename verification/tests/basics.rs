use dsh_shell::calendar::civil_date;
use dsh_shell::digits::{
    last_bytes, parse_number, write_decimal, write_hexadecimal, write_padded, write_signed,
};
use dsh_shell::logging::{format_ts, log_entry, needs_rotation, panic_entry, STAMPS_END_MS};
use dsh_shell::order::{comes_before, sorted_places, SortKey};
use dsh_shell::paths::{
    built_entry, config_path, data_dir, default_install_dir, dsh_home, dsh_imported_settings_path,
    dsh_profiles_dir, dsh_settings_path, git_dir, index_lock, legacy_config_path, log_dir, log_file,
    modules_dir, old_log_file, pid_file, places_above, repo_marker, source_entry,
    window_state_path, Base, PathPlan,
};
use dsh_shell::text::{
    find, join, lines, lower_contains, rfind, same_but_case, split, split_text, tail_chars, trim,
    words,
};

fn list(items: &[&str]) -> Vec<String> {
    items.iter().map(|s| s.to_string()).collect()
}

#[test]
fn text_is_cut_like_std_does() {
    let samples = ["", "a", "a\r", "\r\n", "a\r\r\n", "a\nb", "a\r\nb\r\n", "\n\n", "x\ry\n", "中文 b\u{3000}c  ", "a\tb\t\t"];
    for s in samples {
        assert_eq!(lines(s), s.lines().map(String::from).collect::<Vec<_>>());
        assert_eq!(words(s), s.split_whitespace().map(String::from).collect::<Vec<_>>());
        assert_eq!(trim(s), s.trim());
        assert_eq!(split(s, &vec!['\t']), s.split('\t').map(String::from).collect::<Vec<_>>());
    }
    assert_eq!(split_text("a\",\"b\",\"c", "\",\""), list(&["a", "b", "c"]));
    assert_eq!(split_text("aaa", "aa"), list(&["", "a"]));
    assert_eq!(find("中文abc", "abc"), Some(2));
    assert_eq!(find("abc", "abd"), None);
    assert_eq!(rfind("a:b:c", ':'), Some(3));
    assert_eq!(join(&list(&["a", "b", ""]), ", "), "a, b, ");
    assert!(lower_contains("EAddrInUse", "eaddrinuse"));
    assert!(same_but_case("NODE.exe", "node.EXE"));
    assert!(!same_but_case("node.ex", "node.exe"));
}

#[test]
fn numbers_are_read_and_written() {
    assert_eq!(parse_number("65535", 65535), Some(65535));
    assert_eq!(parse_number("65536", 65535), None);
    assert_eq!(parse_number("+7", 65535), Some(7));
    assert_eq!(parse_number("007", 65535), Some(7));
    assert_eq!(parse_number("", 65535), None);
    assert_eq!(parse_number("+", 65535), None);
    assert_eq!(parse_number("-1", 65535), None);
    assert_eq!(parse_number("99999999999999999999", u32::MAX), None);
    assert_eq!(write_decimal(0), "0");
    assert_eq!(write_decimal(u64::MAX), u64::MAX.to_string());
    assert_eq!(write_hexadecimal(0xdead_beef_0123), format!("{:x}", 0xdead_beef_0123u64));
    assert_eq!(write_signed(-1), "-1");
    assert_eq!(write_signed(i32::MIN), i32::MIN.to_string());
    assert_eq!(write_padded(7, 2), "07");
    assert_eq!(write_padded(2024, 2), "2024");
}

#[test]
fn a_written_number_reads_back() {
    for n in [0u32, 9, 10, 99, 100, 3080, 65535] {
        assert_eq!(parse_number(&write_decimal(n as u64), 65535), Some(n));
    }
}

#[test]
fn the_end_of_a_text_is_cut_between_characters() {
    assert_eq!(last_bytes("abcdef", 3), "def");
    assert_eq!(last_bytes("中文", 5), "文");
    assert_eq!(last_bytes("中文", 6), "中文");
    assert_eq!(last_bytes("中文", 2), "");
    assert_eq!(tail_chars("中文abc", 4), "文abc");
    assert_eq!(tail_chars("ab", 4), "ab");
}

#[test]
fn days_become_dates() {
    let date = civil_date(0);
    assert_eq!((date.year, date.month, date.day), (1970, 1, 1));
    let date = civil_date(19_782);
    assert_eq!((date.year, date.month, date.day), (2024, 2, 29));
    let date = civil_date(11_016);
    assert_eq!((date.year, date.month, date.day), (2000, 2, 29));
    let date = civil_date(11_017);
    assert_eq!((date.year, date.month, date.day), (2000, 3, 1));
    let date = civil_date(47_540);
    assert_eq!((date.year, date.month, date.day), (2100, 2, 28));
    let date = civil_date(47_541);
    assert_eq!((date.year, date.month, date.day), (2100, 3, 1));
}

#[test]
fn no_two_days_share_a_date() {
    let mut before = civil_date(0);
    for days in 1..40_000u64 {
        let date = civil_date(days);
        assert!(
            (before.year, before.month, before.day) < (date.year, date.month, date.day),
            "day {}",
            days
        );
        before = date;
    }
}

#[test]
fn the_log_keeps_the_time_of_utc_plus_8() {
    assert_eq!(format_ts(0), "1970-01-01 08:00:00");
    assert_eq!(format_ts(1_709_164_799_999), "2024-02-29 07:59:59");
    assert_eq!(log_entry(0, "开始"), "[1970-01-01 08:00:00] 开始\n");
    assert!(!needs_rotation(1_000_000));
    assert!(needs_rotation(1_000_001));
    assert_eq!(panic_entry("boom", "a.rs:1:2"), "[PANIC] boom @ a.rs:1:2\n");
}

#[test]
fn lists_are_put_in_order() {
    assert!(comes_before("a", "ab"));
    assert!(comes_before("Z", "a"));
    assert!(comes_before("é", "中"));
    assert!(!comes_before("a", "a"));
    let keys: Vec<SortKey> = [(true, "b"), (false, "x"), (true, "c"), (true, "b")]
        .iter()
        .map(|(late, name)| SortKey { late: *late, name: name.to_string() })
        .collect();
    assert_eq!(sorted_places(&keys, false), vec![1, 0, 3, 2]);
    assert_eq!(sorted_places(&keys, true), vec![1, 2, 0, 3]);
}

fn shown(plan: &PathPlan) -> (String, Vec<String>) {
    let base = match &plan.base {
        Base::App => "<app>".to_string(),
        Base::Home => "<home>".to_string(),
        Base::Given(path) => path.clone(),
    };
    (base, plan.parts.clone())
}

#[test]
fn the_home_of_the_harness_follows_the_environment() {
    let at = |env: Option<&str>| shown(&dsh_home(env));
    assert_eq!(at(None), ("<home>".to_string(), list(&[".dsh"])));
    assert_eq!(at(Some("  ")), ("<home>".to_string(), list(&[".dsh"])));
    assert_eq!(at(Some(" ~ ")), ("<home>".to_string(), list(&[])));
    assert_eq!(at(Some("~/x/y")), ("<home>".to_string(), list(&["x/y"])));
    assert_eq!(at(Some("~\\x")), ("<home>".to_string(), list(&["x"])));
    assert_eq!(at(Some("~x")), ("~x".to_string(), list(&[])));
    assert_eq!(at(Some("/opt/dsh")), ("/opt/dsh".to_string(), list(&[])));
}

#[test]
fn files_have_their_places() {
    assert_eq!(shown(&dsh_settings_path(None)).1, list(&[".dsh", "settings.yaml"]));
    assert_eq!(shown(&dsh_imported_settings_path(None)).1, list(&[".dsh", "settings.yaml.imported"]));
    assert_eq!(shown(&dsh_profiles_dir(Some("/d"))), ("/d".to_string(), list(&["profiles"])));
    assert_eq!(shown(&data_dir()), ("<app>".to_string(), list(&["data"])));
    assert_eq!(shown(&config_path()).1, list(&["data", "config.json"]));
    assert_eq!(shown(&legacy_config_path()).1, list(&["config.json"]));
    assert_eq!(shown(&pid_file()).1, list(&["data", "server.pid"]));
    assert_eq!(shown(&log_dir()).1, list(&["logs"]));
    assert_eq!(shown(&default_install_dir()).1, list(&["deepseek-harness"]));
    assert_eq!(
        shown(&repo_marker("/r")),
        ("/r".to_string(), list(&["apps", "cli", "package.json"]))
    );
    assert_eq!(shown(&built_entry("/r")).1, list(&["apps", "cli", "lib", "bin.js"]));
    assert_eq!(shown(&source_entry("/r")).1, list(&["apps", "cli", "src", "bin.ts"]));
    assert_eq!(shown(&log_file()).1, list(&["logs", "desktop.log"]));
    assert_eq!(shown(&old_log_file()).1, list(&["logs", "desktop.log.1"]));
    assert_eq!(shown(&window_state_path()).1, list(&["data", "window.json"]));
    assert_eq!(shown(&git_dir("/r")), ("/r".to_string(), list(&[".git"])));
    assert_eq!(shown(&index_lock("/r")).1, list(&[".git", "index.lock"]));
    assert_eq!(shown(&modules_dir("/r")).1, list(&["node_modules"]));
}

#[test]
fn the_repository_is_looked_for_on_the_way_up() {
    let up = list(&["/a/b/c/d/e/f", "/a/b/c/d/e", "/a/b/c/d", "/a/b/c", "/a/b", "/a", "/"]);
    let places: Vec<(String, Vec<String>)> = places_above(&up).iter().map(shown).collect();
    let expected: Vec<(String, Vec<String>)> =
        up[..5].iter().map(|dir| (dir.clone(), list(&["deepseek-harness"]))).collect();
    assert_eq!(places, expected);
    assert_eq!(places_above(&list(&["/a", "/"])).len(), 2);
    assert!(places_above(&vec![]).is_empty());
}

#[test]
fn stamps_stand_in_the_order_of_time() {
    assert_eq!(format_ts(u128::from(STAMPS_END_MS) - 1), "9999-12-31 23:59:59");
    assert_eq!(format_ts(u128::from(STAMPS_END_MS)), "10000-01-01 00:00:00");
    let times: [u128; 8] = [
        0,
        999,
        1_000,
        57_599_999,
        57_600_000,
        951_753_600_000,
        1_709_164_799_999,
        253_402_271_999_999,
    ];
    for a in times {
        for b in times {
            let (x, y) = (format_ts(a), format_ts(b));
            assert_eq!(x.len(), 19);
            assert_eq!(x == y, a / 1000 == b / 1000);
            assert_eq!(x < y, a / 1000 < b / 1000);
        }
    }
}
