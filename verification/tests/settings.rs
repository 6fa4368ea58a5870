use dsh_shell::locale::{current_locale, locale_of, picker_title, read_locale_preference, tray_labels};
use dsh_shell::paths::Base;
use dsh_shell::settings::{
    entry_string, first_match, is_hit, is_profile_dir_name, lookup, needs_polling, patch_documents,
    sorted_profiles, sources, WatchAction, WatchReply, WatchRun,
};
use dsh_shell::theme::{
    apply_preference, background, native_theme_prefers_dark, prefers_dark, read_theme_preference,
    reads_dark, theme_of, Rgba, registry_args,
};
use dsh_shell::yaml::{parse_yaml, Yaml};

const PATCH_DOC: &str = r#"
- id: ui-settings-general
  name: "@deepseek-ai/dsh-client-ui-settings-general"
  config:
    welcomeNoticeVersion: 2026-08-13.1
- id: ui-theme
  name: "@deepseek-ai/dsh-client-ui-theme"
  config:
    preference: dark
    fontSize: 15
- id: locale
  name: "@deepseek-ai/dsh-client-locale"
  config:
    preference: zh
"#;

const LEGACY_DOC: &str =
    "ui-theme:\n  preference: light\n  fontSize: 15\nlocale:\n  preference: en\n";

fn parse(text: &str) -> Yaml {
    parse_yaml(text).unwrap()
}

fn list(items: &[&str]) -> Vec<String> {
    items.iter().map(|s| s.to_string()).collect()
}

fn texts(items: &[Option<&str>]) -> Vec<Option<String>> {
    items.iter().map(|s| s.map(String::from)).collect()
}

#[test]
fn reads_patch_document() {
    let value = parse(PATCH_DOC);
    assert_eq!(lookup(&value, "ui-theme", "preference").as_deref(), Some("dark"));
    assert_eq!(lookup(&value, "locale", "preference").as_deref(), Some("zh"));
    assert_eq!(lookup(&value, "ui-theme", "fontSize"), None);
}

#[test]
fn reads_legacy_document() {
    let value = parse(LEGACY_DOC);
    assert_eq!(lookup(&value, "ui-theme", "preference").as_deref(), Some("light"));
    assert_eq!(lookup(&value, "locale", "preference").as_deref(), Some("en"));
}

#[test]
fn missing_entry_is_none() {
    let value = parse("- id: ui-theme\n  config:\n    fontSize: 15\n");
    assert_eq!(lookup(&value, "ui-theme", "preference"), None);
    let disabled = parse("- id: ui-theme\n  disabled: true\n");
    assert_eq!(lookup(&disabled, "ui-theme", "preference"), None);
    assert_eq!(lookup(&parse("[]\n"), "ui-theme", "preference"), None);
}

#[test]
fn node_modules_is_not_a_profile() {
    assert!(is_profile_dir_name("web"));
    assert!(is_profile_dir_name("tui"));
    assert!(!is_profile_dir_name("node_modules"));
    assert!(!is_profile_dir_name(".git"));
}

#[test]
fn falls_through_to_later_candidate() {
    let files = texts(&[Some("[]\n"), Some(LEGACY_DOC)]);
    assert_eq!(entry_string(&files, "locale", "preference").as_deref(), Some("en"));
    assert_eq!(entry_string(&files, "ui-conversation", "preference"), None);
    let files = texts(&[None, Some(LEGACY_DOC)]);
    assert_eq!(entry_string(&files, "ui-theme", "preference").as_deref(), Some("light"));
}

#[test]
fn a_text_that_is_no_document_is_passed_over() {
    let files = texts(&[Some("a: [1\n"), Some(LEGACY_DOC)]);
    assert_eq!(entry_string(&files, "locale", "preference").as_deref(), Some("en"));
    assert!(parse_yaml("a: [1\n").is_none());
}

#[test]
fn the_earlier_document_wins() {
    let docs = vec![None, Some(parse(PATCH_DOC)), Some(parse(LEGACY_DOC))];
    assert_eq!(first_match(&docs, "ui-theme", "preference").as_deref(), Some("dark"));
}

#[test]
fn both_layouts_read_the_same() {
    let section = parse("s:\n  k: v\n");
    let patch = parse("- id: s\n  config:\n    k: v\n");
    assert_eq!(lookup(&section, "s", "k"), lookup(&patch, "s", "k"));
}

#[test]
fn the_first_patch_with_the_value_counts() {
    let doc = parse("- id: s\n- id: s\n  config: {k: a}\n- id: s\n  config: {k: b}\n");
    assert_eq!(lookup(&doc, "s", "k").as_deref(), Some("a"));
}

#[test]
fn tags_and_other_keys_do_not_disturb() {
    let doc = parse("1: x\ns: !t\n  k: !u v\n");
    assert_eq!(lookup(&doc, "s", "k").as_deref(), Some("v"));
    assert!(matches!(parse("!t x"), Yaml::Tagged(tag, _) if tag == "!t"));
    assert!(matches!(parse("~"), Yaml::Null));
    assert!(matches!(parse("true"), Yaml::Bool(true)));
    assert!(matches!(parse("3"), Yaml::Number(n) if n.as_u64() == Some(3)));
}

#[test]
fn the_profile_of_the_shell_goes_first() {
    let names = list(&["tui", "node_modules", "web", ".git", "alpha"]);
    assert_eq!(sorted_profiles(&names), list(&["web", "alpha", "tui"]));
    let docs = patch_documents(Some("/d"), &names);
    assert_eq!(docs.len(), 3);
    assert!(matches!(&docs[0].base, Base::Given(path) if path == "/d"));
    assert_eq!(docs[0].parts, list(&["profiles", "web", "cordis.patch.yml"]));
}

#[test]
fn sources_end_with_the_settings_files() {
    let found = sources(None, &list(&["web"]));
    let files: Vec<Vec<String>> = found.files.iter().map(|f| f.parts.clone()).collect();
    assert_eq!(
        files,
        vec![
            list(&[".dsh", "profiles", "web", "cordis.patch.yml"]),
            list(&[".dsh", "settings.yaml"]),
            list(&[".dsh", "settings.yaml.imported"]),
        ]
    );
    let dirs: Vec<Vec<String>> = found.dirs.iter().map(|d| d.parts.clone()).collect();
    assert_eq!(dirs, vec![list(&[".dsh", "profiles", "web"]), list(&[".dsh"])]);
}

fn reply(touched: Option<Vec<bool>>, value: &str) -> WatchReply {
    WatchReply { touched, value: value.to_string() }
}

#[test]
fn a_change_is_told_once() {
    let (mut run, first) = WatchRun::start("light".to_string(), 2);
    assert!(matches!(first, WatchAction::AwaitEvent(30)));
    assert!(matches!(run.advance(reply(Some(vec![false]), "")), WatchAction::AwaitEvent(30)));
    assert!(matches!(run.advance(reply(Some(vec![false, true]), "")), WatchAction::Sleep(50)));
    assert!(matches!(run.advance(reply(None, "")), WatchAction::Read));
    assert!(matches!(run.advance(reply(None, "dark")), WatchAction::Tell(v) if v == "dark"));
    assert!(matches!(run.advance(reply(None, "")), WatchAction::AwaitEvent(30)));
    assert!(matches!(run.advance(reply(None, "")), WatchAction::Sleep(50)));
    assert!(matches!(run.advance(reply(None, "")), WatchAction::Read));
    assert!(matches!(run.advance(reply(None, "dark")), WatchAction::AwaitEvent(30)));
}

#[test]
fn without_a_watched_directory_the_setting_is_polled() {
    assert!(needs_polling(0));
    assert!(is_hit(None));
    let (mut run, first) = WatchRun::start("zh".to_string(), 0);
    assert!(matches!(first, WatchAction::Sleep(500)));
    assert!(matches!(run.advance(reply(None, "")), WatchAction::Read));
    assert!(matches!(run.advance(reply(None, "zh")), WatchAction::Sleep(500)));
    assert!(matches!(run.advance(reply(None, "")), WatchAction::Read));
    assert!(matches!(run.advance(reply(None, "en")), WatchAction::Tell(v) if v == "en"));
    assert!(matches!(run.advance(reply(None, "")), WatchAction::Sleep(500)));
}

#[test]
fn the_language_is_one_of_two() {
    assert_eq!(locale_of(Some("ZH-Hans")), "zh");
    assert_eq!(locale_of(Some("En-us")), "en");
    assert_eq!(locale_of(Some("fr")), "zh");
    assert_eq!(locale_of(None), "zh");
    let files = texts(&[Some(LEGACY_DOC)]);
    assert_eq!(read_locale_preference(&files), "en");
    assert_eq!(current_locale(&texts(&[Some(PATCH_DOC)])), "zh");
    assert_eq!(tray_labels("zh"), ("显示主窗口", "退出"));
    assert_eq!(tray_labels("en"), ("Show Window", "Quit"));
    assert_eq!(picker_title("zh"), "选择 dsh 安装目录");
    assert_eq!(picker_title("en"), "Choose dsh install folder");
}

#[test]
fn the_theme_is_one_of_three() {
    assert_eq!(theme_of(Some("dark")), "dark");
    assert_eq!(theme_of(Some("Dark")), "system");
    assert_eq!(theme_of(None), "system");
    assert_eq!(read_theme_preference(&texts(&[Some(PATCH_DOC)])), "dark");
    assert_eq!(read_theme_preference(&texts(&[None])), "system");
    assert_eq!(prefers_dark("dark"), Some(true));
    assert_eq!(prefers_dark("light"), Some(false));
    assert_eq!(prefers_dark("system"), None);
    let dark = Rgba { red: 0x14, green: 0x16, blue: 0x1c, alpha: 0xff };
    let light = Rgba { red: 0xf5, green: 0xf6, blue: 0xfa, alpha: 0xff };
    assert_eq!(background(true), dark);
    assert_eq!(apply_preference("dark", Some(false)), (Some(true), dark));
    assert_eq!(apply_preference("system", Some(true)), (None, dark));
    assert_eq!(apply_preference("system", None), (None, light));
}

#[test]
fn the_registry_decides_where_the_theme_does_not() {
    assert_eq!(registry_args().len(), 4);
    assert_eq!(
        registry_args()[1],
        r"HKCU\Software\Microsoft\Windows\CurrentVersion\Themes\Personalize"
    );
    let zero = b"AppsUseLightTheme    REG_DWORD    0x0\r\n".to_vec();
    let one = b"AppsUseLightTheme    REG_DWORD    0x1\r\n".to_vec();
    assert!(native_theme_prefers_dark("system", Some(&zero)));
    assert!(!native_theme_prefers_dark("system", Some(&one)));
    assert!(!native_theme_prefers_dark("light", Some(&zero)));
    assert!(native_theme_prefers_dark("dark", None));
    assert!(!native_theme_prefers_dark("system", None));
    assert!(reads_dark("0x0"));
}
