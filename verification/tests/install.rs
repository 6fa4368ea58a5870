use dsh_shell::install::{
    check_env, detect_git, detect_node, detect_pnpm, find_on_path, first_line, first_name,
    inspect_dir, inspect_install_dir, locate_git, locate_node, locate_pnpm, locate_pnpm_ex,
    names_on_path, node_version_ok, probe_version, remote_args, version_args, DirFacts, Program,
};
use dsh_shell::install_run::{InstallAction, InstallResult, InstallRun};
use dsh_shell::steps::Tool;
use dsh_shell::update::Busy;
use dsh_shell::update_run::Reply;

fn nothing_there() -> DirFacts {
    DirFacts {
        exists: false,
        is_dir: false,
        is_repo: false,
        has_modules: false,
        has_build: false,
        package: None,
        has_git: false,
        remote: None,
        is_empty: None,
    }
}

fn directory() -> DirFacts {
    DirFacts { exists: true, is_dir: true, is_empty: Some(false), ..nothing_there() }
}

fn make_repo_like(with_modules: bool, with_build: bool) -> DirFacts {
    DirFacts {
        is_repo: true,
        has_modules: with_modules,
        has_build: with_build,
        package: Some(r#"{"name":"@deepseek-ai/dsh","version":"9.9.9"}"#.to_string()),
        ..directory()
    }
}

fn list(items: &[&str]) -> Vec<String> {
    items.iter().map(|s| s.to_string()).collect()
}

#[test]
fn inspect_nonexistent_is_empty() {
    assert_eq!(inspect_dir(&nothing_there()).state, "empty");
}

#[test]
fn inspect_empty_dir_is_empty() {
    assert_eq!(inspect_dir(&DirFacts { is_empty: Some(true), ..directory() }).state, "empty");
}

#[test]
fn inspect_full_repo_is_valid() {
    let r = inspect_dir(&make_repo_like(true, true));
    assert_eq!(r.state, "dsh_valid");
    assert_eq!(r.detail, "9.9.9");
}

#[test]
fn inspect_repo_without_build_is_incomplete() {
    let r = inspect_dir(&make_repo_like(true, false));
    assert_eq!(r.state, "dsh_incomplete");
    assert!(r.detail.contains("构建产物"));
}

#[test]
fn inspect_repo_without_modules_is_incomplete() {
    let r = inspect_dir(&make_repo_like(false, true));
    assert_eq!(r.state, "dsh_incomplete");
    assert!(r.detail.contains("node_modules"));
    assert_eq!(inspect_dir(&make_repo_like(false, false)).detail, "node_modules、构建产物");
}

#[test]
fn inspect_occupied_dir_is_occupied() {
    assert_eq!(inspect_dir(&directory()).state, "occupied");
}

#[test]
fn node_version_rules() {
    assert_eq!(node_version_ok("v22.19.0"), Some(true));
    assert_eq!(node_version_ok("v22.22.2"), Some(true));
    assert_eq!(node_version_ok("v22.18.9"), Some(false));
    assert_eq!(node_version_ok("v24.0.0"), Some(true));
    assert_eq!(node_version_ok("v23.5.0"), Some(false));
    assert_eq!(node_version_ok("v20.11.0"), Some(false));
    assert_eq!(node_version_ok("garbage"), None);
}

#[test]
fn a_version_needs_no_second_number() {
    assert_eq!(node_version_ok(" V25 "), Some(true));
    assert_eq!(node_version_ok("22"), Some(false));
    assert_eq!(node_version_ok("22.x"), None);
    assert_eq!(node_version_ok(""), None);
}

#[test]
fn a_file_or_a_broken_clone_is_told_apart() {
    assert_eq!(inspect_dir(&DirFacts { is_dir: false, ..directory() }).state, "invalid");
    let git = |remote: Option<&str>| DirFacts {
        has_git: true,
        remote: remote.map(String::from),
        ..directory()
    };
    let ours = git(Some("https://github.com/deepseek-ai/deepseek-harness.git"));
    assert_eq!(inspect_dir(&ours).state, "clone_broken");
    assert_eq!(inspect_dir(&git(Some("https://x/y"))).state, "occupied");
    assert_eq!(inspect_dir(&git(None)).state, "occupied");
    assert_eq!(inspect_dir(&DirFacts { is_empty: None, ..directory() }).state, "occupied");
    assert_eq!(inspect_install_dir("  ", &nothing_there()).state, "invalid");
    assert_eq!(inspect_install_dir("/x", &nothing_there()).state, "empty");
}

#[test]
fn the_version_is_the_first_line() {
    assert_eq!(first_line(" v1\nx", "e"), Some("v1".to_string()));
    assert_eq!(first_line(" \n", "e1\ne2"), Some("e1".to_string()));
    assert_eq!(first_line("", " "), None);
    assert_eq!(probe_version(true, &b"v24.1.0\r\n".to_vec(), &vec![]), Some("v24.1.0".to_string()));
    assert_eq!(probe_version(true, &vec![0xff, b'\n'], &vec![]), Some("\u{fffd}".to_string()));
    assert_eq!(probe_version(false, &b"v1".to_vec(), &vec![]), None);
}

#[test]
fn the_search_path_is_walked_in_order() {
    assert_eq!(find_on_path(&vec![vec![false, false], vec![false, true], vec![true]]), Some((1, 1)));
    assert_eq!(find_on_path(&vec![vec![false], vec![]]), None);
}

#[test]
fn tools_are_located() {
    assert_eq!(locate_git(false, None, &vec![]), Some("git".to_string()));
    assert_eq!(locate_git(true, Some("p"), &vec![true]), Some("p".to_string()));
    assert_eq!(
        locate_git(true, None, &vec![false, true, true]),
        Some("C:\\Program Files (x86)\\Git\\cmd\\git.exe".to_string())
    );
    assert_eq!(
        locate_git(true, None, &vec![true]),
        Some("C:\\Program Files\\Git\\cmd\\git.exe".to_string())
    );
    assert_eq!(
        locate_git(true, None, &vec![false, false, true]),
        Some("C:\\Soft\\Git\\cmd\\git.exe".to_string())
    );
    assert_eq!(locate_git(true, None, &vec![false; 3]), None);
    assert_eq!(locate_node(false, None, false), Some("node".to_string()));
    assert_eq!(locate_node(true, Some("n"), true), Some("n".to_string()));
    assert_eq!(
        locate_node(true, None, true),
        Some("C:\\Program Files\\nodejs\\node.exe".to_string())
    );
    assert_eq!(locate_node(true, None, false), None);
    let tool = locate_pnpm(false, None, None).unwrap();
    assert_eq!((tool.program.as_str(), tool.prefix.len()), ("pnpm", 0));
    let tool = locate_pnpm(true, Some("a"), Some("b")).unwrap();
    assert_eq!((tool.program.as_str(), tool.prefix.len()), ("a", 0));
    let tool = locate_pnpm(true, None, Some("b")).unwrap();
    assert_eq!((tool.program.as_str(), tool.prefix.clone()), ("b", list(&["pnpm"])));
    assert!(locate_pnpm(true, None, None).is_none());
    let tool = locate_pnpm_ex(None, true, None, Some("c")).unwrap();
    assert_eq!((tool.program.as_str(), tool.prefix.clone()), ("c", list(&["pnpm"])));
    assert!(locate_pnpm_ex(None, false, Some("x"), None).is_none());
    assert!(locate_pnpm_ex(None, true, None, None).is_none());
}

#[test]
fn tools_are_reported() {
    let git = detect_git(true, Some("git version 2".to_string()));
    assert!(git.found && git.version == "git version 2" && git.note.is_empty());
    let gone = detect_git(false, None);
    assert!(!gone.found && gone.note == "missing");
    let node = detect_node(true, Some("v24.0.0".to_string()));
    assert!(node.found && node.note.is_empty());
    let old = detect_node(true, Some("v20.0.0".to_string()));
    assert!(!old.found && old.note == "old" && old.version == "v20.0.0");
    let odd = detect_node(true, None);
    assert!(odd.found && odd.version.is_empty());
    assert_eq!(detect_node(false, None).note, "missing");
    let tool = locate_pnpm(true, None, Some("b")).unwrap();
    let pnpm = detect_pnpm(Some(&tool), Some("9".to_string()));
    assert!(pnpm.found && pnpm.note == "via_corepack");
    assert_eq!(detect_pnpm(None, None).note, "missing");
    assert!(check_env(git, node, pnpm).ok);
    let none = check_env(detect_git(true, None), old, detect_pnpm(Some(&tool), None));
    assert!(!none.ok);
}

fn says(ok: bool, text: &str) -> Reply {
    Reply { ok, text: text.to_string(), tool: None }
}

fn pnpm() -> Reply {
    Reply {
        ok: true,
        text: String::new(),
        tool: Some(Tool { program: "pnpm".to_string(), prefix: vec![] }),
    }
}

fn finished(action: InstallAction) -> InstallResult {
    match action {
        InstallAction::Finish(result) => result,
        other => panic!("{:?}", other),
    }
}

fn refused(action: InstallAction) -> String {
    match action {
        InstallAction::Refuse(message) => message,
        other => panic!("{:?}", other),
    }
}

fn at_clone() -> (InstallRun, Busy) {
    let mut busy = Busy::new();
    let (mut run, first) = InstallRun::start(" /x ", "fresh").unwrap();
    assert!(matches!(first, InstallAction::Inspect));
    assert!(matches!(run.advance(says(true, "empty"), &mut busy), InstallAction::FindGit));
    assert!(matches!(run.advance(says(true, "/bin/git"), &mut busy), InstallAction::FindPnpm));
    assert!(matches!(run.advance(pnpm(), &mut busy), InstallAction::HoldWindow));
    assert!(!busy.is_updating());
    assert!(matches!(run.advance(says(true, ""), &mut busy), InstallAction::MakeRoom));
    assert!(busy.is_updating());
    (run, busy)
}

#[test]
fn a_request_is_checked() {
    assert_eq!(InstallRun::start("  ", "fresh").err(), Some("安装目录为空".to_string()));
    assert_eq!(InstallRun::start("/x", "new").err(), Some("未知的安装模式: new".to_string()));
}

#[test]
fn a_fresh_installation_clones_and_builds() {
    let (mut run, mut busy) = at_clone();
    match run.advance(says(true, ""), &mut busy) {
        InstallAction::RunStep { index, label, command, above } => {
            assert_eq!(index, 0);
            assert_eq!(label, "克隆官方仓库（git clone）");
            assert_eq!(command.program, "/bin/git");
            assert_eq!(
                command.args,
                list(&[
                    "clone",
                    "--progress",
                    "https://github.com/deepseek-ai/deepseek-harness.git",
                    "/x"
                ])
            );
            assert!(above);
        }
        other => panic!("{:?}", other),
    }
    match run.advance(says(true, ""), &mut busy) {
        InstallAction::RunStep { index, label, command, above } => {
            assert_eq!((index, label.as_str(), above), (1, "安装依赖（pnpm install）", false));
            assert_eq!(command.args, list(&["install", "--config.confirmModulesPurge=false"]));
            assert!(command.envs.is_empty());
        }
        other => panic!("{:?}", other),
    }
    match run.advance(says(true, ""), &mut busy) {
        InstallAction::RunStep { index, label, command, .. } => {
            assert_eq!((index, label.as_str()), (2, "构建（pnpm run build）"));
            assert_eq!(command.args, list(&["run", "build"]));
            assert_eq!(
                command.envs,
                vec![("DSH_BUILD_CLIENT_PROFILE".to_string(), "official".to_string())]
            );
        }
        other => panic!("{:?}", other),
    }
    assert!(matches!(run.advance(says(true, ""), &mut busy), InstallAction::Register));
    assert!(matches!(run.advance(says(true, ""), &mut busy), InstallAction::CleanUp));
    assert!(matches!(run.advance(says(true, ""), &mut busy), InstallAction::StartServer));
    assert!(matches!(run.advance(says(true, "http://u"), &mut busy), InstallAction::Announce(u) if u == "http://u"));
    assert!(busy.is_updating());
    let result = finished(run.advance(says(true, ""), &mut busy));
    assert!(!busy.is_updating());
    assert!(result.ok && result.failed_step.is_none() && result.server_start_error.is_none());
    assert!(matches!(run.advance(says(true, ""), &mut busy), InstallAction::Nothing));
}

#[test]
fn a_clone_is_tried_again_where_the_network_failed() {
    let (mut run, mut busy) = at_clone();
    run.advance(says(true, ""), &mut busy);
    let network = "fatal: unable to access 'https://github.com/'";
    assert!(matches!(run.advance(says(false, network), &mut busy), InstallAction::Sleep(5)));
    assert!(matches!(run.advance(says(true, ""), &mut busy), InstallAction::MakeRoom));
    run.advance(says(true, ""), &mut busy);
    assert!(matches!(run.advance(says(false, network), &mut busy), InstallAction::Sleep(10)));
    run.advance(says(true, ""), &mut busy);
    run.advance(says(true, ""), &mut busy);
    assert!(busy.is_updating());
    let result = finished(run.advance(says(false, network), &mut busy));
    assert!(!busy.is_updating());
    assert!(!result.ok);
    assert_eq!(result.failed_step.as_deref(), Some("克隆官方仓库（git clone）"));
    assert_eq!(result.output_tail.as_deref(), Some(network));
}

#[test]
fn an_installation_is_gone_on_with() {
    let mut busy = Busy::new();
    let (mut run, _) = InstallRun::start("/x", "resume").unwrap();
    assert!(matches!(run.advance(says(true, "dsh_incomplete"), &mut busy), InstallAction::FindPnpm));
    run.advance(pnpm(), &mut busy);
    match run.advance(says(true, ""), &mut busy) {
        InstallAction::RunStep { index, label, .. } => {
            assert_eq!((index, label.as_str()), (0, "安装依赖（pnpm install）"))
        }
        other => panic!("{:?}", other),
    }
    let result = finished(run.advance(says(false, "EARLY EOF"), &mut busy));
    assert_eq!(result.failed_step.as_deref(), Some("安装依赖（pnpm install）"));
}

#[test]
fn an_installation_is_used_as_it_is() {
    let mut busy = Busy::new();
    let (mut run, _) = InstallRun::start("/x", "use").unwrap();
    assert!(matches!(run.advance(says(true, "dsh_valid"), &mut busy), InstallAction::Register));
    run.advance(says(true, ""), &mut busy);
    run.advance(says(true, ""), &mut busy);
    let result = finished(run.advance(says(false, "no port"), &mut busy));
    assert!(!result.ok);
    assert_eq!(result.failed_step.as_deref(), Some("启动服务"));
    assert_eq!(result.server_start_error.as_deref(), Some("no port"));
}

#[test]
fn an_installation_is_refused_with_nothing_touched() {
    let mut busy = Busy::new();
    let (mut run, _) = InstallRun::start("/x", "use").unwrap();
    assert_eq!(
        refused(run.advance(says(true, "dsh_incomplete"), &mut busy)),
        "所选目录不再是完整可用的 dsh 安装，请重新检查"
    );
    let (mut run, _) = InstallRun::start("/x", "fresh").unwrap();
    assert_eq!(
        refused(run.advance(says(true, "occupied"), &mut busy)),
        "目录状态已变化（当前：occupied），请重新检查目录"
    );
    let (mut run, _) = InstallRun::start("/x", "fresh").unwrap();
    run.advance(says(true, "empty"), &mut busy);
    assert_eq!(
        refused(run.advance(says(false, ""), &mut busy)),
        "找不到 git：请先安装 Git for Windows（git-scm.com）后重试"
    );
    let (mut run, _) = InstallRun::start("/x", "resume").unwrap();
    run.advance(says(true, "dsh_incomplete"), &mut busy);
    assert_eq!(
        refused(run.advance(says(false, ""), &mut busy)),
        "找不到 pnpm 或 corepack：请安装 Node.js（自带 corepack），或在终端运行 npm install -g pnpm"
    );
}

#[test]
fn an_installation_ends_whatever_comes_back() {
    let mut busy = Busy::new();
    for mode in ["fresh", "resume", "use"] {
        for pattern in 0..64u32 {
            let (mut run, _) = InstallRun::start("/x", mode).unwrap();
            let state = match mode {
                "fresh" => "empty",
                "resume" => "dsh_incomplete",
                _ => "dsh_valid",
            };
            let mut count = 0;
            loop {
                let ok = (pattern >> (count % 6)) & 1 == 1;
                let text = if count == 0 { state } else { "early EOF" };
                let tool = Some(Tool { program: "pnpm".to_string(), prefix: vec![] });
                let reply = Reply { ok, text: text.to_string(), tool };
                if matches!(run.advance(reply, &mut busy), InstallAction::Nothing) {
                    assert!(!busy.is_updating());
                    break;
                }
                count += 1;
                assert!(count < 54);
            }
        }
    }
}

#[test]
fn an_installation_used_as_it_is_does_not_hold_the_window() {
    let mut busy = Busy::new();
    let (mut run, _) = InstallRun::start("/x", "use").unwrap();
    for text in ["dsh_valid", "", "", "http://u"] {
        run.advance(says(true, text), &mut busy);
        assert!(!busy.is_updating());
    }
    busy.set_updating(true);
    assert!(finished(run.advance(says(true, ""), &mut busy)).ok);
    assert!(busy.is_updating());
}

#[test]
fn programs_are_looked_for_under_their_names() {
    assert_eq!(names_on_path(Program::Git), list(&["git.exe"]));
    assert_eq!(names_on_path(Program::Node), list(&["node.exe"]));
    assert_eq!(names_on_path(Program::Pnpm), list(&["pnpm.cmd", "pnpm.exe"]));
    assert_eq!(names_on_path(Program::Corepack), list(&["corepack.cmd", "corepack.exe"]));
    for program in [Program::Git, Program::Node, Program::Pnpm, Program::Corepack] {
        assert_eq!(first_name(program), names_on_path(program)[0]);
    }
    assert_eq!(version_args(&list(&["pnpm"])), list(&["pnpm", "--version"]));
    assert_eq!(remote_args(), list(&["remote", "get-url", "origin"]));
}
