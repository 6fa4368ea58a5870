use dsh_shell::check_run::{CheckAction, CheckReply, CheckRun};
use dsh_shell::rollback_run::{RollbackAction, RollbackRun};
use dsh_shell::steps::{
    run_update_step, target_branch_spec, update_commands, StepRun, Tool, OUTPUT_LIMIT,
};
use dsh_shell::update::{
    check_update_blocking, checked_commit, chosen_target, clear_stale_git_lock, fetch_and_compare,
    git_not_run, git_output, git_reply, is_safe_version_ref, looks_like_local_change_conflict,
    looks_like_network_error, names_local_changes, names_network, restore_managed_files,
    rollback_target, Busy,
};
use dsh_shell::update_run::{Action, Reply, UpdateResult, UpdateRun};

fn list(items: &[&str]) -> Vec<String> {
    items.iter().map(|s| s.to_string()).collect()
}

fn tool() -> Tool {
    Tool { program: "corepack".to_string(), prefix: list(&["pnpm"]) }
}

fn says(ok: bool, text: &str) -> Reply {
    Reply { ok, text: text.to_string(), tool: None }
}

fn found() -> Reply {
    Reply { ok: true, text: String::new(), tool: Some(tool()) }
}

fn git_args(action: Action) -> Vec<String> {
    match action {
        Action::Git(args) => args,
        other => panic!("{:?}", other),
    }
}

fn step(action: Action) -> (usize, String, Vec<String>) {
    match action {
        Action::RunStep { index, label, command } => {
            let mut line = vec![command.program];
            line.extend(command.args);
            (index, label, line)
        }
        other => panic!("{:?}", other),
    }
}

fn finished(action: Action) -> UpdateResult {
    match action {
        Action::Finish(result) => result,
        other => panic!("{:?}", other),
    }
}

fn refused(action: Action) -> String {
    match action {
        Action::Refuse(message) => message,
        other => panic!("{:?}", other),
    }
}

/// Leads an update without a chosen version to its first command, from commit `old`.
fn at_first_step(force: Option<bool>) -> (UpdateRun, Action, Busy) {
    let mut busy = Busy::new();
    let (mut run, first) = UpdateRun::start(true, force, None).unwrap();
    assert!(matches!(first, Action::ClearLock));
    assert_eq!(git_args(run.advance(says(true, ""), &mut busy)), list(&["fetch", "origin"]));
    assert_eq!(git_args(run.advance(says(true, ""), &mut busy)), list(&["rev-parse", "HEAD"]));
    assert_eq!(git_args(run.advance(says(true, "old"), &mut busy)), list(&["rev-parse", "@{u}"]));
    assert!(matches!(run.advance(says(true, "new"), &mut busy), Action::FindPnpm));
    assert_eq!(git_args(run.advance(found(), &mut busy)), list(&["rev-parse", "HEAD"]));
    assert!(matches!(run.advance(says(true, "old"), &mut busy), Action::ClearLock));
    assert!(matches!(run.advance(says(true, ""), &mut busy), Action::LookForFile(f) if f == "package.json"));
    assert_eq!(
        git_args(run.advance(says(true, ""), &mut busy)),
        list(&["diff", "--quiet", "--", "package.json"])
    );
    assert_eq!(git_args(run.advance(says(false, ""), &mut busy)), list(&["checkout", "--", "package.json"]));
    assert!(matches!(run.advance(says(true, ""), &mut busy), Action::LookForFile(f) if f == "pnpm-lock.yaml"));
    assert!(matches!(run.advance(says(false, ""), &mut busy), Action::StopServer));
    assert!(!busy.is_updating());
    let action = run.advance(says(true, ""), &mut busy);
    assert!(busy.is_updating());
    (run, action, busy)
}

#[test]
fn the_commands_are_those_of_the_readme() {
    let commands = update_commands(&tool());
    let lines: Vec<String> =
        commands.iter().map(|c| format!("{} {}", c.program, c.args.join(" "))).collect();
    assert_eq!(
        lines,
        list(&[
            "git pull --ff-only",
            "corepack pnpm install --config.confirmModulesPurge=false",
            "corepack pnpm run clean",
            "corepack pnpm run build",
        ])
    );
    let tolerated: Vec<bool> = commands.iter().map(|c| c.tolerated).collect();
    assert_eq!(tolerated, vec![false, false, true, false]);
    assert_eq!(
        commands[3].envs,
        vec![("DSH_BUILD_CLIENT_PROFILE".to_string(), "official".to_string())]
    );
    assert_eq!(
        target_branch_spec("dsh-v1"),
        ("dsh-selected".to_string(), "refs/tags/dsh-v1".to_string())
    );
}

#[test]
fn the_end_of_the_output_is_kept() {
    let mut run = StepRun::new();
    assert_eq!(run.line("a"), "a\n");
    assert_eq!(run.finish(Some(0)), (true, "done".to_string(), "a\n".to_string()));
    let lines: Vec<String> = (0..1000).map(|i| format!("第 {i} 行")).collect();
    let all: String = lines.iter().map(|l| format!("{l}\n")).collect();
    let (ok, output) = run_update_step("p", Some(&lines), Some(1));
    assert!(!ok);
    assert!(output.len() <= OUTPUT_LIMIT && output.len() > OUTPUT_LIMIT - 4);
    assert!(all.ends_with(&output));
    assert_eq!(StepRun::new().finish(None), (false, "failed".to_string(), String::new()));
    assert_eq!(
        run_update_step("p", None, None),
        (false, "无法启动 p（未安装或不在 PATH）".to_string())
    );
}

#[test]
fn what_git_says_is_handed_on() {
    let args = list(&["rev-parse", "HEAD"]);
    assert_eq!(git_reply(&args, true, " abc\n", "x"), Ok("abc".to_string()));
    let long: String = "错".repeat(600);
    assert_eq!(
        git_reply(&args, false, "", &long),
        Err(format!("git rev-parse HEAD 失败：{}", "错".repeat(500)))
    );
    assert_eq!(git_output(&args, true, &vec![b'a', 0xff, b'\n'], &vec![]), Ok("a\u{fffd}".to_string()));
    assert_eq!(
        git_output(&args, false, &vec![], &"坏".as_bytes().to_vec()),
        Err("git rev-parse HEAD 失败：坏".to_string())
    );
    assert_eq!(git_not_run("e"), "无法运行 git: e");
}

#[test]
fn a_young_lock_stays() {
    assert!(!clear_stale_git_lock(Some(59)));
    assert!(clear_stale_git_lock(Some(60)));
    assert!(clear_stale_git_lock(None));
}

#[test]
fn small_decisions() {
    assert!(restore_managed_files(true, false));
    assert!(!restore_managed_files(true, true));
    assert!(!restore_managed_files(false, false));
    assert!(fetch_and_compare("a", "a").2);
    assert!(!fetch_and_compare("a", "b").2);
    let mut busy = Busy::new();
    assert!(!busy.is_updating());
    busy.set_updating(true);
    assert!(busy.is_updating());
}

#[test]
fn trouble_is_recognised_in_any_case() {
    assert!(looks_like_local_change_conflict(
        "error: Your local changes to the following files would be overwritten by merge"
    ));
    assert!(looks_like_local_change_conflict("Please COMMIT your changes or stash them"));
    assert!(!looks_like_local_change_conflict("fatal"));
    assert!(looks_like_network_error("fatal: Unable to access 'x'"));
    assert!(looks_like_network_error("RPC failed; early EOF"));
    assert!(looks_like_network_error("İ CONNECT tunnel failed"));
    assert!(!looks_like_network_error("not found"));
    assert!(names_network("the remote end hung up"));
    assert!(!names_network("The Remote End Hung Up"));
    assert!(names_local_changes("untracked working tree files"));
}

#[test]
fn version_names_are_checked() {
    let long = |count: usize| format!("dsh-v{}", "1".repeat(count - 5));
    for good in ["master", "dsh-v0.1.0-rc.8", "dsh-v1.2.3-alpha.1", "dsh-v1/b_c", &long(80)] {
        assert!(is_safe_version_ref(good), "{}", good);
    }
    for bad in [
        "",
        "-x",
        "/x",
        "a/b_c",
        "feature/x",
        "Master",
        "master2",
        "dsh-x",
        "dsh-v1..2",
        "dsh-v1@b",
        "dsh-v1 b",
        "dsh-v中",
        "dsh-v1;b",
        &long(81),
    ] {
        assert!(!is_safe_version_ref(bad), "{}", bad);
    }
    assert_eq!(chosen_target(None), Ok(None));
    assert_eq!(chosen_target(Some("  ")), Ok(None));
    assert_eq!(chosen_target(Some(" dsh-v1 ")), Ok(Some("dsh-v1".to_string())));
    assert_eq!(chosen_target(Some(" a..b")), Err("非法的版本目标:  a..b".to_string()));
}

#[test]
fn commit_names_are_checked() {
    assert_eq!(checked_commit("0123abF"), Ok("0123abF".to_string()));
    assert_eq!(checked_commit("012345"), Err("非法的提交哈希: 012345".to_string()));
    assert!(checked_commit(&"a".repeat(40)).is_ok());
    assert!(checked_commit(&"a".repeat(41)).is_err());
    assert!(checked_commit("0123abg").is_err());
    assert_eq!(rollback_target(" ABCDEF0 "), Ok("abcdef0".to_string()));
    assert_eq!(rollback_target("XYZ"), Err("非法的提交哈希: xyz".to_string()));
}

#[test]
fn versions_are_listed_from_the_newest() {
    let tags = "refs/tags/dsh-v0.1.0\to1\tp1\nrefs/tags/dsh-v0.2.0-rc.1\to2\t\nrefs/tags/\to3\t\nrefs/tags/dsh-v0.2.0-alpha.1\t\t\nrefs/tags/dsh-v0.3.0-alpha.2-rc\to5\tp5\ndsh-x\to6";
    let found = check_update_blocking("p1", Some("m"), Some(tags), &list(&["o2", "m"]));
    assert_eq!(found.local, "p1");
    let rows: Vec<(&str, &str, &str, bool, bool)> = found
        .entries
        .iter()
        .map(|e| {
            (e.reference.as_str(), e.commit.as_str(), e.kind.as_str(), e.is_current, e.known_bad)
        })
        .collect();
    assert_eq!(
        rows,
        vec![
            ("master", "m", "latest", false, true),
            ("dsh-x", "o6", "stable", false, false),
            ("dsh-v0.3.0-alpha.2-rc", "p5", "alpha", false, false),
            ("dsh-v0.2.0-rc.1", "o2", "rc", false, true),
            ("dsh-v0.1.0", "p1", "stable", true, false),
        ]
    );
    assert!(check_update_blocking("p1", Some(""), None, &vec![]).entries.is_empty());
}

fn checked(ok: bool, text: &str) -> CheckReply {
    CheckReply { ok, text: text.to_string(), bad: list(&["b"]) }
}

#[test]
fn a_look_at_the_versions_takes_its_course() {
    assert_eq!(CheckRun::start(false).err(), Some("仓库位置不可用".to_string()));
    let (mut run, first) = CheckRun::start(true).unwrap();
    assert!(matches!(first, CheckAction::ClearLock));
    match run.advance(checked(true, "")) {
        CheckAction::Git(args) => assert_eq!(args, list(&["fetch", "origin", "--tags", "--force"])),
        other => panic!("{:?}", other),
    }
    run.advance(checked(true, ""));
    assert!(matches!(run.advance(checked(true, "local")), CheckAction::ReadBad));
    run.advance(checked(true, ""));
    match run.advance(checked(true, "b")) {
        CheckAction::Git(args) => assert_eq!(
            args,
            list(&[
                "for-each-ref",
                "--format=%(refname)\t%(objectname)\t%(*objectname)",
                "refs/tags/dsh-*"
            ])
        ),
        other => panic!("{:?}", other),
    }
    match run.advance(checked(false, "")) {
        CheckAction::Finish(versions) => {
            assert_eq!(versions.local, "local");
            assert_eq!(versions.entries.len(), 1);
            assert!(versions.entries[0].known_bad);
        }
        other => panic!("{:?}", other),
    }
    assert!(matches!(run.advance(checked(true, "")), CheckAction::Nothing));
    let (mut run, _) = CheckRun::start(true).unwrap();
    run.advance(checked(true, ""));
    assert!(matches!(run.advance(checked(false, "e")), CheckAction::Refuse(m) if m == "e"));
}

#[test]
fn an_update_that_is_not_needed_touches_nothing() {
    let mut busy = Busy::new();
    let (mut run, _) = UpdateRun::start(true, None, None).unwrap();
    run.advance(says(true, ""), &mut busy);
    run.advance(says(true, ""), &mut busy);
    run.advance(says(true, "same"), &mut busy);
    let result = finished(run.advance(says(true, "same"), &mut busy));
    assert!(result.ok && result.already_latest);
    assert!(matches!(run.advance(says(true, ""), &mut busy), Action::Nothing));
}

#[test]
fn an_update_is_refused() {
    let mut busy = Busy::new();
    assert_eq!(UpdateRun::start(false, None, None).err(), Some("仓库位置不可用".to_string()));
    assert_eq!(
        UpdateRun::start(true, None, Some("-x")).err(),
        Some("非法的版本目标: -x".to_string())
    );
    let (mut run, _) = UpdateRun::start(true, None, None).unwrap();
    run.advance(says(true, ""), &mut busy);
    assert_eq!(refused(run.advance(says(false, "git fetch 失败"), &mut busy)), "git fetch 失败");
    let (mut run, _) = UpdateRun::start(true, None, Some("dsh-v9")).unwrap();
    assert_eq!(
        git_args(run.advance(says(true, ""), &mut busy)),
        list(&["fetch", "origin", "--tags", "--force"])
    );
    assert_eq!(
        git_args(run.advance(says(true, ""), &mut busy)),
        list(&["rev-parse", "--verify", "refs/tags/dsh-v9"])
    );
    assert_eq!(refused(run.advance(says(false, ""), &mut busy)), "远端不存在所选版本: dsh-v9");
    let (mut run, _) = UpdateRun::start(true, None, Some("master")).unwrap();
    run.advance(says(true, ""), &mut busy);
    assert_eq!(
        git_args(run.advance(says(true, ""), &mut busy)),
        list(&["rev-parse", "--verify", "origin/master"])
    );
    run.advance(says(true, ""), &mut busy);
    assert_eq!(
        refused(run.advance(says(true, ""), &mut busy)),
        "找不到 pnpm 或 corepack：请安装 Node.js（自带 corepack），或在终端运行 npm install -g pnpm"
    );
}

#[test]
fn an_update_runs_its_commands() {
    let (mut run, action, mut busy) = at_first_step(None);
    assert_eq!(
        step(action),
        (0, "拉取官方最新代码（git pull）".to_string(), list(&["git", "pull", "--ff-only"]))
    );
    assert_eq!(step(run.advance(says(true, ""), &mut busy)).1, "安装依赖（pnpm install）");
    assert_eq!(step(run.advance(says(true, ""), &mut busy)).1, "清理旧构建产物（pnpm run clean）");
    let (index, label, line) = step(run.advance(says(false, "busy"), &mut busy));
    assert_eq!((index, label.as_str()), (3, "重新构建（pnpm run build）"));
    assert_eq!(line, list(&["corepack", "pnpm", "run", "build"]));
    assert_eq!(git_args(run.advance(says(true, ""), &mut busy)), list(&["rev-parse", "HEAD"]));
    assert!(matches!(run.advance(says(true, "new"), &mut busy), Action::ClearBad(c) if c == "new"));
    assert!(busy.is_updating());
    let result = finished(run.advance(says(true, ""), &mut busy));
    assert!(!busy.is_updating());
    assert!(result.ok && !result.already_latest && !result.stashed_changes);
}

#[test]
fn a_forced_update_begins_with_the_second_command() {
    let (_, action, _) = at_first_step(Some(true));
    assert_eq!(step(action).0, 1);
}

#[test]
fn a_chosen_tag_is_switched_to() {
    let mut busy = Busy::new();
    let (mut run, _) = UpdateRun::start(true, None, Some("dsh-v9")).unwrap();
    for _ in 0..3 {
        run.advance(says(true, "x"), &mut busy);
    }
    run.advance(found(), &mut busy);
    run.advance(says(false, ""), &mut busy);
    run.advance(says(true, ""), &mut busy);
    run.advance(says(false, ""), &mut busy);
    assert!(matches!(run.advance(says(false, ""), &mut busy), Action::StopServer));
    assert_eq!(
        step(run.advance(says(true, ""), &mut busy)),
        (
            0,
            "切换到所选版本 dsh-v9".to_string(),
            list(&["git", "checkout", "-B", "dsh-selected", "refs/tags/dsh-v9"])
        )
    );
    assert_eq!(step(run.advance(says(true, ""), &mut busy)).0, 1);
}

#[test]
fn the_first_command_is_tried_again() {
    let (mut run, _, mut busy) = at_first_step(None);
    let network = "fatal: unable to access";
    for secs in [5u64, 10, 15] {
        assert!(matches!(run.advance(says(false, network), &mut busy), Action::Sleep(s) if s == secs));
        assert_eq!(step(run.advance(says(true, ""), &mut busy)).0, 0);
    }
    let both = "unable to access; your local changes";
    assert_eq!(
        git_args(run.advance(says(false, both), &mut busy)),
        list(&["stash", "push", "--include-untracked", "-m", "dsh-shell auto-stash"])
    );
    assert_eq!(step(run.advance(says(true, ""), &mut busy)).0, 0);
    assert_eq!(git_args(run.advance(says(false, both), &mut busy)), list(&["rev-parse", "HEAD"]));
    assert!(matches!(run.advance(says(true, "old"), &mut busy), Action::RestoreServer));
    assert!(busy.is_updating());
    let result = finished(run.advance(says(true, ""), &mut busy));
    assert!(!busy.is_updating());
    assert!(!result.ok && result.stashed_changes);
    assert_eq!(result.failed_step.as_deref(), Some("拉取官方最新代码（git pull）"));
    assert_eq!(result.output_tail.as_deref(), Some(both));
    assert!(result.prev_head.is_none());
}

#[test]
fn changes_that_cannot_be_set_aside_fail_the_update() {
    let (mut run, _, mut busy) = at_first_step(None);
    let conflict = "error: Your local changes";
    run.advance(says(false, conflict), &mut busy);
    assert_eq!(git_args(run.advance(says(false, "no"), &mut busy)), list(&["rev-parse", "HEAD"]));
    run.advance(says(false, ""), &mut busy);
    assert!(busy.is_updating());
    let result = finished(run.advance(says(true, ""), &mut busy));
    assert!(!busy.is_updating());
    assert!(!result.stashed_changes);
    assert_eq!(result.output_tail.as_deref(), Some(conflict));
}

#[test]
fn a_failed_build_is_recorded_and_taken_back() {
    let (mut run, _, mut busy) = at_first_step(None);
    run.advance(says(true, ""), &mut busy);
    run.advance(says(true, ""), &mut busy);
    run.advance(says(true, ""), &mut busy);
    run.advance(says(false, "MISSING_EXPORT"), &mut busy);
    assert!(matches!(run.advance(says(true, "new"), &mut busy), Action::MarkBad(c) if c == "new"));
    assert_eq!(git_args(run.advance(says(true, ""), &mut busy)), list(&["reset", "--hard", "old"]));
    let (index, label, _) = step(run.advance(says(true, ""), &mut busy));
    assert_eq!((index, label.as_str()), (1, "回滚重建 · 安装依赖（pnpm install）"));
    assert_eq!(step(run.advance(says(true, ""), &mut busy)).0, 2);
    assert_eq!(step(run.advance(says(false, ""), &mut busy)).0, 3);
    assert!(matches!(run.advance(says(true, ""), &mut busy), Action::RestoreServer));
    assert!(busy.is_updating());
    let result = finished(run.advance(says(true, ""), &mut busy));
    assert!(!busy.is_updating());
    assert_eq!(result.prev_head.as_deref(), Some("old"));
    assert!(result.auto_rolled_back && !result.rollback_rebuild_failed);
    assert_eq!(result.failed_step.as_deref(), Some("重新构建（pnpm run build）"));
}

#[test]
fn an_earlier_version_that_does_not_build_is_told() {
    let (mut run, _, mut busy) = at_first_step(None);
    run.advance(says(true, ""), &mut busy);
    run.advance(says(false, "x"), &mut busy);
    assert_eq!(git_args(run.advance(says(true, "new"), &mut busy)), list(&["reset", "--hard", "old"]));
    run.advance(says(true, ""), &mut busy);
    assert!(matches!(run.advance(says(false, ""), &mut busy), Action::RestoreServer));
    assert!(busy.is_updating());
    let result = finished(run.advance(says(true, ""), &mut busy));
    assert!(!busy.is_updating());
    assert!(!result.auto_rolled_back && result.rollback_rebuild_failed);
}

#[test]
fn an_update_ends_whatever_comes_back() {
    let mut busy = Busy::new();
    for pattern in 0..64u32 {
        let (mut run, _) = UpdateRun::start(true, Some(pattern & 1 == 1), None).unwrap();
        let mut count = 0;
        loop {
            let ok = (pattern >> (count % 6)) & 1 == 1;
            let text = if ok { "a" } else { "unable to access your local changes" };
            let reply = Reply { ok, text: format!("{text}{count}"), tool: Some(tool()) };
            if matches!(run.advance(reply, &mut busy), Action::Nothing) {
                assert!(!busy.is_updating());
                break;
            }
            count += 1;
            assert!(count < 300);
        }
    }
}

#[test]
fn the_way_back_rebuilds_and_starts_the_server() {
    assert_eq!(RollbackRun::start("xyz", true).err(), Some("非法的提交哈希: xyz".to_string()));
    assert_eq!(RollbackRun::start("abcdef0", false).err(), Some("仓库位置不可用".to_string()));
    let (mut run, first) = RollbackRun::start(" ABCDEF0 ", true).unwrap();
    assert!(matches!(first, RollbackAction::StopServer));
    assert!(matches!(run.advance(says(true, "")), RollbackAction::ClearLock));
    match run.advance(says(true, "")) {
        RollbackAction::Git(args) => assert_eq!(args, list(&["reset", "--hard", "abcdef0"])),
        other => panic!("{:?}", other),
    }
    assert!(matches!(run.advance(says(true, "")), RollbackAction::FindPnpm));
    assert!(matches!(run.advance(found()), RollbackAction::Git(_)));
    for want in 1..4usize {
        match run.advance(says(true, "")) {
            RollbackAction::RunStep { index, .. } => assert_eq!(index, want),
            other => panic!("{:?}", other),
        }
    }
    assert!(matches!(run.advance(says(true, "")), RollbackAction::RestoreServer));
    assert!(matches!(run.advance(says(true, "")), RollbackAction::Finish));
    assert!(matches!(run.advance(says(true, "")), RollbackAction::Nothing));
}

#[test]
fn the_way_back_fails_with_git() {
    let (mut run, _) = RollbackRun::start("abcdef0", true).unwrap();
    run.advance(says(true, ""));
    run.advance(says(true, ""));
    assert!(matches!(
        run.advance(says(false, "e")),
        RollbackAction::Fail(m) if m == "git reset 失败: e"
    ));
    let (mut run, _) = RollbackRun::start("abcdef0", true).unwrap();
    run.advance(says(true, ""));
    run.advance(says(true, ""));
    run.advance(says(true, ""));
    assert!(matches!(run.advance(says(false, "")), RollbackAction::RestoreServer));
}

#[test]
fn what_another_run_notes_stays_where_nothing_is_touched() {
    let mut busy = Busy::new();
    busy.set_updating(true);
    let (mut run, _) = UpdateRun::start(true, None, None).unwrap();
    run.advance(says(true, ""), &mut busy);
    run.advance(says(true, ""), &mut busy);
    run.advance(says(true, "same"), &mut busy);
    assert!(finished(run.advance(says(true, "same"), &mut busy)).already_latest);
    assert!(busy.is_updating());
    let (mut run, _) = UpdateRun::start(true, None, None).unwrap();
    run.advance(says(true, ""), &mut busy);
    refused(run.advance(says(false, "e"), &mut busy));
    assert!(busy.is_updating());
}
