//! Building, logs, the terminal, git, and recipes.

use harborbeacon_desktop::actionrun::Action;
use harborbeacon_desktop::actions::CommandRun;
use harborbeacon_desktop::devloop::{
    cargo_build_args, check_git_add, check_restart_build, do_build, do_build_and_restart,
    do_git_commit, do_git_push, do_terminal_command, do_view_logs, is_agent_log_name,
    is_high_risk_terminal_command, last_n_lines, latest_target, next_target_dir, truncate_chars,
    wrap_terminal_command, AgentContext, LogFile, TerminalRun,
};
use harborbeacon_desktop::steps::{
    execute_plan_step, execute_recipe, find_recipe, plan_step_given, text_action, RecipeRun,
    StepCommand,
};

fn ran(success: bool, stdout: &str, stderr: &str) -> CommandRun {
    CommandRun::Finished { success, stdout: stdout.to_string(), stderr: stderr.to_string() }
}

fn terminal(success: bool, code: Option<i32>, stdout: &str, stderr: &str) -> String {
    do_terminal_command(TerminalRun::Finished {
        success,
        code,
        stdout: stdout.to_string(),
        stderr: stderr.to_string(),
    })
}

#[test]
fn cutting() {
    assert_eq!(truncate_chars("你好吗", 3), "你好吗");
    assert_eq!(truncate_chars("你好吗", 2), "你好\n...(output truncated)");
    assert_eq!(truncate_chars("x", 0), "\n...(output truncated)");
    assert_eq!(last_n_lines("a\r\nb\nc\n", 2), "b\nc");
    assert_eq!(last_n_lines("a", 5), "a");
    assert_eq!(last_n_lines("a\nb", 0), "");
}

#[test]
fn build_directories() {
    let names = |list: &[&str]| -> Vec<String> { list.iter().map(|s| s.to_string()).collect() };
    assert_eq!(latest_target(&names(&[])), 0);
    assert_eq!(
        latest_target(&names(&[
            "target_feishu_7",
            "target_feishu_12",
            "target_feishu_x",
            "target",
            "target_feishu_4294967296",
            "target_feishu_+3",
        ])),
        12
    );
    assert_eq!(next_target_dir(0), "target_feishu_1");
    assert_eq!(next_target_dir(12), "target_feishu_13");
    assert_eq!(
        cargo_build_args("t"),
        vec!["build", "--target-dir", "t", "-p", "harborbeacon-desktop-app"]
    );
}

#[test]
fn builds() {
    assert_eq!(
        do_build(&ran(true, "", "1\n2\n3\n4\n5\n6\n"), "t"),
        "✅ 编译成功\ntarget: t\n2\n3\n4\n5\n6"
    );
    assert_eq!(do_build(&ran(false, "", "bad"), "t"), "❌ 编译失败\nbad");
    assert_eq!(
        do_build(&CommandRun::NotStarted("x".into()), "t"),
        "❌ 无法启动 cargo: x"
    );
}

#[test]
fn restarts() {
    let ctx = AgentContext {
        desktop_root: "/d".into(),
        app_id: "i".into(),
        app_secret: "s".into(),
        domain: "dom".into(),
        workspace: "w".into(),
    };
    let (reply, info) = do_build_and_restart(&ctx, &ran(true, "", ""), "t", "/d/exe", true);
    assert_eq!(reply, "✅ 编译成功 (t)\n正在重启…飞书连接将短暂中断后自动恢复。");
    let info = info.expect("a restart");
    assert_eq!(info.exe_path, "/d/exe");
    assert_eq!(
        info.args,
        vec!["--app-id", "i", "--app-secret", "s", "--domain", "dom", "--workspace", "w"]
    );
    let (reply, info) = do_build_and_restart(&ctx, &ran(true, "", ""), "t", "/d/exe", false);
    assert_eq!(reply, "❌ 编译产物不存在: /d/exe");
    assert!(info.is_none());
    let (reply, info) = do_build_and_restart(&ctx, &ran(false, "", "bad"), "t", "/d/exe", true);
    assert_eq!(reply, "❌ 编译失败，取消重启\nbad");
    assert!(info.is_none());
    assert_eq!(check_restart_build(&ran(true, "", "")), None);
    assert_eq!(
        check_restart_build(&CommandRun::NotStarted("x".into())),
        Some("❌ 无法启动 cargo: x".to_string())
    );
}

fn log(name: &str, content: Option<&str>) -> LogFile {
    LogFile { name: name.into(), content: content.map(str::to_string) }
}

#[test]
fn logs() {
    assert_eq!(do_view_logs(false, vec![]), "日志目录不存在。");
    assert_eq!(do_view_logs(true, vec![]), "最新日志为空。");
    assert_eq!(
        do_view_logs(
            true,
            vec![
                log("desktop-agent-1.log", Some("one")),
                log("desktop-agent-2.err.log", Some(" \n")),
                log("desktop-agent-3.log", Some("three\n")),
                log("desktop-agent-4.log", None),
                log("desktop-agent-5.txt", Some("five")),
                log("other.log", Some("other")),
                log("desktop-agent-0.log", Some("zero")),
            ]
        ),
        "── desktop-agent-3.log ──\nthree\n── desktop-agent-1.log ──\none\n"
    );
    assert!(is_agent_log_name("desktop-agent-x.err.log"));
    assert!(!is_agent_log_name("desktop-agent-x.log.txt"));
}

#[test]
fn commits_and_pushes() {
    assert_eq!(check_git_add(&ran(true, "", "")), None);
    assert_eq!(check_git_add(&CommandRun::NotStarted("x".into())), None);
    assert_eq!(
        check_git_add(&ran(false, "", "denied")),
        Some("❌ git add 失败: denied".to_string())
    );
    assert_eq!(do_git_commit(&ran(true, "[main] x\n", "")), "✅ 已提交\n[main] x");
    assert_eq!(
        do_git_commit(&ran(false, " nothing \n", " e ")),
        "⚠️ git commit:\nnothing\ne"
    );
    assert_eq!(
        do_git_commit(&CommandRun::NotStarted("x".into())),
        "❌ 无法执行 git: x"
    );
    assert_eq!(do_git_push(&ran(true, " a\n", " b\n")), "✅ 已推送\nab");
    assert_eq!(do_git_push(&ran(false, "a", " b\n")), "❌ git push 失败:\nb");
    assert_eq!(do_git_push(&CommandRun::NotStarted("x".into())), "❌ 无法执行 git: x");
}

#[test]
fn risky_commands() {
    for command in [
        "rm x", "RM -rf /", "del a", "erase a", "rmdir a", "format c:", "mkfs.ext4", "shutdown /s",
        "Reboot", "Stop-Process -Id 1", "taskkill /im x", "sc delete x", "reg delete x",
        "git reset --hard HEAD", "git clean -fdx", "Remove-Item x",
    ] {
        assert!(is_high_risk_terminal_command(command), "{}", command);
    }
    for command in ["ls", "git status", "cargo fmt", "echo rm"] {
        assert!(!is_high_risk_terminal_command(command), "{}", command);
    }
}

#[test]
fn terminal_replies() {
    assert_eq!(terminal(true, Some(0), " out \n", " \n"), "✅ /terminal 执行成功\nout");
    assert_eq!(terminal(true, Some(0), "", "warn\n"), "✅ /terminal 执行成功\nwarn");
    assert_eq!(terminal(true, Some(0), "a", "b"), "✅ /terminal 执行成功\na\nb");
    assert_eq!(
        terminal(false, Some(-3), "a", ""),
        "❌ /terminal 执行失败 (exit=-3)\na"
    );
    assert_eq!(terminal(false, None, "", "e"), "❌ /terminal 执行失败 (exit=-1)\ne");
    assert_eq!(
        do_terminal_command(TerminalRun::NotStarted("x".into())),
        "❌ /terminal 无法启动 shell: x"
    );
    let long = "y".repeat(6001);
    let reply = terminal(true, Some(0), &long, "");
    assert!(reply.ends_with("y\n...(output truncated)"));
    assert_eq!(reply.chars().filter(|c| *c == 'y').count(), 6000);
    assert_eq!(
        wrap_terminal_command("dir"),
        "[Console]::OutputEncoding = [System.Text.Encoding]::UTF8; $OutputEncoding = [System.Text.Encoding]::UTF8; dir"
    );
}

#[test]
fn steps_of_a_plan() {
    assert_eq!(
        execute_plan_step("@recipe: snake_python_bootstrap "),
        StepCommand::Recipe("snake_python_bootstrap".into())
    );
    assert_eq!(
        execute_plan_step("/terminal  git status "),
        StepCommand::Terminal("git status".into())
    );
    assert_eq!(
        execute_plan_step("读取文件 examples/snake-game/README.md"),
        StepCommand::Act(Action::Read("examples/snake-game/readme.md".into()))
    );
    assert_eq!(
        execute_plan_step("diff"),
        StepCommand::Act(Action::Diff(".".into()))
    );
    assert_eq!(
        execute_plan_step("喝咖啡"),
        StepCommand::Manual("▸ 喝咖啡（需要人工操作）".into())
    );
    assert_eq!(
        plan_step_given("/terminal  ", None),
        StepCommand::Manual("▸ /terminal  （需要人工操作）".into())
    );
    assert_eq!(
        plan_step_given("x", Some(Action::Test("t".into()))),
        StepCommand::Act(Action::Test("t".into()))
    );
    assert_eq!(text_action("ls  src "), Some(Action::List("src".into())));
}

#[test]
fn recipes() {
    let recipe = find_recipe("snake_python_bootstrap").expect("a recipe");
    assert_eq!(recipe.dir, vec!["examples", "snake-game"]);
    let names: Vec<&str> = recipe.files.iter().map(|f| f.0.as_str()).collect();
    assert_eq!(names, vec!["README.md", "requirements.txt", "main.py"]);
    assert!(recipe.files[0].1.starts_with("# Snake Game (pygame)\n\n## Run\n"));
    assert!(recipe.files[0].1.ends_with("generated by HarborBeacon recipe.\n"));
    assert_eq!(recipe.files[1].1, "pygame>=2.5.0\n");
    assert!(recipe.files[2].1.starts_with("import random\nimport sys\n"));
    assert!(recipe.files[2].1.ends_with("if __name__ == \"__main__\":\n    run()\n"));
    assert_eq!(find_recipe("x").unwrap_err(), "Unknown recipe: x");
    assert_eq!(
        execute_recipe(&RecipeRun::Made),
        "✅ 已生成示例项目：examples/snake-game\n- main.py\n- requirements.txt\n- README.md"
    );
    assert_eq!(
        execute_recipe(&RecipeRun::NoDirectory("x".into())),
        "Recipe failed: cannot create directory: x"
    );
    assert_eq!(execute_recipe(&RecipeRun::NotWritten("x".into())), "Recipe failed: x");
}

#[test]
fn risk_cannot_be_hidden() {
    for c in ["rm -rf x", "git reset --hard", "Σ format c:"] {
        assert!(is_high_risk_terminal_command(c));
        assert!(is_high_risk_terminal_command(&format!("echo Σ{c}Σ && İ")));
        assert!(is_high_risk_terminal_command(&c.to_ascii_uppercase()));
    }
    assert!(!is_high_risk_terminal_command("echo hi"));
}
