//! Dealing with messages.

use harborbeacon_desktop::actionrun::Action;
use harborbeacon_desktop::chat::VscodeChatSession;
use harborbeacon_desktop::contracts::{AutonomyLevel, ChatType, RuntimeConfig};
use harborbeacon_desktop::devloop::RestartInfo;
use harborbeacon_desktop::dispatch::{
    begin, dispatch_at, dispatch_with_session, Dispatch, Event, Next, Phase, Request,
};
use harborbeacon_desktop::edit::Edit;
use harborbeacon_desktop::format::{fmt_session_status, help_text};
use harborbeacon_desktop::intent::Intent;
use harborbeacon_desktop::order::{is_before, sort_names};
use harborbeacon_desktop::session::{SessionMode, SessionSnapshotMeta, UserSession};
use harborbeacon_desktop::text::{
    count_of, decimal_of, decimal_of_i64, lines_of, parse_number, pieces_of, replaced_first,
    strip_prefix_ci, trimmed, words_of,
};

const NOW: u64 = 1774430905;

fn user() -> UserSession {
    UserSession { user_id: "u".into(), ..Default::default() }
}

fn planned(steps: &[&str]) -> UserSession {
    UserSession {
        pending_steps: steps.iter().map(|s| s.to_string()).collect(),
        mode: SessionMode::Planning,
        ..user()
    }
}

fn asked(turn: (Dispatch, Next)) -> (Dispatch, Request) {
    match turn {
        (d, Next::Ask(request)) => (d, request),
        (_, next) => panic!("over: {:?}", next),
    }
}

fn done(turn: (Dispatch, Next)) -> (UserSession, String, bool) {
    match turn {
        (d, Next::Done { reply, restart, save }) => {
            assert!(restart.is_none());
            assert_eq!(d.phase, Phase::Over);
            (d.session, reply, save)
        }
        (_, next) => panic!("not over: {:?}", next),
    }
}

fn report(d: Dispatch, event: Event) -> (Dispatch, Next) {
    assert!(d.accepts(&event));
    d.resume_at(event, NOW + 1)
}

fn text(s: &str) -> Event {
    Event::Text(s.to_string())
}

#[test]
fn nothing_to_continue() {
    for word in ["继续", "run all"] {
        let (s, reply, save) = done(dispatch_at(word, user(), NOW));
        assert_eq!(reply, "无待执行步骤。\n发送 `plan <任务>` 设置计划，或直接执行命令。");
        assert!(save);
        assert_eq!(s.updated_at, 0);
    }
}

#[test]
fn one_step_at_a_time() {
    let (d, request) = asked(dispatch_at(" 继续 ", planned(&["a", "b"]), NOW));
    assert_eq!(request, Request::RunStep("a".into()));
    assert!(!d.accepts(&Event::Cleared));
    let (s, reply, _) = done(report(d, text("ok")));
    assert_eq!(reply, "▸ 执行步骤: a\n\nok\n\n还剩 1 步，发送「继续」或「执行全部」");
    assert_eq!(s.pending_steps, vec!["b"]);
    assert_eq!(s.last_result.as_deref(), Some("ok"));
    assert_eq!(s.updated_at, NOW + 1);

    let (d, request) = asked(dispatch_at("下一步", s, NOW));
    assert_eq!(request, Request::RunStep("b".into()));
    let (d, request) = asked(report(d, text("❌ no")));
    assert_eq!(request, Request::SaveSnapshot(Some("auto-completed".into())));
    assert!(d.session.pending_steps.is_empty());
    let (_, reply, _) = done(report(d, Event::Saved(Err("full".into()))));
    assert_eq!(reply, "▸ 执行步骤: b\n\n❌ no\n\n✅ 所有步骤已执行完毕");
}

#[test]
fn all_steps() {
    let (d, request) = asked(dispatch_at("执行全部", planned(&["a", "b"]), NOW));
    assert_eq!(request, Request::RunStep("a".into()));
    let (d, request) = asked(report(d, text("1")));
    assert_eq!(request, Request::RunStep("b".into()));
    let (d, request) = asked(report(d, text("2")));
    assert_eq!(request, Request::SaveSnapshot(Some("auto-completed".into())));
    let (s, reply, _) = done(report(d, Event::Saved(Ok("id".into()))));
    assert_eq!(
        reply,
        "▸ 执行步骤: a\n1\n\n▸ 执行步骤: b\n2\n\n\n✅ 所有步骤已执行完毕"
    );
    assert_eq!(s.last_result.as_deref(), Some("2"));
    assert!(s.pending_steps.is_empty());
}

#[test]
fn all_steps_up_to_a_failure() {
    let (d, _) = asked(dispatch_at("执行全部", planned(&["a", "b", "c"]), NOW));
    let (d, _) = asked(report(d, text("1")));
    let (s, reply, _) = done(report(d, text("❌ 2")));
    assert_eq!(
        reply,
        "▸ 执行步骤: a\n1\n\n▸ 执行步骤: b\n❌ 2\n\n\n⚠️ 步骤失败，已暂停。还剩 1 步，发送「继续」或「执行全部」恢复。"
    );
    assert_eq!(s.pending_steps, vec!["c"]);

    // A failure of the last step leaves nothing to go on with.
    let (d, _) = asked(dispatch_at("执行全部", planned(&["a"]), NOW));
    let (d, request) = asked(report(d, text("❌")));
    assert_eq!(request, Request::SaveSnapshot(Some("auto-completed".into())));
    let (_, reply, _) = done(report(d, Event::Saved(Ok("id".into()))));
    assert_eq!(reply, "▸ 执行步骤: a\n❌\n\n\n✅ 所有步骤已执行完毕");
}

#[test]
fn retries() {
    let (_, reply, _) = done(dispatch_at("重试", user(), NOW));
    assert_eq!(reply, "无可重试的操作。");
    let s = UserSession { last_action: Some("你好".into()), ..user() };
    let (_, reply, _) = done(dispatch_at("重试", s, NOW));
    assert_eq!(reply, "上次操作无法自动重试，请重新发送命令。");
    let s = UserSession { last_action: Some("ls src".into()), ..user() };
    let (d, request) = asked(dispatch_at("retry", s, NOW));
    assert_eq!(request, Request::RunAction(Action::List("src".into())));
    let (s, reply, _) = done(report(d, text("main.rs")));
    assert_eq!(reply, "↻ 重试: ls src\n\nmain.rs");
    assert_eq!(s.last_action.as_deref(), Some("ls src"));
    assert_eq!(s.last_result.as_deref(), Some("main.rs"));
}

#[test]
fn terminal_commands_are_retried() {
    let s = UserSession { last_action: Some("/terminal echo hi".into()), ..user() };
    let (d, request) = asked(dispatch_at("重试", s, NOW));
    assert_eq!(request, Request::RunTerminal("echo hi".into()));
    let (s, reply, _) = done(report(d, text("hi again")));
    assert_eq!(reply, "hi again");
    assert_eq!(s.last_result.as_deref(), Some("hi again"));
    assert_eq!(s.last_action.as_deref(), Some("/terminal echo hi"));
    // A risky one waits again.
    let s = UserSession { last_action: Some("/terminal RM -rf x".into()), ..user() };
    let (s, _, _) = done(dispatch_at("重试", s, NOW));
    assert_eq!(s.pending_terminal_command.as_deref(), Some("RM -rf x"));
    // What was given to `/agent` is read as such.
    let s = UserSession { last_action: Some("/agent ls src".into()), ..user() };
    let (_, request) = asked(dispatch_at("重试", s, NOW));
    assert_eq!(request, Request::RunAction(Action::List("src".into())));
}

#[test]
fn status_and_modes() {
    let s = planned(&["a"]);
    let status = fmt_session_status(&s);
    let (after, reply, save) = done(dispatch_at("状态", s, NOW));
    assert_eq!(reply, status);
    assert!(save);
    assert_eq!(after.updated_at, 0);
    let (s, reply, _) = done(dispatch_at("规划模式", user(), NOW));
    assert_eq!(reply, "✅ 已切换到规划模式");
    assert_eq!(s.mode, SessionMode::Planning);
    let (s, reply, _) = done(dispatch_at("coding", s, NOW));
    assert_eq!(reply, "✅ 已切换到编码模式");
    assert_eq!(s.mode, SessionMode::Coding);
}

#[test]
fn new_plans() {
    let (s, reply, _) = done(dispatch_at("plan t\n1. a\n2. b", user(), NOW));
    assert!(reply.starts_with("✅ 计划已记录（共 2 步）\n任务: t\n"));
    assert_eq!(s.current_task.as_deref(), Some("t"));
    assert_eq!(s.pending_steps, vec!["a", "b"]);
    assert_eq!(s.mode, SessionMode::Planning);
    assert_eq!(s.updated_at, NOW);

    let (d, request) = asked(dispatch_at("plan next", s, NOW));
    assert_eq!(request, Request::SaveSnapshot(Some("auto-before-new-plan".into())));
    assert_eq!(d.session.current_task.as_deref(), Some("t"));
    let (s, _, _) = done(report(d, Event::Saved(Ok("id".into()))));
    assert_eq!(s.current_task.as_deref(), Some("next"));
    assert!(s.pending_steps.is_empty());
}

#[test]
fn snapshots() {
    let (d, request) = asked(dispatch_at("会话列表", user(), NOW));
    assert_eq!(request, Request::ListSnapshots);
    let items = vec![SessionSnapshotMeta {
        id: "7".into(),
        label: None,
        updated_at: 7,
        current_task: Some("t".into()),
        pending_steps: 0,
    }];
    let (_, reply, _) = done(report(d, Event::Listed(Ok(items))));
    assert!(reply.contains("\n1. t | manual | 待办:0 | id:7\n"));
    let (d, _) = asked(dispatch_at("会话列表", user(), NOW));
    let (_, reply, _) = done(report(d, Event::Listed(Err("io: x".into()))));
    assert_eq!(reply, "读取会话历史失败: io: x");

    let (d, request) = asked(dispatch_at("保存会话 trip", user(), NOW));
    assert_eq!(request, Request::SaveSnapshot(Some("trip".into())));
    assert_eq!(d.session.updated_at, NOW);
    let (_, reply, _) = done(report(d, Event::Saved(Ok("7-trip".into()))));
    assert_eq!(reply, "✅ 会话已保存: 7-trip\n发送“会话列表”可查看历史。");
    let (d, _) = asked(dispatch_at("保存会话", user(), NOW));
    let (_, reply, _) = done(report(d, Event::Saved(Err("io: x".into()))));
    assert_eq!(reply, "保存会话失败: io: x");

    let (d, request) = asked(dispatch_at("载入会话 7-trip", user(), NOW));
    assert_eq!(request, Request::LoadSnapshot("7-trip".into()));
    let (s, reply, _) = done(report(d, Event::Loaded(Ok(planned(&["a"])))));
    assert_eq!(s.pending_steps, vec!["a"]);
    assert_eq!(s.updated_at, NOW + 1);
    assert_eq!(reply, format!("✅ 已载入会话: 7-trip\n{}", fmt_session_status(&s)));
    let (d, _) = asked(dispatch_at("载入会话 x", planned(&["a"]), NOW));
    let (s, reply, _) = done(report(d, Event::Loaded(Err("io: x".into()))));
    assert_eq!(reply, "载入会话失败: io: x");
    assert_eq!(s.pending_steps, vec!["a"]);
}

#[test]
fn clearing() {
    let (d, request) = asked(dispatch_at("清除", planned(&["a"]), NOW));
    assert_eq!(request, Request::SaveSnapshot(Some("auto-before-clear".into())));
    let (d, request) = asked(report(d, Event::Saved(Ok("id".into()))));
    assert_eq!(request, Request::ClearSession);
    let (_, reply, save) = done(report(d, Event::Cleared));
    assert_eq!(reply, "🗑 会话已清除（已自动归档）");
    assert!(!save);
    let (_, request) = asked(dispatch_at("clear", user(), NOW));
    assert_eq!(request, Request::ClearSession);
}

#[test]
fn edits_of_files() {
    let (d, request) = asked(dispatch_at("/write a.txt\nx\ny", user(), NOW));
    assert_eq!(
        request,
        Request::WriteFile { path: "a.txt".into(), content: "x\ny".into() }
    );
    let (_, reply, _) = done(report(d, Event::Answered(Ok("wrote".into()))));
    assert_eq!(reply, "✅ wrote");
    let (d, _) = asked(dispatch_at("/write a.txt\nx", user(), NOW));
    let (_, reply, _) = done(report(d, Event::Answered(Err("no".into()))));
    assert_eq!(reply, "❌ 写入失败: no");
    let (d, request) = asked(dispatch_at("/replace a\n<<<\nx\n===\ny\n>>>", user(), NOW));
    assert_eq!(
        request,
        Request::Replace(Edit { path: "a".into(), old_text: "x".into(), new_text: "y".into() })
    );
    let (s, reply, _) = done(report(d, text("✅ 已替换")));
    assert_eq!(reply, "✅ 已替换");
    assert_eq!(s.updated_at, 0);
}

#[test]
fn loop_words() {
    for (word, wanted) in [
        ("build", Request::Build),
        ("日志", Request::ViewLogs),
        ("commit fix it", Request::GitCommit("fix it".into())),
        ("push", Request::GitPush),
    ] {
        let (d, request) = asked(dispatch_at(word, user(), NOW));
        assert_eq!(request, wanted);
        let (_, reply, _) = done(report(d, text("r")));
        assert_eq!(reply, "r");
    }
    let (d, request) = asked(dispatch_at("restart", user(), NOW));
    assert_eq!(request, Request::Restart);
    let info = RestartInfo { exe_path: "e".into(), args: vec!["a".into()] };
    match report(d, Event::Restarted("r".into(), Some(info.clone()))).1 {
        Next::Done { reply, restart, save } => {
            assert_eq!(reply, "r");
            assert_eq!(restart, Some(info));
            assert!(save);
        }
        other => panic!("unexpected: {:?}", other),
    }
}

#[test]
fn terminal_commands() {
    let (d, request) = asked(dispatch_at("/terminal git status", user(), NOW));
    assert_eq!(request, Request::RunTerminal("git status".into()));
    let (s, reply, _) = done(report(d, text("clean")));
    assert_eq!(reply, "clean");
    assert_eq!(s.last_action.as_deref(), Some("/terminal git status"));

    let (s, reply, _) = done(dispatch_at("/terminal rm -rf x", user(), NOW));
    assert_eq!(
        reply,
        "⚠️ 检测到高风险命令，需二次确认后执行:\nrm -rf x\n\n发送“确认执行”继续，或发送“取消执行”放弃。"
    );
    assert_eq!(s.pending_terminal_command.as_deref(), Some("rm -rf x"));
    let (d, request) = asked(dispatch_at("确认执行", s.clone(), NOW));
    assert_eq!(request, Request::RunTerminal("rm -rf x".into()));
    let (after, _, _) = done(report(d, text("gone")));
    assert!(after.pending_terminal_command.is_none());
    assert_eq!(after.last_action.as_deref(), Some("/terminal rm -rf x"));
    let (_, reply, _) = done(dispatch_at("yes", after, NOW));
    assert_eq!(reply, "当前没有待确认的高风险终端命令。");

    let (after, reply, _) = done(dispatch_at("取消执行", s, NOW));
    assert_eq!(reply, "✅ 已取消待确认的高风险终端命令。");
    assert!(after.pending_terminal_command.is_none());
    let (_, reply, _) = done(dispatch_at("no", after, NOW));
    assert_eq!(reply, "当前没有待确认的高风险终端命令。");
}

#[test]
fn fixes() {
    let s = UserSession {
        last_action: Some("test".into()),
        last_result: Some("boom".into()),
        ..user()
    };
    let (d, request) = asked(dispatch_at("fix the test", s, NOW));
    assert_eq!(
        request,
        Request::AskCopilot(
            "The user ran a command/operation via Feishu remote agent and it failed. Please analyze the error and suggest a concrete fix.\n\n## Last command\n```\ntest\n```\n\n## Error output\n```\nboom\n```\nUser note: the test\n\nProvide a short analysis and the exact corrected command or code fix. Reply in the user's language (Chinese)."
                .into()
        )
    );
    let (_, reply, _) = done(report(d, Event::Answered(Ok("do x".into()))));
    assert_eq!(reply, "🔍 分析结果:\n\ndo x");
    let (d, request) = asked(dispatch_at("/agent fix", user(), NOW));
    match request {
        Request::AskCopilot(q) => {
            assert!(q.contains("```\n(unknown)\n```"));
            assert!(q.contains("```\n(no previous result)\n```\n\nProvide"));
        }
        other => panic!("unexpected: {:?}", other),
    }
    let (_, reply, _) = done(report(d, Event::Answered(Err("offline".into()))));
    assert_eq!(
        reply,
        "⚠️ Copilot 不可用 (offline)，以下是上次错误上下文:\n命令: (unknown)\n输出:\n(no previous result)\n\n提示: 检查命令拼写是否正确，或使用 /terminal <完整命令> 重试。"
    );
}

#[test]
fn questions_and_chats() {
    let (d, request) = asked(dispatch_at("ask why?", user(), NOW));
    assert_eq!(request, Request::AskCopilot("why?".into()));
    let (_, reply, _) = done(report(d, Event::Answered(Ok("because".into()))));
    assert_eq!(reply, "because");
    let (d, _) = asked(dispatch_at("ask why?", user(), NOW));
    let (_, reply, _) = done(report(d, Event::Answered(Err("e".into()))));
    assert_eq!(reply, "❌ Copilot 请求失败: e");
    let chats = vec![VscodeChatSession {
        id: "a".into(),
        title: "A".into(),
        last_message_date: NOW * 1000,
    }];
    let (d, request) = asked(dispatch_at("chat 历史", user(), NOW));
    assert_eq!(request, Request::ReadChats);
    let (_, reply, _) = done(report(d, Event::Chats(chats.clone())));
    assert!(reply.contains("\n1. [今天] A\n"));
    // The session is found first, then what was asked in it is read.
    let (d, request) = asked(dispatch_at("chat 历史 2", user(), NOW));
    assert_eq!(request, Request::ReadChats);
    let mut two = chats.clone();
    two.push(VscodeChatSession { id: "b".into(), title: "B".into(), last_message_date: 0 });
    let (d, request) = asked(report(d, Event::Chats(two)));
    assert_eq!(request, Request::ReadPrompts("b".into()));
    let (_, reply, _) = done(report(d, Event::Messages(vec!["m".into()])));
    assert_eq!(reply, "📝 会话: B\n\n💬 最近 Copilot 对话（你的提问）:\n1. m");
    let (d, _) = asked(dispatch_at("chat 历史 2", user(), NOW));
    let (_, reply, _) = done(report(d, Event::Chats(chats)));
    assert_eq!(reply, "未找到会话 #2，发送\"chat 历史\"查看完整列表。");
    let (d, request) = asked(dispatch_at("最近对话", user(), NOW));
    assert_eq!(request, Request::ReadMessages);
    let (_, reply, _) = done(report(d, Event::Messages(vec![])));
    assert_eq!(reply, "暂无最近消息记录。");
}

#[test]
fn actions_are_remembered() {
    let (d, request) = asked(dispatch_at(" read  a.md ", planned(&["s"]), NOW));
    assert_eq!(request, Request::RunAction(Action::Read("a.md".into())));
    let (s, reply, save) = done(report(d, text("content")));
    assert_eq!(reply, "content");
    assert!(save);
    assert_eq!(s.last_action.as_deref(), Some("read  a.md"));
    assert_eq!(s.last_result.as_deref(), Some("content"));
    assert_eq!(s.mode, SessionMode::Coding);
    assert_eq!(s.pending_steps, vec!["s"]);
    assert_eq!(s.user_id, "u");
}

#[test]
fn what_is_not_understood() {
    let (_, reply, _) = done(dispatch_at("你好", user(), NOW));
    assert_eq!(reply, help_text());
    let (_, reply, _) = done(dispatch_at("", user(), NOW));
    assert_eq!(reply, help_text());
    let (_, reply, _) = done(dispatch_at("帮我安装软件", user(), NOW));
    assert!(reply.contains("请求: 帮我安装软件\n"));
    let (_, reply, _) = done(begin("x".into(), user(), None, None, NOW));
    assert_eq!(reply, help_text());
    let (_, request) = asked(begin("x".into(), user(), Some(Intent::GitPush), None, NOW));
    assert_eq!(request, Request::GitPush);
}

#[test]
fn the_clock_is_asked() {
    let (s, _, _) = done(dispatch_with_session("coding", user()));
    assert!(s.updated_at > 1_700_000_000);
    let (d, _) = asked(dispatch_with_session("ls .", user()));
    let (s, _, _) = done(d.resume(text("x")));
    assert!(s.updated_at > 1_700_000_000);
}

#[test]
fn defaults() {
    assert_eq!(ChatType::default(), ChatType::Unknown);
    let config = RuntimeConfig::default();
    assert_eq!(config.autonomy, AutonomyLevel::Supervised);
    assert!(config.workspace.is_none());
    assert_eq!(SessionMode::default(), SessionMode::Coding);
}

#[test]
fn order_of_names() {
    assert!(is_before("a", "b") && is_before("a", "aa") && is_before("", "a"));
    assert!(!is_before("a", "a") && !is_before("b", "a"));
    assert!(is_before("Z", "a") && is_before("z", "é") && is_before("é", "你"));
    let names: Vec<String> = ["b", "a", "C", "ab"].iter().map(|s| s.to_string()).collect();
    assert_eq!(sort_names(names), vec!["C", "a", "ab", "b"]);
}

#[test]
fn texts_are_taken_apart() {
    for s in ["", " a b\t", "\u{3000}你\u{a0}好\n", "a\r\n\r\nb\n", "\n", "x\u{85}y", "\u{200b}z"] {
        assert_eq!(trimmed(s), s.trim());
        assert_eq!(words_of(s), s.split_whitespace().collect::<Vec<_>>());
        assert_eq!(lines_of(s), s.lines().collect::<Vec<_>>());
        assert_eq!(
            pieces_of(s, &['\n', ' ']),
            s.split(['\n', ' ']).collect::<Vec<_>>()
        );
    }
    for (s, piece) in [("aaaa", "aa"), ("abc", ""), ("", ""), ("你好你好", "好"), ("x", "xy")] {
        assert_eq!(count_of(s, piece), s.matches(piece).count() as u128);
        assert_eq!(replaced_first(s, piece, "-"), s.replacen(piece, "-", 1));
    }
    assert_eq!(strip_prefix_ci("/AGENT x", "/agent"), Some(" x"));
    assert_eq!(strip_prefix_ci("计划 x", "计划 "), Some("x"));
    assert_eq!(strip_prefix_ci("É", "é"), None);
    assert_eq!(strip_prefix_ci("/ag", "/agent"), None);
}

#[test]
fn numbers() {
    for n in [0u128, 7, 10, 99, 1234567890, u64::MAX as u128, u128::MAX] {
        assert_eq!(decimal_of(n), n.to_string());
    }
    for n in [0i64, -1, i64::MIN, i64::MAX] {
        assert_eq!(decimal_of_i64(n), n.to_string());
    }
    for s in ["0", "007", "+5", "-1", "", "+", "1 ", "18446744073709551615", "18446744073709551616", "٣"] {
        assert_eq!(parse_number(s, u64::MAX), s.parse::<u64>().ok(), "{}", s);
    }
    assert_eq!(parse_number("256", 255), None);
}
