//! Asking Copilot, and the chats of VS Code.

use harborbeacon_desktop::actions::CommandRun;
use harborbeacon_desktop::ask::{
    ask_fits, begin_ask, copilot_ask, AskEvent, AskRequest, AskState, AskStep,
};
use harborbeacon_desktop::chat::{
    chats_in_text, fmt_chat, fmt_elapsed, fmt_elapsed_at, fmt_no_chat, fmt_recent_messages,
    fmt_vscode_sessions, messages_in_text, pick_candidates, prompts_in, prompts_in_text,
    read_vscode_chat_sessions, read_vscode_recent_messages, sort_chats, VscodeChatSession,
};
use harborbeacon_desktop::copilot::{
    completion_body, copilot_ask_via_gh_cli, explain_access_failure, find_access, find_completion,
    read_access, read_completion, read_direct_answer, resolve_github_token, Access, CopilotReply, NO_CLI, NO_ENDPOINT,
};
use harborbeacon_desktop::json::{parse_json, Json};

fn ran(success: bool, stdout: &str, stderr: &str) -> CommandRun {
    CommandRun::Finished { success, stdout: stdout.to_string(), stderr: stderr.to_string() }
}

fn body(raw: &str) -> CopilotReply {
    CopilotReply::Body(raw.to_string())
}

fn refused(status: &str, text: &str) -> CopilotReply {
    CopilotReply::Refused { status: status.to_string(), body: text.to_string() }
}

#[test]
fn github_tokens() {
    assert_eq!(resolve_github_token(&ran(true, " t\n", "")), Ok("t".to_string()));
    let none = "无法获取 GitHub 令牌。\n请设置 HARBOR_GITHUB_TOKEN 环境变量或通过 gh auth login 登录。";
    assert_eq!(resolve_github_token(&ran(true, " \n", "")), Err(none.to_string()));
    assert_eq!(resolve_github_token(&ran(false, "t", "")), Err(none.to_string()));
    assert_eq!(
        resolve_github_token(&CommandRun::NotStarted("x".into())),
        Err("gh CLI 未找到: x\n请设置 HARBOR_GITHUB_TOKEN 环境变量".to_string())
    );
}

#[test]
fn access_answers() {
    assert_eq!(read_access(body(r#"{"token":"a"}"#)), Access::Token("a".into()));
    assert_eq!(
        read_access(body(r#"{ "token" : 1 }"#)),
        Access::Retry("令牌响应缺少 token 字段: {\"token\":1}".into())
    );
    assert_eq!(
        read_access(refused("403 Forbidden", "no")),
        Access::Retry("令牌接口返回 403 Forbidden: no".into())
    );
    assert_eq!(
        read_access(CopilotReply::NotSent("x".into())),
        Access::Retry("令牌请求失败: x".into())
    );
    assert_eq!(read_access(CopilotReply::NotRead("x".into())), Access::Stop("x".into()));
    let undecoded = "error decoding response body".to_string();
    assert_eq!(read_access(body("{")), Access::Stop(undecoded.clone()));
    assert_eq!(read_access(CopilotReply::NotText), Access::Stop(undecoded));
    assert_eq!(explain_access_failure("x 404 y".into()), NO_ENDPOINT);
    assert_eq!(explain_access_failure("Not Found".into()), NO_ENDPOINT);
    assert_eq!(explain_access_failure("403".into()), "403");
    assert!(NO_ENDPOINT.contains("\n建议：\n1) 在本机安装"));
}

#[test]
fn completions() {
    let question = "why \"x\"?\n";
    let asked = completion_body(question);
    let j = parse_json(&asked).expect("a document");
    assert_eq!(j.get("model").and_then(|m| m.as_str()), Some("gpt-4o"));
    assert_eq!(j.get("max_tokens").and_then(|m| m.as_u64()), Some(2048));
    let messages = j.get("messages").expect("messages");
    let last = messages.item(1).expect("the question");
    assert_eq!(last.get("role").and_then(|m| m.as_str()), Some("user"));
    assert_eq!(last.get("content").and_then(|m| m.as_str()), Some(question));
    assert!(asked.ends_with(r#""model":"gpt-4o","stream":false}"#));

    assert_eq!(
        read_completion(body(r#"{"choices":[{"message":{"content":"because"}}]}"#)),
        Ok("because".to_string())
    );
    assert_eq!(
        read_completion(body(r#"{"choices": []}"#)),
        Err("响应格式异常: {\"choices\":[]}".to_string())
    );
    assert_eq!(
        read_completion(refused("500 X", "b")),
        Err("Copilot API 返回 500 X: b".to_string())
    );
    assert_eq!(
        read_completion(CopilotReply::NotSent("x".into())),
        Err("Completions 请求失败: x".to_string())
    );
    assert_eq!(read_completion(CopilotReply::NotRead("x".into())), Err("x".to_string()));
    let undecoded = Err("error decoding response body".to_string());
    assert_eq!(read_completion(body("<html>")), undecoded);
    assert_eq!(read_completion(CopilotReply::NotText), undecoded);
}

#[test]
fn direct_command_line() {
    let err = |run: CommandRun| read_direct_answer(&run).unwrap_err();
    assert_eq!(read_direct_answer(&ran(true, " a \n", "noise")), Ok("a".to_string()));
    assert_eq!(err(ran(true, " ", "")), "Copilot CLI 未返回内容，请检查 GitHub 账号登录状态。");
    assert_eq!(
        err(ran(false, "x", "please authenticate")),
        "Copilot CLI 需要 GitHub 登录，请先执行 gh auth login 后重试。"
    );
    assert_eq!(err(ran(false, " out ", " ")), "Copilot CLI 调用失败: out");
    assert_eq!(err(ran(false, "", "")), "Copilot CLI 调用失败（无错误输出）");
    assert_eq!(err(CommandRun::NotStarted("x".into())), "无法调用 Copilot CLI: x");
}

#[test]
fn gh_command_line() {
    let err = |run: CommandRun| copilot_ask_via_gh_cli(&run).unwrap_err();
    assert_eq!(copilot_ask_via_gh_cli(&ran(true, "a\n", "")), Ok("a".to_string()));
    assert_eq!(err(ran(true, "", "Cannot find GitHub Copilot CLI")), NO_CLI);
    assert_eq!(
        err(ran(false, "", "please login")),
        "gh copilot 未登录，请先执行 gh auth login 后重试。"
    );
    assert_eq!(err(ran(false, "", "boom")), "CLI 回退失败: gh copilot: boom");
    assert_eq!(err(ran(true, "", "")), "CLI 回退失败（无输出）");
    assert_eq!(
        err(CommandRun::NotStarted("x".into())),
        "CLI 回退失败: 无法调用 gh copilot: x"
    );
}

fn wanted(step: AskStep) -> (AskRequest, AskState) {
    match step {
        AskStep::Ask(request, state) => (request, state),
        AskStep::Done(r) => panic!("over: {:?}", r),
    }
}

fn answer(step: AskStep) -> Result<String, String> {
    match step {
        AskStep::Done(r) => r,
        other => panic!("unexpected: {:?}", other),
    }
}

fn go_on(state: AskState, event: AskEvent) -> AskStep {
    assert!(ask_fits(&state, &event));
    copilot_ask("q", state, event)
}

#[test]
fn asking_over_rest() {
    let (request, state) = wanted(begin_ask(Some("")));
    assert_eq!(request, AskRequest::GhToken);
    let (request, state) = wanted(go_on(state, AskEvent::Ran(ran(true, "gh\n", ""))));
    assert_eq!(
        request,
        AskRequest::GetAccess {
            url: "https://api.github.com/copilot_internal/v2/token".into(),
            authorization: "Bearer gh".into(),
        }
    );
    let (request, state) =
        wanted(go_on(state, AskEvent::Replied(body(r#"{"token":"acc"}"#))));
    assert_eq!(
        request,
        AskRequest::PostQuestion { access_token: "acc".into(), body: completion_body("q") }
    );
    let reply = body(r#"{"choices":[{"message":{"content":"a"}}]}"#);
    assert_eq!(answer(go_on(state, AskEvent::Replied(reply))), Ok("a".to_string()));
}

#[test]
fn four_attempts_and_then_the_command_line() {
    let (_, mut state) = wanted(begin_ask(Some("gh")));
    let mut asked: Vec<(String, String)> = Vec::new();
    let mut step = begin_ask(Some("gh"));
    for _ in 0..4 {
        let (request, next) = wanted(step);
        match request {
            AskRequest::GetAccess { url, authorization } => asked.push((url, authorization)),
            other => panic!("unexpected: {:?}", other),
        }
        state = next.clone();
        step = go_on(next, AskEvent::Replied(refused("401 Unauthorized", "x")));
    }
    let v2 = "https://api.github.com/copilot_internal/v2/token".to_string();
    let v1 = "https://api.github.com/copilot_internal/token".to_string();
    assert_eq!(
        asked,
        vec![
            (v2.clone(), "Bearer gh".to_string()),
            (v2, "token gh".to_string()),
            (v1.clone(), "Bearer gh".to_string()),
            (v1, "token gh".to_string()),
        ]
    );
    assert!(!ask_fits(&state, &AskEvent::NoDirectCli));
    let (request, state) = wanted(step);
    assert_eq!(request, AskRequest::GhStatus);
    let (request, state) = wanted(go_on(state, AskEvent::Ran(ran(true, "", ""))));
    assert_eq!(request, AskRequest::DirectCli { token: Some("gh".into()) });
    // Where the Copilot command line is there, it has the last word.
    assert_eq!(
        answer(go_on(state.clone(), AskEvent::Ran(ran(true, "", "")))),
        Err("REST 失败: 令牌接口返回 401 Unauthorized: x\n\nCLI 回退失败: Copilot CLI 未返回内容，请检查 GitHub 账号登录状态。".to_string())
    );
    let (request, state) = wanted(go_on(state, AskEvent::NoDirectCli));
    assert_eq!(request, AskRequest::GhCli { token: Some("gh".into()) });
    assert_eq!(
        answer(go_on(state, AskEvent::Ran(ran(true, "found", "")))),
        Ok("found".to_string())
    );
}

#[test]
fn asking_without_login() {
    let (_, state) = wanted(begin_ask(None));
    let (request, state) =
        wanted(go_on(state, AskEvent::Ran(CommandRun::NotStarted("x".into()))));
    assert_eq!(request, AskRequest::GhStatus);
    assert_eq!(
        answer(go_on(state.clone(), AskEvent::Ran(ran(false, "", "")))),
        Err("REST 失败: 未能获取 GitHub token，跳过 REST 路径。\n\nCLI 回退失败: GitHub CLI 未登录，请先执行 gh auth login 后重试。".to_string())
    );
    // A `gh` that could not be started stops nothing.
    let (request, _) =
        wanted(go_on(state, AskEvent::Ran(CommandRun::NotStarted("x".into()))));
    assert_eq!(request, AskRequest::DirectCli { token: None });
}

fn chat(id: &str, title: &str, date: u64) -> VscodeChatSession {
    VscodeChatSession { id: id.into(), title: title.into(), last_message_date: date }
}

#[test]
fn chats_of_an_index() {
    let raw = r#"{"entries":{"b":{"title":"B","lastMessageDate":5},"a":{"lastMessageDate":-1}}}"#;
    assert_eq!(chats_in_text(raw), vec![chat("a", "(no title)", 0), chat("b", "B", 5)]);
    assert!(chats_in_text("{").is_empty());
    assert!(chats_in_text(r#"{"entries":[1]}"#).is_empty());
}

#[test]
fn chats_of_all_databases() {
    let indexes = vec![
        r#"{"entries":{"c":{"title":"C","lastMessageDate":5},"a":{"title":"A","lastMessageDate":7}}}"#
            .to_string(),
        "broken".to_string(),
        r#"{"entries":{"b":{"title":"B","lastMessageDate":5}}}"#.to_string(),
    ];
    assert_eq!(
        read_vscode_chat_sessions(&indexes),
        vec![chat("a", "A", 7), chat("c", "C", 5), chat("b", "B", 5)]
    );
    assert!(read_vscode_chat_sessions(&vec![]).is_empty());
}

#[test]
fn chats_by_date() {
    let sorted = sort_chats(vec![chat("a", "", 1), chat("b", "", 3), chat("c", "", 1)]);
    assert_eq!(sorted, vec![chat("b", "", 3), chat("a", "", 1), chat("c", "", 1)]);
}

#[test]
fn typed_messages() {
    let raw = r#"{"history":{"copilot":[{"inputText":"one"},{"x":1},{"inputText":"two"}]}}"#;
    assert_eq!(messages_in_text(raw), vec!["one", "two"]);
    assert!(messages_in_text("nothing").is_empty());
    assert!(messages_in_text(r#"{"history":{}}"#).is_empty());
    let mementos = vec!["{}".to_string(), raw.to_string(), raw.replace("one", "three")];
    assert_eq!(read_vscode_recent_messages(&mementos), vec!["one", "two"]);
    assert!(read_vscode_recent_messages(&vec!["{}".to_string()]).is_empty());
}

#[test]
fn latest_databases() {
    let found: Vec<(u128, String)> = (0u128..7).map(|i| (i, format!("db{}", i))).collect();
    assert_eq!(pick_candidates(found), vec!["db6", "db5", "db4", "db3", "db2"]);
    assert_eq!(pick_candidates(vec![(1, "x".to_string())]), vec!["x"]);
}

#[test]
fn days_ago() {
    let now = 1_000_000u64;
    assert_eq!(fmt_elapsed_at(now * 1000, now), "今天");
    assert_eq!(fmt_elapsed_at(u64::MAX, now), "今天");
    assert_eq!(fmt_elapsed_at((now - 86_399) * 1000, now), "今天");
    assert_eq!(fmt_elapsed_at((now - 86_400) * 1000, now), "昨天");
    assert_eq!(fmt_elapsed_at((now - 172_800) * 1000, now), "2天前");
    assert!(fmt_elapsed(0).ends_with("天前"));
}

#[test]
fn chat_list_text() {
    assert_eq!(
        fmt_vscode_sessions(&vec![], 0),
        "未找到 VS Code Copilot Chat 会话。\n请先在 VS Code 中进行一些对话。"
    );
    assert_eq!(
        fmt_vscode_sessions(&vec![chat("a", "A", 0)], 200_000),
        "💬 VS Code Copilot 历史（1）\n1. [2天前] A\n\n发送「chat 历史 <编号>」查看该会话的提问摘要。\n发送「问: <问题>」直接向 Copilot 提问。"
    );
    let many: Vec<VscodeChatSession> = (0..25).map(|_| chat("a", "A", 0)).collect();
    assert_eq!(fmt_vscode_sessions(&many, 0).lines().count(), 24);
}

#[test]
fn message_list_text() {
    assert_eq!(fmt_recent_messages(&vec![]), "暂无最近消息记录。");
    let msgs: Vec<String> = (1..=12).map(|i| format!("m{}", i)).collect();
    let text = fmt_recent_messages(&msgs);
    assert!(text.starts_with("💬 最近 Copilot 对话（你的提问）:\n1. m3\n2. m4\n"));
    assert!(text.ends_with("\n10. m12"));
    let long: String = "长".repeat(81);
    assert_eq!(
        fmt_recent_messages(&vec![long.clone()]),
        format!("💬 最近 Copilot 对话（你的提问）:\n1. {}…", "长".repeat(80))
    );
    assert!(fmt_recent_messages(&vec!["长".repeat(80)]).ends_with("长"));
}

#[test]
fn history_replies() {
    let msgs = vec!["m".to_string()];
    assert_eq!(fmt_chat("A", &msgs), format!("📝 会话: A\n\n{}", fmt_recent_messages(&msgs)));
    assert_eq!(fmt_no_chat(2), "未找到会话 #2，发送\"chat 历史\"查看完整列表。");
}

#[test]
fn prompts_of_a_session() {
    let raw = r#"{"requests":[{"message":{"text":"one"}},{"message":{}},{"message":{"text":"two"}}]}"#;
    assert_eq!(prompts_in_text(raw), vec!["one", "two"]);
    assert!(prompts_in_text("{").is_empty());
    assert!(prompts_in_text(r#"{"requests":{}}"#).is_empty());
    assert!(prompts_in(&Json::Null).is_empty());
}

#[test]
fn tokens_and_answers_in_documents() {
    let named = |name: &str, j: Json| Json::Object(vec![(name.to_string(), j)]);
    let text = |s: &str| Json::Text(s.to_string());
    match find_access(&named("token", text("t")), "shown") {
        Access::Token(t) => assert_eq!(t, "t"),
        other => panic!("{:?}", other),
    }
    match find_access(&named("other", text("t")), "shown") {
        Access::Retry(why) => assert_eq!(why, "令牌响应缺少 token 字段: shown"),
        other => panic!("{:?}", other),
    }
    let reply = named(
        "choices",
        Json::List(vec![named("message", named("content", text("yes")))]),
    );
    assert_eq!(find_completion(&reply), Some("yes".to_string()));
    assert_eq!(find_completion(&named("choices", Json::List(vec![]))), None);
}
