//! What messages ask for.

use harborbeacon_desktop::actionwords::parse_literal_action;
use harborbeacon_desktop::classifier::{
    candle_features, candle_intent_label, extract_path_like_token, extract_search_query,
    infer_action_intent_candle, infer_from_label, pick_label, TextClass,
};
use harborbeacon_desktop::intent::Intent;
use harborbeacon_desktop::parser::{
    auto_plan_from_request, looks_like_system_install_request, match_natural_task,
    parse_action_intent, parse_intent, parse_intent_given, parse_replace_command,
    text_to_classify,
};
use harborbeacon_desktop::plan::{parse_plan_body, strip_list_prefix};
use harborbeacon_desktop::session::SessionMode;
use harborbeacon_desktop::text::strip_prefix_ci;

fn owned(items: &[&str]) -> Vec<String> {
    items.iter().map(|s| s.to_string()).collect()
}

#[test]
fn candle_fallback_infers_read() {
    let intent = infer_action_intent_candle("帮我打开 README.md 的内容");
    match intent {
        Some(Intent::Read(path)) => assert!(path.to_lowercase().contains("readme")),
        _ => panic!("expected read intent from candle fallback"),
    }
}

#[test]
fn candle_fallback_infers_search() {
    let intent = infer_action_intent_candle("请帮我查找 websocket 相关代码");
    match intent {
        Some(Intent::Search { path, query }) => {
            assert_eq!(path, ".");
            assert!(query.contains("websocket") || query.contains("查找"));
        }
        _ => panic!("expected search intent from candle fallback"),
    }
}

#[test]
fn auto_plan_generates_snake_recipe() {
    let plan = auto_plan_from_request("帮我做一个贪吃蛇游戏项目");
    let (_, steps) = plan.expect("expected auto plan");
    assert!(steps.iter().any(|s| s == "@recipe:snake_python_bootstrap"));
}

#[test]
fn auto_plan_returns_none_for_short_chat() {
    let plan = auto_plan_from_request("你好");
    assert!(plan.is_none());
}

#[test]
fn parse_session_list_intent() {
    match parse_intent("会话列表") {
        Some(Intent::SessionList) => {}
        _ => panic!("expected session list intent"),
    }
}

#[test]
fn parse_session_load_intent() {
    match parse_intent("载入会话 1774430905-trip") {
        Some(Intent::SessionLoad(id)) => assert_eq!(id, "1774430905-trip"),
        _ => panic!("expected session load intent"),
    }
}

#[test]
fn parse_system_install_request_intent() {
    match parse_intent("帮我 install powershell 6+: https://aka.ms/powershell") {
        Some(Intent::SystemInstallHelp(_)) => {}
        _ => panic!("expected system install help intent"),
    }
}

#[test]
fn session_words() {
    assert_eq!(parse_intent(""), Some(Intent::Help));
    assert_eq!(parse_intent("继续"), Some(Intent::Continue));
    assert_eq!(parse_intent("CONTINUE"), Some(Intent::Continue));
    assert_eq!(parse_intent("一键执行"), Some(Intent::ContinueAll));
    assert_eq!(parse_intent("Retry"), Some(Intent::Retry));
    assert_eq!(parse_intent("status"), Some(Intent::Status));
    assert_eq!(parse_intent("保存会话"), Some(Intent::SessionSave(None)));
    assert_eq!(
        parse_intent("保存会话  trip "),
        Some(Intent::SessionSave(Some("trip".to_string())))
    );
    assert_eq!(parse_intent("reset"), Some(Intent::Clear));
    assert_eq!(parse_intent("Coding Mode"), Some(Intent::SwitchMode(SessionMode::Coding)));
    assert_eq!(parse_intent("规划模式"), Some(Intent::SwitchMode(SessionMode::Planning)));
    assert_eq!(parse_intent("/help"), Some(Intent::Help));
}

#[test]
fn agent_words() {
    assert_eq!(parse_intent("/agent"), Some(Intent::Status));
    assert_eq!(parse_intent("/AGENT code"), Some(Intent::SwitchMode(SessionMode::Coding)));
    assert_eq!(parse_intent("/agent plan"), Some(Intent::SwitchMode(SessionMode::Planning)));
    assert_eq!(
        parse_intent("/agent fix: It Broke"),
        Some(Intent::AgentFix("It Broke".to_string()))
    );
    assert_eq!(parse_intent("/agent fix"), Some(Intent::AgentFix(String::new())));
    assert_eq!(
        parse_intent("/agent read src/Main.rs"),
        Some(Intent::Read("src/Main.rs".to_string()))
    );
}

#[test]
fn fix_means_the_same_with_agent() {
    for d in ["Foo", " Foo Bar ", "", ":x", "ΑΣ 你好"] {
        let expected = Some(Intent::AgentFix(d.trim().to_string()));
        assert_eq!(parse_intent(&format!("/agent fix {d}")), expected);
        assert_eq!(parse_intent(&format!("/AGENT FIX {d}")), expected);
        assert_eq!(parse_intent(&format!("fix {d}")), expected);
    }
}

#[test]
fn questions_go_to_copilot_directly() {
    assert_eq!(
        parse_intent("/ask 如何运行测试"),
        Some(Intent::CopilotAsk("如何运行测试".to_string()))
    );
    assert_eq!(
        parse_intent_given("/ask read a.md", Some(Intent::Build)),
        Some(Intent::CopilotAsk("read a.md".to_string()))
    );
    assert_eq!(text_to_classify("ask 如何运行测试"), None);
    assert_eq!(
        parse_intent_given("chat 历史 3", Some(Intent::Build)),
        Some(Intent::CopilotHistory(3))
    );
}

#[test]
fn lower_case_beyond_ascii() {
    // Only the parts of a text that decide are looked at; the rest may be anything.
    assert_eq!(
        parse_intent("/TERMINAL echo ÀΣ İ"),
        Some(Intent::TerminalRun("echo ÀΣ İ".to_string()))
    );
    assert_eq!(parse_intent("/Agent STATUS"), Some(Intent::Status));
    assert_eq!(parse_intent("/diff ÀΣ/Ⅷ"), Some(Intent::Diff("àς/ⅷ".to_string())));
}

#[test]
fn agent_task_that_nothing_fits_goes_to_copilot() {
    assert_eq!(
        parse_intent_given("/agent 你好", None),
        Some(Intent::CopilotAsk(
            "用户通过飞书远程代理请求执行以下任务，工作区为本地 Rust 项目。\n请给出可直接执行的具体步骤（优先用命令行）。\n用户请求: 你好".to_string()
        ))
    );
}

#[test]
fn what_reaches_the_classifier() {
    assert_eq!(text_to_classify("你好"), Some("你好"));
    assert_eq!(text_to_classify("/agent 你好"), Some("你好"));
    assert_eq!(text_to_classify("/agent status"), None);
    assert_eq!(text_to_classify("继续"), None);
    assert_eq!(text_to_classify("/read a.md"), None);
    assert_eq!(text_to_classify(""), None);
}

#[test]
fn settled_text_means_the_same_whatever_is_inferred() {
    let guess = Some(Intent::Diff(String::new()));
    assert_eq!(parse_intent_given("/read a.md", guess), parse_intent_given("/read a.md", None));
}

#[test]
fn inferred_action_comes_before_everyday_words() {
    let guess = Some(Intent::Diff(String::new()));
    assert_eq!(parse_intent_given("帮我跑一下测试", guess), Some(Intent::Diff(String::new())));
    assert_eq!(parse_intent_given("帮我跑一下测试", None), Some(Intent::Test(String::new())));
}

#[test]
fn fixes_and_plans() {
    assert_eq!(parse_intent("FIX the build"), Some(Intent::AgentFix("the build".to_string())));
    assert_eq!(parse_intent("修复"), Some(Intent::AgentFix(String::new())));
    assert_eq!(
        parse_intent("plan 重构\n1. 读取文件 a.rs\n- test\n提交, 推送"),
        Some(Intent::SetPlan {
            description: "重构".to_string(),
            steps: owned(&["读取文件 a.rs", "test", "提交", "推送"]),
        })
    );
    assert_eq!(
        parse_intent("Plan\n重构\n* one"),
        Some(Intent::SetPlan { description: "重构".to_string(), steps: owned(&["one"]) })
    );
    assert_eq!(parse_intent("计划"), Some(Intent::Status));
}

#[test]
fn development_loop() {
    assert_eq!(parse_intent("编译"), Some(Intent::Build));
    assert_eq!(parse_intent("/Restart"), Some(Intent::SelfRestart));
    assert_eq!(parse_intent("错误日志"), Some(Intent::ViewLogs));
    assert_eq!(
        parse_intent("/terminal  cargo build "),
        Some(Intent::TerminalRun("cargo build".to_string()))
    );
    assert_eq!(parse_intent("yes"), Some(Intent::TerminalConfirm));
    assert_eq!(parse_intent("No"), Some(Intent::TerminalCancel));
    assert_eq!(parse_intent("commit  done "), Some(Intent::GitCommit("done".to_string())));
    assert_eq!(
        parse_intent("/commit   "),
        Some(Intent::GitCommit("feishu: auto-commit".to_string()))
    );
    assert_eq!(parse_intent("git push"), Some(Intent::GitPush));
}

#[test]
fn edits() {
    assert_eq!(
        parse_intent("/write a/b.txt \nline 1\nline 2"),
        Some(Intent::WriteFile {
            path: "a/b.txt".to_string(),
            content: "line 1\nline 2".to_string(),
        })
    );
    assert_eq!(
        parse_replace_command("a.rs\n<<<\nold\nlines\n===\nnew\n>>>"),
        Some(Intent::ReplaceInFile {
            path: "a.rs".to_string(),
            old_text: "old\nlines".to_string(),
            new_text: "new".to_string(),
        })
    );
    assert_eq!(parse_replace_command("a.rs\nold\nnew"), None);
    assert_eq!(parse_replace_command("a.rs"), None);
}

#[test]
fn literal_actions() {
    assert_eq!(parse_literal_action("read  A.md "), Some(Intent::Read("A.md".to_string())));
    assert_eq!(parse_literal_action("看 src"), Some(Intent::List("src".to_string())));
    assert_eq!(
        parse_literal_action("/search src fn main"),
        Some(Intent::Search { path: "src".to_string(), query: "fn main".to_string() })
    );
    assert_eq!(
        parse_literal_action("搜 src"),
        Some(Intent::Search { path: "src".to_string(), query: String::new() })
    );
    assert_eq!(parse_literal_action("Diff SRC"), Some(Intent::Diff("src".to_string())));
    assert_eq!(
        parse_literal_action("/patch  --- a/x "),
        Some(Intent::Patch(" --- a/x ".to_string()))
    );
    assert_eq!(parse_literal_action("/TEST Foo"), Some(Intent::Test("foo".to_string())));
    assert_eq!(parse_literal_action("跑测试 A"), Some(Intent::Test("A".to_string())));
    assert_eq!(parse_literal_action("打开文件 A.md"), Some(Intent::Read("a.md".to_string())));
    assert_eq!(parse_literal_action("列出目录 docs"), Some(Intent::List("docs".to_string())));
    assert_eq!(parse_literal_action("查看变更 src"), Some(Intent::Diff("src".to_string())));
    assert_eq!(
        parse_literal_action("在 src 中搜索 main"),
        Some(Intent::Search { path: "src".to_string(), query: "main".to_string() })
    );
    assert_eq!(
        parse_literal_action("搜索 main"),
        Some(Intent::Search { path: ".".to_string(), query: "main".to_string() })
    );
    assert_eq!(parse_literal_action("运行测试 a"), Some(Intent::Test("a".to_string())));
    assert_eq!(parse_literal_action("你好"), None);
    assert_eq!(parse_action_intent("read A.md"), Some(Intent::Read("A.md".to_string())));
}

#[test]
fn copilot_chat() {
    assert_eq!(parse_intent("ASK why?"), Some(Intent::CopilotAsk("why?".to_string())));
    assert_eq!(parse_intent("问: 为什么"), Some(Intent::CopilotAsk("为什么".to_string())));
    assert_eq!(parse_intent("聊天历史"), Some(Intent::CopilotSessions));
    assert_eq!(parse_intent_given("chat 历史 3", None), Some(Intent::CopilotHistory(3)));
    assert_eq!(parse_intent_given("最近对话", None), Some(Intent::CopilotHistory(0)));
    assert_eq!(parse_intent_given("chat 历史 x", None), None);
}

#[test]
fn everyday_words() {
    match match_natural_task("把代码同步到 github") {
        Some(Intent::SetPlan { description, steps }) => {
            assert_eq!(description, "同步代码到 GitHub（子仓库 + 父仓库）");
            assert_eq!(steps.len(), 7);
            assert_eq!(steps[6], "/terminal git push");
        }
        other => panic!("unexpected: {:?}", other),
    }
    assert_eq!(match_natural_task("编译一下项目"), Some(Intent::Build));
    assert_eq!(match_natural_task("跑一下测试"), Some(Intent::Test(String::new())));
    assert_eq!(match_natural_task("写一个测试"), None);
    assert_eq!(match_natural_task("有什么改动"), Some(Intent::Diff(String::new())));
    assert!(looks_like_system_install_request("安装软件"));
    assert!(!looks_like_system_install_request("install a crate"));
    assert!(auto_plan_from_request("请 做").is_none());
    assert!(auto_plan_from_request("snake 游戏").is_none());
    assert!(auto_plan_from_request("build a Snake 游戏").is_some());
}

#[test]
fn prefixes_aside_from_case() {
    assert_eq!(strip_prefix_ci("/Agent x", "/agent"), Some(" x"));
    assert_eq!(strip_prefix_ci("/agen", "/agent"), None);
    assert_eq!(strip_prefix_ci("修复 x", "修复 "), Some("x"));
    assert_eq!(strip_prefix_ci("修好 x", "修复 "), None);
}

#[test]
fn list_items_and_plan_bodies() {
    assert_eq!(strip_list_prefix("- a "), Some("a"));
    assert_eq!(strip_list_prefix("• b"), Some("b"));
    assert_eq!(strip_list_prefix("12) c"), Some("c"));
    assert_eq!(strip_list_prefix("3、d"), Some("d"));
    assert_eq!(strip_list_prefix("3d"), None);
    assert_eq!(strip_list_prefix("-a"), None);
    assert_eq!(parse_plan_body("1. a\n2. b"), ("任务".to_string(), owned(&["a", "b"])));
    assert_eq!(parse_plan_body("  \n "), (String::new(), Vec::new()));
    assert_eq!(
        parse_plan_body("t\r\n\r\na；b, ,c"),
        ("t".to_string(), owned(&["a", "b", "c"]))
    );
}

#[test]
fn classifier_features() {
    assert_eq!(candle_features("打开 README.md"), vec![1, 0, 0, 0, 0, 1, 1, 0, 0, 1]);
    assert_eq!(candle_features("能否继续?"), vec![0, 0, 0, 0, 0, 0, 0, 1, 1, 1]);
    assert_eq!(candle_features(""), vec![0, 0, 0, 0, 0, 0, 0, 0, 0, 1]);
}

#[test]
fn classifier_scores() {
    let (class, score) = candle_intent_label("打开 README.md").expect("label");
    assert_eq!(class, TextClass::Read);
    // softmax of (3.3, 0.6, 0.4, 0.3, 0.2, 0.4)
    assert!(score > 780_000 && score < 800_000, "{}", score);
    let (class, _) = candle_intent_label("你好").expect("label");
    assert_eq!(class, TextClass::Other);
    assert_eq!(infer_action_intent_candle("你好"), None);
    assert_eq!(infer_action_intent_candle("看看目录"), Some(Intent::List(".".to_string())));
    assert_eq!(infer_action_intent_candle("代码对比"), Some(Intent::Diff(String::new())));
}

#[test]
fn actions_for_classes() {
    let t = "请看 'src/a.rs', 好吗";
    assert_eq!(
        infer_from_label(t, TextClass::Read, 550_000),
        Some(Intent::Read("src/a.rs".to_string()))
    );
    assert_eq!(infer_from_label(t, TextClass::Read, 549_999), None);
    assert_eq!(
        infer_from_label("x", TextClass::Read, 1_000_000),
        Some(Intent::Read("README.md".to_string()))
    );
    assert_eq!(
        infer_from_label("请 搜索 foo ", TextClass::Search, 600_000),
        Some(Intent::Search { path: ".".to_string(), query: "foo".to_string() })
    );
    assert_eq!(
        infer_from_label("x", TextClass::Test, 600_000),
        Some(Intent::Test(String::new()))
    );
    assert_eq!(infer_from_label("x", TextClass::Other, 1_000_000), None);
}

#[test]
fn paths_and_queries_in_texts() {
    assert_eq!(extract_path_like_token("open \"a.md\"，"), Some("a.md".to_string()));
    assert_eq!(extract_path_like_token("in . please"), Some(".".to_string()));
    assert_eq!(extract_path_like_token("nothing here"), None);
    assert_eq!(extract_search_query("搜索 a 搜索 b"), Some("a 搜索 b".to_string()));
    assert_eq!(extract_search_query("搜索  "), None);
}

#[test]
fn first_greatest_score_is_picked() {
    assert_eq!(pick_label(&vec![1, 2, 9, 9, 0, 9]), (TextClass::Search, 9));
    assert_eq!(pick_label(&vec![0, 0, 0, 0, 0, 0]), (TextClass::Read, 0));
    assert_eq!(pick_label(&vec![1, 2, 3, 4, 5, 6]), (TextClass::Other, 6));
}

#[test]
fn other_ways_to_ask_come_after_the_classifier() {
    for prefix in ["ai:", "Copilot:", "问copilot:", "ask:"] {
        let text = format!("{prefix} 运行测试");
        assert_eq!(text_to_classify(&text), Some(text.as_str()));
        assert_eq!(
            parse_intent_given(&text, Some(Intent::Test(String::new()))),
            Some(Intent::Test(String::new()))
        );
        assert_eq!(
            parse_intent_given(&text, None),
            Some(Intent::CopilotAsk("运行测试".to_string()))
        );
    }
    assert_eq!(parse_intent("ai: 运行测试"), Some(Intent::Test(String::new())));
    assert_eq!(parse_intent("ai: 为什么"), Some(Intent::CopilotAsk("为什么".to_string())));
    assert_eq!(text_to_classify("问: 运行测试"), None);
}
