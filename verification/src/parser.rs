//! From the text of a message to what it asks for.
//!
//! The forms are tried in a fixed order, and the first that fits decides: words about
//! the session, `/agent`, fixes, plans, the development loop, edits, literal actions,
//! Copilot Chat, the classifier's guess, further ways to ask Copilot, and at last phrases
//! in everyday words.

use crate::actionwords::{literal_action, parse_literal_action};
use crate::classifier::{infer_action_intent_candle, possible_inference};
use crate::intent::{view_intent, Intent, IntentView};
use crate::plan::{parse_plan_body, plan_steps, plan_task};
use crate::session::SessionMode;
use crate::text::{
    after_any, after_any_ci, after_prefix, after_prefix_ci, before_suffix, byte_len, byte_len_of,
    contains, contains_any, has_any, has_text, is_blank, is_listed, lemma_trim_len, listed, number,
    owned_all, parse_number, same, split_at_first, split_once, strip_any, strip_any_ci,
    strip_prefix, strip_prefix_ci, strip_suffix, trim, trim_start_set, trimmed, trimmed_start_set,
    view_all, view_opt_str, view_strs,
};
use crate::unicode::{lower, to_lower};
use vstd::prelude::*;

verus! {

// ---------------------------------------------------------------------------
// Words about the session
// ---------------------------------------------------------------------------

pub const CONTINUE_WORDS: [&'static str; 4] = ["继续", "continue", "继续执行", "下一步"];

pub const CONTINUE_ALL_WORDS: [&'static str; 6] = [
    "执行全部",
    "全部执行",
    "run all",
    "执行所有步骤",
    "全部继续",
    "一键执行",
];

pub const RETRY_WORDS: [&'static str; 4] = ["重试", "retry", "再试一次", "再来一次"];

pub const STATUS_WORDS: [&'static str; 5] = ["状态", "status", "进展", "现在做什么", "当前任务"];

pub const SESSION_LIST_WORDS: [&'static str; 5] = [
    "会话列表",
    "session list",
    "sessions",
    "历史会话",
    "查看会话",
];

pub const SESSION_LOAD_PREFIXES: [&'static str; 5] = [
    "载入会话 ",
    "恢复会话 ",
    "session load ",
    "/session load ",
    "切换会话 ",
];

pub const SESSION_SAVE_WORDS: [&'static str; 3] = ["保存会话", "session save", "/session save"];

pub const SESSION_SAVE_PREFIXES: [&'static str; 3] = [
    "保存会话 ",
    "session save ",
    "/session save ",
];

pub const CLEAR_WORDS: [&'static str; 5] = ["清除", "clear", "清除会话", "reset", "重置"];

pub const CODING_WORDS: [&'static str; 5] = [
    "编码模式",
    "切换编码",
    "switch coding",
    "coding mode",
    "coding",
];

pub const PLANNING_WORDS: [&'static str; 5] = [
    "规划模式",
    "切换规划",
    "switch planning",
    "planning mode",
    "planning",
];

pub const HELP_WORDS: [&'static str; 2] = ["help", "帮助"];

/// What a text asks of the session: whole words in any case, or a prefix as it
/// stands.
pub open spec fn session_intent(text: Seq<char>) -> Option<IntentView> {
    let low = lower(text);
    if listed(CONTINUE_WORDS@, low) {
        Some(IntentView::Continue)
    } else if listed(CONTINUE_ALL_WORDS@, low) {
        Some(IntentView::ContinueAll)
    } else if listed(RETRY_WORDS@, low) {
        Some(IntentView::Retry)
    } else if listed(STATUS_WORDS@, low) {
        Some(IntentView::Status)
    } else if listed(SESSION_LIST_WORDS@, low) {
        Some(IntentView::SessionList)
    } else if after_any(text, SESSION_LOAD_PREFIXES@) is Some {
        Some(IntentView::SessionLoad(trim(after_any(text, SESSION_LOAD_PREFIXES@)->0)))
    } else if listed(SESSION_SAVE_WORDS@, low) {
        Some(IntentView::SessionSave(None))
    } else if after_any(text, SESSION_SAVE_PREFIXES@) is Some {
        Some(IntentView::SessionSave(Some(trim(after_any(text, SESSION_SAVE_PREFIXES@)->0))))
    } else if listed(CLEAR_WORDS@, low) {
        Some(IntentView::Clear)
    } else if listed(CODING_WORDS@, low) {
        Some(IntentView::SwitchMode(SessionMode::Coding))
    } else if listed(PLANNING_WORDS@, low) {
        Some(IntentView::SwitchMode(SessionMode::Planning))
    } else if text == "/help"@ || listed(HELP_WORDS@, low) {
        Some(IntentView::Help)
    } else {
        None
    }
}

fn parse_session_intent(text: &str) -> (r: Option<Intent>)
    ensures
        view_intent(r) == session_intent(text@),
{
    let lowered = to_lower(text);
    let low = lowered.as_str();
    if is_listed(CONTINUE_WORDS.as_slice(), low) {
        return Some(Intent::Continue);
    }
    if is_listed(CONTINUE_ALL_WORDS.as_slice(), low) {
        return Some(Intent::ContinueAll);
    }
    if is_listed(RETRY_WORDS.as_slice(), low) {
        return Some(Intent::Retry);
    }
    if is_listed(STATUS_WORDS.as_slice(), low) {
        return Some(Intent::Status);
    }
    if is_listed(SESSION_LIST_WORDS.as_slice(), low) {
        return Some(Intent::SessionList);
    }
    match strip_any(text, SESSION_LOAD_PREFIXES.as_slice()) {
        Some(id) => {
            return Some(Intent::SessionLoad(trimmed(id).to_owned()));
        },
        None => {},
    }
    if is_listed(SESSION_SAVE_WORDS.as_slice(), low) {
        return Some(Intent::SessionSave(None));
    }
    match strip_any(text, SESSION_SAVE_PREFIXES.as_slice()) {
        Some(label) => {
            return Some(Intent::SessionSave(Some(trimmed(label).to_owned())));
        },
        None => {},
    }
    if is_listed(CLEAR_WORDS.as_slice(), low) {
        return Some(Intent::Clear);
    }
    if is_listed(CODING_WORDS.as_slice(), low) {
        return Some(Intent::SwitchMode(SessionMode::Coding));
    }
    if is_listed(PLANNING_WORDS.as_slice(), low) {
        return Some(Intent::SwitchMode(SessionMode::Planning));
    }
    if same(text, "/help") || is_listed(HELP_WORDS.as_slice(), low) {
        return Some(Intent::Help);
    }
    None
}

// ---------------------------------------------------------------------------
// /agent
// ---------------------------------------------------------------------------

pub const AGENT_STATUS_WORDS: [&'static str; 2] = ["", "status"];

pub const AGENT_CODING_WORDS: [&'static str; 2] = ["coding", "code"];

pub const AGENT_PLANNING_WORDS: [&'static str; 2] = ["planning", "plan"];

pub const AGENT_FIX_PREFIXES: [&'static str; 2] = ["fix ", "fix:"];

pub const COLONS: [char; 1] = [':'];

/// What `/agent` was asked by a word of its own, in any case. What follows `fix` is
/// kept as it is written.
pub open spec fn agent_word(task: Seq<char>) -> Option<IntentView> {
    let arg = lower(task);
    if arg == "fix"@ || after_any(arg, AGENT_FIX_PREFIXES@) is Some {
        let rest = match after_prefix_ci(task, "fix"@) {
            Some(rest) => rest,
            None => ""@,
        };
        Some(IntentView::AgentFix(trim(trim_start_set(rest, COLONS@))))
    } else if listed(AGENT_STATUS_WORDS@, arg) {
        Some(IntentView::Status)
    } else if listed(AGENT_CODING_WORDS@, arg) {
        Some(IntentView::SwitchMode(SessionMode::Coding))
    } else if listed(AGENT_PLANNING_WORDS@, arg) {
        Some(IntentView::SwitchMode(SessionMode::Planning))
    } else if arg == "help"@ {
        Some(IntentView::Help)
    } else {
        None
    }
}

fn parse_agent_word(task: &str) -> (r: Option<Intent>)
    ensures
        view_intent(r) == agent_word(task@),
{
    let lowered = to_lower(task);
    let arg = lowered.as_str();
    if same(arg, "fix") || strip_any(arg, AGENT_FIX_PREFIXES.as_slice()).is_some() {
        let rest: &str = match strip_prefix_ci(task, "fix") {
            Some(rest) => rest,
            None => "",
        };
        return Some(
            Intent::AgentFix(trimmed(trimmed_start_set(rest, COLONS.as_slice())).to_owned()),
        );
    }
    if is_listed(AGENT_STATUS_WORDS.as_slice(), arg) {
        return Some(Intent::Status);
    }
    if is_listed(AGENT_CODING_WORDS.as_slice(), arg) {
        return Some(Intent::SwitchMode(SessionMode::Coding));
    }
    if is_listed(AGENT_PLANNING_WORDS.as_slice(), arg) {
        return Some(Intent::SwitchMode(SessionMode::Planning));
    }
    if same(arg, "help") {
        return Some(Intent::Help);
    }
    None
}

/// The question that Copilot is asked about a task that no form fits.
pub open spec fn agent_question(task: Seq<char>) -> Seq<char> {
    "用户通过飞书远程代理请求执行以下任务，工作区为本地 Rust 项目。\n请给出可直接执行的具体步骤（优先用命令行）。\n用户请求: "@
        + task
}

fn ask_about_task(task: &str) -> (r: String)
    ensures
        r@ == agent_question(task@),
{
    let mut out =
        "用户通过飞书远程代理请求执行以下任务，工作区为本地 Rust 项目。\n请给出可直接执行的具体步骤（优先用命令行）。\n用户请求: ".to_owned();
    out.append(task);
    out
}

// ---------------------------------------------------------------------------
// Fixes and plans
// ---------------------------------------------------------------------------

pub const FIX_PREFIXES: [&'static str; 4] = ["/fix ", "/fix:", "fix ", "修复 "];

pub const FIX_WORDS: [&'static str; 4] = ["/fix", "fix", "修复", "修复这个"];

pub const PLAN_PREFIXES: [&'static str; 8] = [
    "/plan ",
    "plan ",
    "计划 ",
    "规划 ",
    "/计划 ",
    "/规划 ",
    "做计划 ",
    "做规划 ",
];

pub const PLAN_TRIGGERS: [&'static str; 6] = ["plan", "计划", "规划", "/plan", "/计划", "/规划"];

/// The plan that a body gives.
pub open spec fn plan_of(body: Seq<char>) -> IntentView {
    IntentView::SetPlan { description: plan_task(body), steps: plan_steps(body) }
}

/// A fix, a plan on one line, a plan on the lines below a trigger word, or a bare
/// trigger word, which asks how things stand.
pub open spec fn plan_intent(text: Seq<char>) -> Option<IntentView> {
    if after_any_ci(text, FIX_PREFIXES@) is Some {
        Some(IntentView::AgentFix(trim(after_any_ci(text, FIX_PREFIXES@)->0)))
    } else if listed(FIX_WORDS@, lower(text)) {
        Some(IntentView::AgentFix(seq![]))
    } else if after_any_ci(text, PLAN_PREFIXES@) is Some {
        Some(plan_of(after_any_ci(text, PLAN_PREFIXES@)->0))
    } else if split_once(text, "\n"@) is Some && listed(
        PLAN_TRIGGERS@,
        lower(trim((split_once(text, "\n"@)->0).0)),
    ) {
        Some(plan_of(trim((split_once(text, "\n"@)->0).1)))
    } else if listed(PLAN_TRIGGERS@, trim(lower(text))) {
        Some(IntentView::Status)
    } else {
        None
    }
}

fn parse_plan(body: &str) -> (r: Intent)
    ensures
        r@ == plan_of(body@),
{
    let (description, steps) = parse_plan_body(body);
    Intent::SetPlan { description, steps }
}

fn parse_plan_intent(text: &str) -> (r: Option<Intent>)
    ensures
        view_intent(r) == plan_intent(text@),
{
    match strip_any_ci(text, FIX_PREFIXES.as_slice()) {
        Some(rest) => {
            return Some(Intent::AgentFix(trimmed(rest).to_owned()));
        },
        None => {},
    }
    let lowered = to_lower(text);
    let low = lowered.as_str();
    if is_listed(FIX_WORDS.as_slice(), low) {
        return Some(Intent::AgentFix(String::new()));
    }
    match strip_any_ci(text, PLAN_PREFIXES.as_slice()) {
        Some(rest) => {
            return Some(parse_plan(rest));
        },
        None => {},
    }
    match split_at_first(text, "\n") {
        Some((first, rest)) => {
            let trigger = to_lower(trimmed(first));
            if is_listed(PLAN_TRIGGERS.as_slice(), trigger.as_str()) {
                return Some(parse_plan(trimmed(rest)));
            }
        },
        None => {},
    }
    if is_listed(PLAN_TRIGGERS.as_slice(), trimmed(low)) {
        return Some(Intent::Status);
    }
    None
}

// ---------------------------------------------------------------------------
// The development loop
// ---------------------------------------------------------------------------

pub const BUILD_WORDS: [&'static str; 4] = ["build", "/build", "编译", "构建"];

pub const RESTART_WORDS: [&'static str; 6] = [
    "restart",
    "/restart",
    "重启",
    "重启服务",
    "rebuild",
    "/rebuild",
];

pub const LOG_WORDS: [&'static str; 6] = [
    "logs",
    "/logs",
    "日志",
    "查看日志",
    "最新日志",
    "错误日志",
];

pub const TERMINAL_PREFIXES: [&'static str; 2] = ["/terminal ", "terminal "];

pub const CONFIRM_WORDS: [&'static str; 4] = ["确认执行", "confirm", "/confirm", "yes"];

pub const CANCEL_WORDS: [&'static str; 4] = ["取消执行", "cancel", "/cancel", "no"];

pub const COMMIT_PREFIXES: [&'static str; 4] = ["/commit ", "commit ", "提交 ", "git commit "];

pub const PUSH_WORDS: [&'static str; 4] = ["push", "/push", "推送", "git push"];

/// The message of a commit that was given none.
pub open spec fn commit_message(rest: Seq<char>) -> Seq<char> {
    if is_blank(rest) {
        "feishu: auto-commit"@
    } else {
        trim(rest)
    }
}

/// What a text asks of the development loop. A terminal command must not be blank.
pub open spec fn loop_intent(text: Seq<char>) -> Option<IntentView> {
    let low = lower(text);
    if listed(BUILD_WORDS@, low) {
        Some(IntentView::Build)
    } else if listed(RESTART_WORDS@, low) {
        Some(IntentView::SelfRestart)
    } else if listed(LOG_WORDS@, low) {
        Some(IntentView::ViewLogs)
    } else if after_any_ci(text, TERMINAL_PREFIXES@) is Some && !is_blank(
        after_any_ci(text, TERMINAL_PREFIXES@)->0,
    ) {
        Some(IntentView::TerminalRun(trim(after_any_ci(text, TERMINAL_PREFIXES@)->0)))
    } else if listed(CONFIRM_WORDS@, low) {
        Some(IntentView::TerminalConfirm)
    } else if listed(CANCEL_WORDS@, low) {
        Some(IntentView::TerminalCancel)
    } else if after_any_ci(text, COMMIT_PREFIXES@) is Some {
        Some(IntentView::GitCommit(commit_message(after_any_ci(text, COMMIT_PREFIXES@)->0)))
    } else if listed(PUSH_WORDS@, low) {
        Some(IntentView::GitPush)
    } else {
        None
    }
}

fn parse_loop_intent(text: &str) -> (r: Option<Intent>)
    ensures
        view_intent(r) == loop_intent(text@),
{
    let lowered = to_lower(text);
    let low = lowered.as_str();
    if is_listed(BUILD_WORDS.as_slice(), low) {
        return Some(Intent::Build);
    }
    if is_listed(RESTART_WORDS.as_slice(), low) {
        return Some(Intent::SelfRestart);
    }
    if is_listed(LOG_WORDS.as_slice(), low) {
        return Some(Intent::ViewLogs);
    }
    match strip_any_ci(text, TERMINAL_PREFIXES.as_slice()) {
        Some(rest) => {
            let command = trimmed(rest);
            if !command.is_empty() {
                return Some(Intent::TerminalRun(command.to_owned()));
            }
        },
        None => {},
    }
    if is_listed(CONFIRM_WORDS.as_slice(), low) {
        return Some(Intent::TerminalConfirm);
    }
    if is_listed(CANCEL_WORDS.as_slice(), low) {
        return Some(Intent::TerminalCancel);
    }
    match strip_any_ci(text, COMMIT_PREFIXES.as_slice()) {
        Some(rest) => {
            let message = trimmed(rest);
            if message.is_empty() {
                return Some(Intent::GitCommit("feishu: auto-commit".to_owned()));
            }
            return Some(Intent::GitCommit(message.to_owned()));
        },
        None => {},
    }
    if is_listed(PUSH_WORDS.as_slice(), low) {
        return Some(Intent::GitPush);
    }
    None
}

// ---------------------------------------------------------------------------
// Edits
// ---------------------------------------------------------------------------

pub const NEWLINES: [char; 1] = ['\n'];

/// `<path>` on the first line, and below it the old text, a line `===`, and the new
/// text. `<<<` in front and `>>>` on a line behind may stand round the two.
pub open spec fn replacement(rest: Seq<char>) -> Option<IntentView> {
    match split_once(rest, "\n"@) {
        None => None,
        Some(parts) => {
            let opened = match after_prefix(parts.1, "<<<"@) {
                Some(body) => body,
                None => parts.1,
            };
            match split_once(trim_start_set(opened, NEWLINES@), "\n===\n"@) {
                None => None,
                Some(texts) => Some(
                    IntentView::ReplaceInFile {
                        path: trim(parts.0),
                        old_text: texts.0,
                        new_text: match before_suffix(texts.1, "\n>>>"@) {
                            Some(new_text) => new_text,
                            None => texts.1,
                        },
                    },
                ),
            }
        },
    }
}

/// Reads the body of a `/replace` command.
pub fn parse_replace_command(rest: &str) -> (r: Option<Intent>)
    ensures
        view_intent(r) == replacement(rest@),
{
    let (path, body) = match split_at_first(rest, "\n") {
        None => {
            return None;
        },
        Some(parts) => parts,
    };
    let opened: &str = match strip_prefix(body, "<<<") {
        Some(inner) => inner,
        None => body,
    };
    let (old_text, behind) = match split_at_first(
        trimmed_start_set(opened, NEWLINES.as_slice()),
        "\n===\n",
    ) {
        None => {
            return None;
        },
        Some(texts) => texts,
    };
    let new_text: &str = match strip_suffix(behind, "\n>>>") {
        Some(inner) => inner,
        None => behind,
    };
    Some(
        Intent::ReplaceInFile {
            path: trimmed(path).to_owned(),
            old_text: old_text.to_owned(),
            new_text: new_text.to_owned(),
        },
    )
}

/// The edit of a file that a text asks for: a path and the content below it, or a
/// replacement.
pub open spec fn edit_intent(text: Seq<char>) -> Option<IntentView> {
    if after_prefix_ci(text, "/write "@) is Some && split_once(
        after_prefix_ci(text, "/write "@)->0,
        "\n"@,
    ) is Some {
        let parts = split_once(after_prefix_ci(text, "/write "@)->0, "\n"@)->0;
        Some(IntentView::WriteFile { path: trim(parts.0), content: parts.1 })
    } else if after_prefix_ci(text, "/replace "@) is Some {
        replacement(after_prefix_ci(text, "/replace "@)->0)
    } else {
        None
    }
}

fn parse_edit_intent(text: &str) -> (r: Option<Intent>)
    ensures
        view_intent(r) == edit_intent(text@),
{
    match strip_prefix_ci(text, "/write ") {
        Some(rest) => match split_at_first(rest, "\n") {
            Some((path, content)) => {
                return Some(
                    Intent::WriteFile {
                        path: trimmed(path).to_owned(),
                        content: content.to_owned(),
                    },
                );
            },
            None => {},
        },
        None => {},
    }
    match strip_prefix_ci(text, "/replace ") {
        Some(rest) => parse_replace_command(rest),
        None => None,
    }
}

// ---------------------------------------------------------------------------
// Copilot Chat
// ---------------------------------------------------------------------------

pub const ASK_PREFIXES: [&'static str; 3] = ["/ask ", "ask ", "问:"];

/// Further prefixes of a question, which count only where the classifier makes nothing
/// of the text.
pub const LATE_ASK_PREFIXES: [&'static str; 4] = ["ai:", "copilot:", "问copilot:", "ask:"];

pub const CHAT_LIST_WORDS: [&'static str; 6] = [
    "chat 历史",
    "ai 历史",
    "copilot 历史",
    "聊天历史",
    "chat history",
    "copilot sessions",
];

pub const CHAT_PREFIXES: [&'static str; 3] = ["chat 历史 ", "copilot 历史 ", "chat history "];

pub const RECENT_WORDS: [&'static str; 4] = [
    "最近对话",
    "最近消息",
    "recent chat",
    "查看最近对话",
];

/// The number behind a request for a chat, where there is one.
pub open spec fn chat_number(low: Seq<char>) -> Option<nat> {
    match after_any(low, CHAT_PREFIXES@) {
        Some(rest) => number(trim(rest), usize::MAX as nat),
        None => None,
    }
}

/// What a text asks of Copilot Chat.
pub open spec fn chat_intent(text: Seq<char>) -> Option<IntentView> {
    let low = lower(text);
    if after_any_ci(text, ASK_PREFIXES@) is Some {
        Some(IntentView::CopilotAsk(trim(after_any_ci(text, ASK_PREFIXES@)->0)))
    } else if listed(CHAT_LIST_WORDS@, low) {
        Some(IntentView::CopilotSessions)
    } else if chat_number(low) is Some {
        Some(IntentView::CopilotHistory(chat_number(low)->0))
    } else if listed(RECENT_WORDS@, low) {
        Some(IntentView::CopilotHistory(0))
    } else {
        None
    }
}

fn parse_chat_intent(text: &str) -> (r: Option<Intent>)
    ensures
        view_intent(r) == chat_intent(text@),
{
    match strip_any_ci(text, ASK_PREFIXES.as_slice()) {
        Some(question) => {
            return Some(Intent::CopilotAsk(trimmed(question).to_owned()));
        },
        None => {},
    }
    let lowered = to_lower(text);
    let low = lowered.as_str();
    if is_listed(CHAT_LIST_WORDS.as_slice(), low) {
        return Some(Intent::CopilotSessions);
    }
    match strip_any(low, CHAT_PREFIXES.as_slice()) {
        Some(rest) => match parse_number(trimmed(rest), usize::MAX as u64) {
            Some(n) => {
                return Some(Intent::CopilotHistory(n as usize));
            },
            None => {},
        },
        None => {},
    }
    if is_listed(RECENT_WORDS.as_slice(), low) {
        return Some(Intent::CopilotHistory(0));
    }
    None
}

// ---------------------------------------------------------------------------
// Everyday words
// ---------------------------------------------------------------------------

pub const INSTALL_SIGNS: [&'static str; 5] = ["install", "安装", "setup", "winget", "choco"];

pub const SYSTEM_SIGNS: [&'static str; 6] = [
    "powershell",
    "软件",
    "系统",
    "aka.ms/",
    "http://",
    "https://",
];

/// Whether a text speaks of installing and of the system or of an address.
pub open spec fn is_install_request(text: Seq<char>) -> bool {
    contains_any(lower(text), INSTALL_SIGNS@) && contains_any(lower(text), SYSTEM_SIGNS@)
}

pub fn looks_like_system_install_request(text: &str) -> (r: bool)
    ensures
        r == is_install_request(text@),
{
    let low = to_lower(text);
    has_any(low.as_str(), INSTALL_SIGNS.as_slice()) && has_any(
        low.as_str(),
        SYSTEM_SIGNS.as_slice(),
    )
}

pub const SYNC_TARGETS: [&'static str; 4] = ["github", "git", "远程", "代码"];

pub const PUSH_TARGETS: [&'static str; 3] = ["代码", "github", "code"];

pub const SYNC_PHRASES: [&'static str; 3] = ["推到github", "推送代码", "上传代码"];

pub const BUILD_SIGNS: [&'static str; 3] = ["编译", "构建", "build"];

pub const BUILD_TARGETS: [&'static str; 4] = ["项目", "代码", "agent", "project"];

pub const RUN_TEST_SIGNS: [&'static str; 3] = ["测试", "test", "跑测试"];

pub const CHANGE_PHRASES: [&'static str; 3] = ["查看变更", "看看改了什么", "有什么改动"];

/// The steps that bring both repositories, the nested one first, to the remote.
pub const SYNC_STEPS: [&'static str; 7] = [
    "/terminal Write-Host '=== harborbeacon-desktop (子仓库) ==='; git -C harborbeacon-desktop status",
    "/terminal git -C harborbeacon-desktop add -A",
    "/terminal git -C harborbeacon-desktop diff --cached --quiet; if ($LASTEXITCODE -ne 0) { git -C harborbeacon-desktop commit -m 'sync: update from feishu agent' } else { Write-Host 'harborbeacon-desktop: nothing to commit' }",
    "/terminal git -C harborbeacon-desktop push",
    "/terminal Write-Host '=== parent repo ==='; git status",
    "/terminal git add -A; git diff --cached --quiet; if ($LASTEXITCODE -ne 0) { git commit -m 'chore: update desktop submodule pointer' } else { Write-Host 'parent: nothing to commit' }",
    "/terminal git push",
];

/// Whether a text in lower case asks to bring the code to the remote.
pub open spec fn is_sync_request(low: Seq<char>) -> bool {
    ||| contains(low, "同步"@) && contains_any(low, SYNC_TARGETS@)
    ||| contains(low, "push"@) && contains_any(low, PUSH_TARGETS@)
    ||| contains_any(low, SYNC_PHRASES@)
}

/// The task that a text in lower case asks for in everyday words.
pub open spec fn natural_task(low: Seq<char>) -> Option<IntentView> {
    if is_sync_request(low) {
        Some(
            IntentView::SetPlan {
                description: "同步代码到 GitHub（子仓库 + 父仓库）"@,
                steps: view_strs(SYNC_STEPS@),
            },
        )
    } else if contains_any(low, BUILD_SIGNS@) && contains_any(low, BUILD_TARGETS@) {
        Some(IntentView::Build)
    } else if contains_any(low, RUN_TEST_SIGNS@) && !contains(low, "写"@) {
        Some(IntentView::Test(seq![]))
    } else if contains_any(low, CHANGE_PHRASES@) {
        Some(IntentView::Diff(seq![]))
    } else {
        None
    }
}

/// The task that `low`, a text in lower case, asks for in everyday words.
pub fn match_natural_task(low: &str) -> (r: Option<Intent>)
    ensures
        view_intent(r) == natural_task(low@),
{
    if has_text(low, "同步") && has_any(low, SYNC_TARGETS.as_slice()) || has_text(low, "push")
        && has_any(low, PUSH_TARGETS.as_slice()) || has_any(low, SYNC_PHRASES.as_slice()) {
        return Some(
            Intent::SetPlan {
                description: "同步代码到 GitHub（子仓库 + 父仓库）".to_owned(),
                steps: owned_all(SYNC_STEPS.as_slice()),
            },
        );
    }
    if has_any(low, BUILD_SIGNS.as_slice()) && has_any(low, BUILD_TARGETS.as_slice()) {
        return Some(Intent::Build);
    }
    if has_any(low, RUN_TEST_SIGNS.as_slice()) && !has_text(low, "写") {
        return Some(Intent::Test(String::new()));
    }
    if has_any(low, CHANGE_PHRASES.as_slice()) {
        return Some(Intent::Diff(String::new()));
    }
    None
}

pub const TASK_SIGNS: [&'static str; 9] = [
    "帮我",
    "请",
    "做",
    "开发",
    "实现",
    "创建",
    "写一个",
    "build",
    "implement",
];

/// The steps that make a snake game.
pub const SNAKE_STEPS: [&'static str; 3] = [
    "@recipe:snake_python_bootstrap",
    "读取文件 examples/snake-game/README.md",
    "列出目录 examples/snake-game",
];

/// A request is taken for a task if it says so and is at least this long, in bytes.
pub const TASK_LENGTH: usize = 6;

/// The plan, a task and its steps, that a request stands for. Only the snake game is
/// known.
pub open spec fn ready_plan(text: Seq<char>) -> Option<(Seq<char>, Seq<Seq<char>>)> {
    let t = trim(text);
    let low = lower(t);
    if t.len() == 0 || !contains_any(low, TASK_SIGNS@) || byte_len(t) < TASK_LENGTH {
        None
    } else if contains(low, "贪吃蛇"@) || contains(low, "snake"@) && contains(low, "游戏"@) {
        Some(("贪吃蛇游戏项目"@, view_strs(SNAKE_STEPS@)))
    } else {
        None
    }
}

/// The view of an optional plan.
pub open spec fn view_plan(o: Option<(String, Vec<String>)>) -> Option<
    (Seq<char>, Seq<Seq<char>>),
> {
    match o {
        Some(p) => Some((p.0@, view_all(p.1@))),
        None => None,
    }
}

/// The plan that a request stands for, where one is known.
pub fn auto_plan_from_request(text: &str) -> (r: Option<(String, Vec<String>)>)
    ensures
        view_plan(r) == ready_plan(text@),
{
    let t = trimmed(text);
    if t.is_empty() {
        return None;
    }
    let lowered = to_lower(t);
    let low = lowered.as_str();
    if !has_any(low, TASK_SIGNS.as_slice()) || byte_len_of(t) < TASK_LENGTH {
        return None;
    }
    if has_text(low, "贪吃蛇") || has_text(low, "snake") && has_text(low, "游戏") {
        return Some(("贪吃蛇游戏项目".to_owned(), owned_all(SNAKE_STEPS.as_slice())));
    }
    None
}

/// What a text asks for in everyday words.
pub open spec fn everyday_intent(text: Seq<char>) -> Option<IntentView> {
    if is_install_request(text) {
        Some(IntentView::SystemInstallHelp(trim(text)))
    } else if natural_task(lower(text)) is Some {
        natural_task(lower(text))
    } else {
        match ready_plan(text) {
            Some(p) => Some(IntentView::SetPlan { description: p.0, steps: p.1 }),
            None => None,
        }
    }
}

fn parse_everyday_intent(text: &str) -> (r: Option<Intent>)
    ensures
        view_intent(r) == everyday_intent(text@),
{
    if looks_like_system_install_request(text) {
        return Some(Intent::SystemInstallHelp(trimmed(text).to_owned()));
    }
    let low = to_lower(text);
    match match_natural_task(low.as_str()) {
        Some(intent) => {
            return Some(intent);
        },
        None => {},
    }
    match auto_plan_from_request(text) {
        Some((description, steps)) => Some(Intent::SetPlan { description, steps }),
        None => None,
    }
}

// ---------------------------------------------------------------------------
// All forms
// ---------------------------------------------------------------------------

/// The first of two intents that is there.
pub open spec fn or_intent(a: Option<IntentView>, b: Option<IntentView>) -> Option<IntentView> {
    if a is Some {
        a
    } else {
        b
    }
}

/// What a text without `/agent` asks for by the forms tried after the classifier.
pub open spec fn late_intent(text: Seq<char>) -> Option<IntentView> {
    match after_any_ci(text, LATE_ASK_PREFIXES@) {
        Some(question) => Some(IntentView::CopilotAsk(trim(question))),
        None => everyday_intent(text),
    }
}

/// What a text without `/agent` asks for by the forms tried before the classifier.
pub open spec fn early_intent(text: Seq<char>) -> Option<IntentView> {
    or_intent(
        plan_intent(text),
        or_intent(
            loop_intent(text),
            or_intent(edit_intent(text), or_intent(literal_action(text), chat_intent(text))),
        ),
    )
}

/// The task given to `/agent`, if the text starts with it.
pub open spec fn agent_task(text: Seq<char>) -> Option<Seq<char>> {
    match after_prefix_ci(text, "/agent"@) {
        Some(rest) => Some(trim(rest)),
        None => None,
    }
}

/// The task given to `/agent` is shorter than the text.
pub proof fn lemma_agent_task_len(text: Seq<char>)
    ensures
        agent_task(text) matches Some(task) ==> task.len() < text.len(),
{
    reveal_strlit("/agent");
    if after_prefix_ci(text, "/agent"@) is Some {
        lemma_trim_len(after_prefix_ci(text, "/agent"@)->0);
    }
}

/// What a text asks for, given what the classifier makes of the text that reaches it.
pub open spec fn intent_of(text: Seq<char>, inferred: Option<IntentView>) -> Option<IntentView>
    decreases text.len(),
{
    if text.len() == 0 {
        Some(IntentView::Help)
    } else if session_intent(text) is Some {
        session_intent(text)
    } else if agent_task(text) is Some {
        let task = agent_task(text)->0;
        proof {
            lemma_agent_task_len(text);
        }
        let known = or_intent(agent_word(task), intent_of(task, inferred));
        or_intent(known, Some(IntentView::CopilotAsk(agent_question(task))))
    } else {
        or_intent(early_intent(text), or_intent(inferred, late_intent(text)))
    }
}

/// The text that reaches the classifier: the text itself, or the task given to
/// `/agent`, unless a form tried before decides.
pub open spec fn unclassified(text: Seq<char>) -> Option<Seq<char>>
    decreases text.len(),
{
    if text.len() == 0 || session_intent(text) is Some {
        None
    } else if agent_task(text) is Some {
        let task = agent_task(text)->0;
        proof {
            lemma_agent_task_len(text);
        }
        if agent_word(task) is Some {
            None
        } else {
            unclassified(task)
        }
    } else if early_intent(text) is Some {
        None
    } else {
        Some(text)
    }
}

fn parse_early_intent(text: &str) -> (r: Option<Intent>)
    ensures
        view_intent(r) == early_intent(text@),
{
    match parse_plan_intent(text) {
        Some(intent) => {
            return Some(intent);
        },
        None => {},
    }
    match parse_loop_intent(text) {
        Some(intent) => {
            return Some(intent);
        },
        None => {},
    }
    match parse_edit_intent(text) {
        Some(intent) => {
            return Some(intent);
        },
        None => {},
    }
    match parse_literal_action(text) {
        Some(action) => Some(action),
        None => parse_chat_intent(text),
    }
}

/// The text that the classifier is asked about, where it is asked.
pub fn text_to_classify<'a>(text: &'a str) -> (r: Option<&'a str>)
    ensures
        view_opt_str(r) == unclassified(text@),
    decreases text@.len(),
{
    if text.is_empty() || parse_session_intent(text).is_some() {
        return None;
    }
    match strip_prefix_ci(text, "/agent") {
        Some(rest) => {
            let task = trimmed(rest);
            proof {
                lemma_agent_task_len(text@);
            }
            if parse_agent_word(task).is_some() {
                None
            } else {
                text_to_classify(task)
            }
        },
        None => if parse_early_intent(text).is_some() {
            None
        } else {
            Some(text)
        },
    }
}

/// What `text` asks for, given what the classifier makes of the text that reaches it.
pub fn parse_intent_given(text: &str, inferred: Option<Intent>) -> (r: Option<Intent>)
    ensures
        view_intent(r) == intent_of(text@, view_intent(inferred)),
    decreases text@.len(),
{
    if text.is_empty() {
        return Some(Intent::Help);
    }
    match parse_session_intent(text) {
        Some(intent) => {
            return Some(intent);
        },
        None => {},
    }
    match strip_prefix_ci(text, "/agent") {
        Some(rest) => {
            let task = trimmed(rest);
            proof {
                lemma_agent_task_len(text@);
            }
            match parse_agent_word(task) {
                Some(intent) => Some(intent),
                None => match parse_intent_given(task, inferred) {
                    Some(intent) => Some(intent),
                    None => Some(Intent::CopilotAsk(ask_about_task(task))),
                },
            }
        },
        None => {
            match parse_early_intent(text) {
                Some(intent) => {
                    return Some(intent);
                },
                None => {},
            }
            if inferred.is_some() {
                return inferred;
            }
            match strip_any_ci(text, LATE_ASK_PREFIXES.as_slice()) {
                Some(question) => Some(Intent::CopilotAsk(trimmed(question).to_owned())),
                None => parse_everyday_intent(text),
            }
        },
    }
}

/// Whether the classifier can make `inferred` of the text that reaches it. Where none
/// reaches it, it makes nothing.
pub open spec fn possible_guess(text: Seq<char>, inferred: Option<IntentView>) -> bool {
    match unclassified(text) {
        Some(t) => possible_inference(t, inferred),
        None => inferred is None,
    }
}

/// What `text` asks for. Where no form fits and the classifier finds nothing, it is
/// `None`.
pub fn parse_intent(text: &str) -> (r: Option<Intent>)
    ensures
        exists|inferred: Option<IntentView>| #[trigger]
            possible_guess(text@, inferred) && view_intent(r) == intent_of(text@, inferred),
{
    let inferred: Option<Intent> = match text_to_classify(text) {
        Some(t) => infer_action_intent_candle(t),
        None => None,
    };
    assert(possible_guess(text@, view_intent(inferred)));
    parse_intent_given(text, inferred)
}

/// The action that `text` asks for: the literal one, else the classifier's guess.
pub fn parse_action_intent(text: &str) -> (r: Option<Intent>)
    ensures
        literal_action(text@) is Some ==> view_intent(r) == literal_action(text@),
        literal_action(text@) is None ==> possible_inference(text@, view_intent(r)),
{
    match parse_literal_action(text) {
        Some(action) => Some(action),
        None => infer_action_intent_candle(text),
    }
}

// ---------------------------------------------------------------------------
// Laws
// ---------------------------------------------------------------------------

/// A text that does not reach the classifier means the same whatever the classifier
/// would make of it.
pub proof fn settled_text_ignores_classifier(
    text: Seq<char>,
    a: Option<IntentView>,
    b: Option<IntentView>,
)
    requires
        unclassified(text) is None,
    ensures
        intent_of(text, a) == intent_of(text, b),
    decreases text.len(),
{
    if text.len() > 0 && session_intent(text) is None && agent_task(text) is Some {
        lemma_agent_task_len(text);
        let task = agent_task(text)->0;
        if agent_word(task) is None {
            settled_text_ignores_classifier(task, a, b);
        }
    }
}

/// A task given to `/agent` is always taken for something: at the least Copilot is
/// asked about it.
pub proof fn agent_task_is_understood(text: Seq<char>, inferred: Option<IntentView>)
    requires
        agent_task(text) is Some,
    ensures
        intent_of(text, inferred) is Some,
{
}

} // verus!
