//! What can be relied on about words: which words there are, and what each of them means.

use crate::intent::IntentView;
use crate::parser::{
    agent_task, agent_word, chat_intent, chat_number, early_intent, everyday_intent, intent_of,
    is_install_request, late_intent, loop_intent, natural_task, plan_intent, ready_plan,
    session_intent, AGENT_CODING_WORDS, AGENT_FIX_PREFIXES, AGENT_PLANNING_WORDS,
    AGENT_STATUS_WORDS, ASK_PREFIXES, BUILD_SIGNS, BUILD_TARGETS, BUILD_WORDS, CANCEL_WORDS,
    CHANGE_PHRASES, CHAT_LIST_WORDS, CLEAR_WORDS, CODING_WORDS, COMMIT_PREFIXES, CONFIRM_WORDS,
    CONTINUE_ALL_WORDS, CONTINUE_WORDS, FIX_PREFIXES, FIX_WORDS, HELP_WORDS, INSTALL_SIGNS,
    LATE_ASK_PREFIXES, LOG_WORDS, PLANNING_WORDS, PLAN_PREFIXES, PLAN_TRIGGERS, PUSH_TARGETS,
    PUSH_WORDS, RECENT_WORDS, RESTART_WORDS, RETRY_WORDS, RUN_TEST_SIGNS, SESSION_LIST_WORDS,
    SESSION_LOAD_PREFIXES, SESSION_SAVE_PREFIXES, SESSION_SAVE_WORDS, SNAKE_STEPS, STATUS_WORDS,
    SYNC_PHRASES, SYNC_STEPS, SYNC_TARGETS, SYSTEM_SIGNS, TASK_SIGNS, TERMINAL_PREFIXES,
};
use crate::session::SessionMode;
use crate::text::{
    absent_piece_is_not_found, after_any, after_any_ci, after_prefix_ci, all_space, ascii_lower,
    byte_len, contains, contains_any, is_bare, is_prefix_ci, is_without, listed, split_once, trim,
    trimming_keeps_the_rest, view_strs,
};
use crate::unicode::lower;
use vstd::prelude::*;

verus! {

// ---------------------------------------------------------------------------
// Which words there are
// ---------------------------------------------------------------------------

/// The words about the session are these, and no others.
pub proof fn session_words_are_these(s: Seq<char>)
    ensures
        listed(CONTINUE_WORDS@, s) <==> s == "继续"@ || s == "continue"@ || s == "继续执行"@
            || s == "下一步"@,
        listed(CONTINUE_ALL_WORDS@, s) <==> s == "执行全部"@ || s == "全部执行"@ || s == "run all"@
            || s == "执行所有步骤"@ || s == "全部继续"@ || s == "一键执行"@,
        listed(RETRY_WORDS@, s) <==> s == "重试"@ || s == "retry"@ || s == "再试一次"@ || s == "再来一次"@,
        listed(STATUS_WORDS@, s) <==> s == "状态"@ || s == "status"@ || s == "进展"@ || s == "现在做什么"@
            || s == "当前任务"@,
        listed(SESSION_LIST_WORDS@, s) <==> s == "会话列表"@ || s == "session list"@
            || s == "sessions"@ || s == "历史会话"@ || s == "查看会话"@,
        listed(SESSION_SAVE_WORDS@, s) <==> s == "保存会话"@ || s == "session save"@
            || s == "/session save"@,
        listed(CLEAR_WORDS@, s) <==> s == "清除"@ || s == "clear"@ || s == "清除会话"@ || s == "reset"@
            || s == "重置"@,
        listed(CODING_WORDS@, s) <==> s == "编码模式"@ || s == "切换编码"@ || s == "switch coding"@
            || s == "coding mode"@ || s == "coding"@,
        listed(PLANNING_WORDS@, s) <==> s == "规划模式"@ || s == "切换规划"@ || s == "switch planning"@
            || s == "planning mode"@ || s == "planning"@,
        listed(HELP_WORDS@, s) <==> s == "help"@ || s == "帮助"@,
{
    lemma_continue_words(s);
    lemma_continue_all_words(s);
    lemma_retry_words(s);
    lemma_status_words(s);
    lemma_session_list_words(s);
    lemma_session_save_words(s);
    lemma_clear_words(s);
    lemma_coding_words(s);
    lemma_planning_words(s);
    lemma_help_words(s);
}

proof fn lemma_continue_words(s: Seq<char>)
    ensures
        listed(CONTINUE_WORDS@, s) <==> s == "继续"@ || s == "continue"@ || s == "继续执行"@
            || s == "下一步"@,
{
    let all = CONTINUE_WORDS@;
    assert(all[0]@ == "继续"@ && all[1]@ == "continue"@ && all[2]@ == "继续执行"@ && all[3]@ == "下一步"@);
    if listed(all, s) {
        let i = choose|i: int| 0 <= i < all.len() && (#[trigger] all[i])@ == s;
        assert(i == 0 || i == 1 || i == 2 || i == 3);
    }
}

proof fn lemma_continue_all_words(s: Seq<char>)
    ensures
        listed(CONTINUE_ALL_WORDS@, s) <==> s == "执行全部"@ || s == "全部执行"@ || s == "run all"@
            || s == "执行所有步骤"@ || s == "全部继续"@ || s == "一键执行"@,
{
    let all = CONTINUE_ALL_WORDS@;
    assert(all[0]@ == "执行全部"@ && all[1]@ == "全部执行"@ && all[2]@ == "run all"@
        && all[3]@ == "执行所有步骤"@ && all[4]@ == "全部继续"@ && all[5]@ == "一键执行"@);
    if listed(all, s) {
        let i = choose|i: int| 0 <= i < all.len() && (#[trigger] all[i])@ == s;
        assert(i == 0 || i == 1 || i == 2 || i == 3 || i == 4 || i == 5);
    }
}

proof fn lemma_retry_words(s: Seq<char>)
    ensures
        listed(RETRY_WORDS@, s) <==> s == "重试"@ || s == "retry"@ || s == "再试一次"@ || s == "再来一次"@,
{
    let all = RETRY_WORDS@;
    assert(all[0]@ == "重试"@ && all[1]@ == "retry"@ && all[2]@ == "再试一次"@ && all[3]@ == "再来一次"@);
    if listed(all, s) {
        let i = choose|i: int| 0 <= i < all.len() && (#[trigger] all[i])@ == s;
        assert(i == 0 || i == 1 || i == 2 || i == 3);
    }
}

proof fn lemma_status_words(s: Seq<char>)
    ensures
        listed(STATUS_WORDS@, s) <==> s == "状态"@ || s == "status"@ || s == "进展"@ || s == "现在做什么"@
            || s == "当前任务"@,
{
    let all = STATUS_WORDS@;
    assert(all[0]@ == "状态"@ && all[1]@ == "status"@ && all[2]@ == "进展"@ && all[3]@ == "现在做什么"@
        && all[4]@ == "当前任务"@);
    if listed(all, s) {
        let i = choose|i: int| 0 <= i < all.len() && (#[trigger] all[i])@ == s;
        assert(i == 0 || i == 1 || i == 2 || i == 3 || i == 4);
    }
}

proof fn lemma_session_list_words(s: Seq<char>)
    ensures
        listed(SESSION_LIST_WORDS@, s) <==> s == "会话列表"@ || s == "session list"@
            || s == "sessions"@ || s == "历史会话"@ || s == "查看会话"@,
{
    let all = SESSION_LIST_WORDS@;
    assert(all[0]@ == "会话列表"@ && all[1]@ == "session list"@ && all[2]@ == "sessions"@
        && all[3]@ == "历史会话"@ && all[4]@ == "查看会话"@);
    if listed(all, s) {
        let i = choose|i: int| 0 <= i < all.len() && (#[trigger] all[i])@ == s;
        assert(i == 0 || i == 1 || i == 2 || i == 3 || i == 4);
    }
}

proof fn lemma_session_save_words(s: Seq<char>)
    ensures
        listed(SESSION_SAVE_WORDS@, s) <==> s == "保存会话"@ || s == "session save"@
            || s == "/session save"@,
{
    let all = SESSION_SAVE_WORDS@;
    assert(all[0]@ == "保存会话"@ && all[1]@ == "session save"@ && all[2]@ == "/session save"@);
    if listed(all, s) {
        let i = choose|i: int| 0 <= i < all.len() && (#[trigger] all[i])@ == s;
        assert(i == 0 || i == 1 || i == 2);
    }
}

proof fn lemma_clear_words(s: Seq<char>)
    ensures
        listed(CLEAR_WORDS@, s) <==> s == "清除"@ || s == "clear"@ || s == "清除会话"@ || s == "reset"@
            || s == "重置"@,
{
    let all = CLEAR_WORDS@;
    assert(all[0]@ == "清除"@ && all[1]@ == "clear"@ && all[2]@ == "清除会话"@ && all[3]@ == "reset"@
        && all[4]@ == "重置"@);
    if listed(all, s) {
        let i = choose|i: int| 0 <= i < all.len() && (#[trigger] all[i])@ == s;
        assert(i == 0 || i == 1 || i == 2 || i == 3 || i == 4);
    }
}

proof fn lemma_coding_words(s: Seq<char>)
    ensures
        listed(CODING_WORDS@, s) <==> s == "编码模式"@ || s == "切换编码"@ || s == "switch coding"@
            || s == "coding mode"@ || s == "coding"@,
{
    let all = CODING_WORDS@;
    assert(all[0]@ == "编码模式"@ && all[1]@ == "切换编码"@ && all[2]@ == "switch coding"@
        && all[3]@ == "coding mode"@ && all[4]@ == "coding"@);
    if listed(all, s) {
        let i = choose|i: int| 0 <= i < all.len() && (#[trigger] all[i])@ == s;
        assert(i == 0 || i == 1 || i == 2 || i == 3 || i == 4);
    }
}

proof fn lemma_planning_words(s: Seq<char>)
    ensures
        listed(PLANNING_WORDS@, s) <==> s == "规划模式"@ || s == "切换规划"@ || s == "switch planning"@
            || s == "planning mode"@ || s == "planning"@,
{
    let all = PLANNING_WORDS@;
    assert(all[0]@ == "规划模式"@ && all[1]@ == "切换规划"@ && all[2]@ == "switch planning"@
        && all[3]@ == "planning mode"@ && all[4]@ == "planning"@);
    if listed(all, s) {
        let i = choose|i: int| 0 <= i < all.len() && (#[trigger] all[i])@ == s;
        assert(i == 0 || i == 1 || i == 2 || i == 3 || i == 4);
    }
}

proof fn lemma_help_words(s: Seq<char>)
    ensures
        listed(HELP_WORDS@, s) <==> s == "help"@ || s == "帮助"@,
{
    let all = HELP_WORDS@;
    assert(all[0]@ == "help"@ && all[1]@ == "帮助"@);
    if listed(all, s) {
        let i = choose|i: int| 0 <= i < all.len() && (#[trigger] all[i])@ == s;
        assert(i == 0 || i == 1);
    }
}

/// The words about fixes, plans and the development loop are these, and no others.
pub proof fn work_words_are_these(s: Seq<char>)
    ensures
        listed(FIX_WORDS@, s) <==> s == "/fix"@ || s == "fix"@ || s == "修复"@ || s == "修复这个"@,
        listed(PLAN_TRIGGERS@, s) <==> s == "plan"@ || s == "计划"@ || s == "规划"@ || s == "/plan"@
            || s == "/计划"@ || s == "/规划"@,
        listed(BUILD_WORDS@, s) <==> s == "build"@ || s == "/build"@ || s == "编译"@ || s == "构建"@,
        listed(RESTART_WORDS@, s) <==> s == "restart"@ || s == "/restart"@ || s == "重启"@
            || s == "重启服务"@ || s == "rebuild"@ || s == "/rebuild"@,
        listed(LOG_WORDS@, s) <==> s == "logs"@ || s == "/logs"@ || s == "日志"@ || s == "查看日志"@
            || s == "最新日志"@ || s == "错误日志"@,
        listed(CONFIRM_WORDS@, s) <==> s == "确认执行"@ || s == "confirm"@ || s == "/confirm"@
            || s == "yes"@,
        listed(CANCEL_WORDS@, s) <==> s == "取消执行"@ || s == "cancel"@ || s == "/cancel"@
            || s == "no"@,
        listed(PUSH_WORDS@, s) <==> s == "push"@ || s == "/push"@ || s == "推送"@ || s == "git push"@,
{
    lemma_fix_words(s);
    lemma_plan_triggers(s);
    lemma_build_words(s);
    lemma_restart_words(s);
    lemma_log_words(s);
    lemma_confirm_words(s);
    lemma_cancel_words(s);
    lemma_push_words(s);
}

proof fn lemma_fix_words(s: Seq<char>)
    ensures
        listed(FIX_WORDS@, s) <==> s == "/fix"@ || s == "fix"@ || s == "修复"@ || s == "修复这个"@,
{
    let all = FIX_WORDS@;
    assert(all[0]@ == "/fix"@ && all[1]@ == "fix"@ && all[2]@ == "修复"@ && all[3]@ == "修复这个"@);
    if listed(all, s) {
        let i = choose|i: int| 0 <= i < all.len() && (#[trigger] all[i])@ == s;
        assert(i == 0 || i == 1 || i == 2 || i == 3);
    }
}

proof fn lemma_plan_triggers(s: Seq<char>)
    ensures
        listed(PLAN_TRIGGERS@, s) <==> s == "plan"@ || s == "计划"@ || s == "规划"@ || s == "/plan"@
            || s == "/计划"@ || s == "/规划"@,
{
    let all = PLAN_TRIGGERS@;
    assert(all[0]@ == "plan"@ && all[1]@ == "计划"@ && all[2]@ == "规划"@ && all[3]@ == "/plan"@
        && all[4]@ == "/计划"@ && all[5]@ == "/规划"@);
    if listed(all, s) {
        let i = choose|i: int| 0 <= i < all.len() && (#[trigger] all[i])@ == s;
        assert(i == 0 || i == 1 || i == 2 || i == 3 || i == 4 || i == 5);
    }
}

proof fn lemma_build_words(s: Seq<char>)
    ensures
        listed(BUILD_WORDS@, s) <==> s == "build"@ || s == "/build"@ || s == "编译"@ || s == "构建"@,
{
    let all = BUILD_WORDS@;
    assert(all[0]@ == "build"@ && all[1]@ == "/build"@ && all[2]@ == "编译"@ && all[3]@ == "构建"@);
    if listed(all, s) {
        let i = choose|i: int| 0 <= i < all.len() && (#[trigger] all[i])@ == s;
        assert(i == 0 || i == 1 || i == 2 || i == 3);
    }
}

proof fn lemma_restart_words(s: Seq<char>)
    ensures
        listed(RESTART_WORDS@, s) <==> s == "restart"@ || s == "/restart"@ || s == "重启"@
            || s == "重启服务"@ || s == "rebuild"@ || s == "/rebuild"@,
{
    let all = RESTART_WORDS@;
    assert(all[0]@ == "restart"@ && all[1]@ == "/restart"@ && all[2]@ == "重启"@
        && all[3]@ == "重启服务"@ && all[4]@ == "rebuild"@ && all[5]@ == "/rebuild"@);
    if listed(all, s) {
        let i = choose|i: int| 0 <= i < all.len() && (#[trigger] all[i])@ == s;
        assert(i == 0 || i == 1 || i == 2 || i == 3 || i == 4 || i == 5);
    }
}

proof fn lemma_log_words(s: Seq<char>)
    ensures
        listed(LOG_WORDS@, s) <==> s == "logs"@ || s == "/logs"@ || s == "日志"@ || s == "查看日志"@
            || s == "最新日志"@ || s == "错误日志"@,
{
    let all = LOG_WORDS@;
    assert(all[0]@ == "logs"@ && all[1]@ == "/logs"@ && all[2]@ == "日志"@ && all[3]@ == "查看日志"@
        && all[4]@ == "最新日志"@ && all[5]@ == "错误日志"@);
    if listed(all, s) {
        let i = choose|i: int| 0 <= i < all.len() && (#[trigger] all[i])@ == s;
        assert(i == 0 || i == 1 || i == 2 || i == 3 || i == 4 || i == 5);
    }
}

proof fn lemma_confirm_words(s: Seq<char>)
    ensures
        listed(CONFIRM_WORDS@, s) <==> s == "确认执行"@ || s == "confirm"@ || s == "/confirm"@
            || s == "yes"@,
{
    let all = CONFIRM_WORDS@;
    assert(all[0]@ == "确认执行"@ && all[1]@ == "confirm"@ && all[2]@ == "/confirm"@
        && all[3]@ == "yes"@);
    if listed(all, s) {
        let i = choose|i: int| 0 <= i < all.len() && (#[trigger] all[i])@ == s;
        assert(i == 0 || i == 1 || i == 2 || i == 3);
    }
}

proof fn lemma_cancel_words(s: Seq<char>)
    ensures
        listed(CANCEL_WORDS@, s) <==> s == "取消执行"@ || s == "cancel"@ || s == "/cancel"@
            || s == "no"@,
{
    let all = CANCEL_WORDS@;
    assert(all[0]@ == "取消执行"@ && all[1]@ == "cancel"@ && all[2]@ == "/cancel"@ && all[3]@ == "no"@);
    if listed(all, s) {
        let i = choose|i: int| 0 <= i < all.len() && (#[trigger] all[i])@ == s;
        assert(i == 0 || i == 1 || i == 2 || i == 3);
    }
}

proof fn lemma_push_words(s: Seq<char>)
    ensures
        listed(PUSH_WORDS@, s) <==> s == "push"@ || s == "/push"@ || s == "推送"@ || s == "git push"@,
{
    let all = PUSH_WORDS@;
    assert(all[0]@ == "push"@ && all[1]@ == "/push"@ && all[2]@ == "推送"@ && all[3]@ == "git push"@);
    if listed(all, s) {
        let i = choose|i: int| 0 <= i < all.len() && (#[trigger] all[i])@ == s;
        assert(i == 0 || i == 1 || i == 2 || i == 3);
    }
}

/// The words about the agent and Copilot Chat are these, and no others.
pub proof fn other_words_are_these(s: Seq<char>)
    ensures
        listed(AGENT_STATUS_WORDS@, s) <==> s == ""@ || s == "status"@,
        listed(AGENT_CODING_WORDS@, s) <==> s == "coding"@ || s == "code"@,
        listed(AGENT_PLANNING_WORDS@, s) <==> s == "planning"@ || s == "plan"@,
        listed(CHAT_LIST_WORDS@, s) <==> s == "chat 历史"@ || s == "ai 历史"@ || s == "copilot 历史"@
            || s == "聊天历史"@ || s == "chat history"@ || s == "copilot sessions"@,
        listed(RECENT_WORDS@, s) <==> s == "最近对话"@ || s == "最近消息"@ || s == "recent chat"@
            || s == "查看最近对话"@,
{
    lemma_agent_status_words(s);
    lemma_agent_coding_words(s);
    lemma_agent_planning_words(s);
    lemma_chat_list_words(s);
    lemma_recent_words(s);
}

proof fn lemma_agent_status_words(s: Seq<char>)
    ensures
        listed(AGENT_STATUS_WORDS@, s) <==> s == ""@ || s == "status"@,
{
    let all = AGENT_STATUS_WORDS@;
    assert(all[0]@ == ""@ && all[1]@ == "status"@);
    if listed(all, s) {
        let i = choose|i: int| 0 <= i < all.len() && (#[trigger] all[i])@ == s;
        assert(i == 0 || i == 1);
    }
}

proof fn lemma_agent_coding_words(s: Seq<char>)
    ensures
        listed(AGENT_CODING_WORDS@, s) <==> s == "coding"@ || s == "code"@,
{
    let all = AGENT_CODING_WORDS@;
    assert(all[0]@ == "coding"@ && all[1]@ == "code"@);
    if listed(all, s) {
        let i = choose|i: int| 0 <= i < all.len() && (#[trigger] all[i])@ == s;
        assert(i == 0 || i == 1);
    }
}

proof fn lemma_agent_planning_words(s: Seq<char>)
    ensures
        listed(AGENT_PLANNING_WORDS@, s) <==> s == "planning"@ || s == "plan"@,
{
    let all = AGENT_PLANNING_WORDS@;
    assert(all[0]@ == "planning"@ && all[1]@ == "plan"@);
    if listed(all, s) {
        let i = choose|i: int| 0 <= i < all.len() && (#[trigger] all[i])@ == s;
        assert(i == 0 || i == 1);
    }
}

proof fn lemma_chat_list_words(s: Seq<char>)
    ensures
        listed(CHAT_LIST_WORDS@, s) <==> s == "chat 历史"@ || s == "ai 历史"@ || s == "copilot 历史"@
            || s == "聊天历史"@ || s == "chat history"@ || s == "copilot sessions"@,
{
    let all = CHAT_LIST_WORDS@;
    assert(all[0]@ == "chat 历史"@ && all[1]@ == "ai 历史"@ && all[2]@ == "copilot 历史"@
        && all[3]@ == "聊天历史"@ && all[4]@ == "chat history"@ && all[5]@ == "copilot sessions"@);
    if listed(all, s) {
        let i = choose|i: int| 0 <= i < all.len() && (#[trigger] all[i])@ == s;
        assert(i == 0 || i == 1 || i == 2 || i == 3 || i == 4 || i == 5);
    }
}

proof fn lemma_recent_words(s: Seq<char>)
    ensures
        listed(RECENT_WORDS@, s) <==> s == "最近对话"@ || s == "最近消息"@ || s == "recent chat"@
            || s == "查看最近对话"@,
{
    let all = RECENT_WORDS@;
    assert(all[0]@ == "最近对话"@ && all[1]@ == "最近消息"@ && all[2]@ == "recent chat"@
        && all[3]@ == "查看最近对话"@);
    if listed(all, s) {
        let i = choose|i: int| 0 <= i < all.len() && (#[trigger] all[i])@ == s;
        assert(i == 0 || i == 1 || i == 2 || i == 3);
    }
}

// ---------------------------------------------------------------------------
// What the words mean
// ---------------------------------------------------------------------------

/// A word about the session means what it says, in any case; the first list that has it
/// decides, and a session is loaded or saved by name before the later lists are looked at.
pub proof fn session_words_mean_what_they_say(text: Seq<char>, inferred: Option<IntentView>)
    requires
        text.len() > 0,
    ensures
        ({
            let low = lower(text);
            let meant = intent_of(text, inferred);
            let loads = after_any(text, SESSION_LOAD_PREFIXES@) is Some;
            let saves = after_any(text, SESSION_SAVE_PREFIXES@) is Some;
            let first = listed(CONTINUE_WORDS@, low);
            let second = first || listed(CONTINUE_ALL_WORDS@, low);
            let third = second || listed(RETRY_WORDS@, low);
            let fourth = third || listed(STATUS_WORDS@, low);
            let fifth = fourth || listed(SESSION_LIST_WORDS@, low) || loads;
            let sixth = fifth || listed(SESSION_SAVE_WORDS@, low) || saves;
            let seventh = sixth || listed(CLEAR_WORDS@, low);
            let eighth = seventh || listed(CODING_WORDS@, low);
            let ninth = eighth || listed(PLANNING_WORDS@, low);
            &&& first ==> meant == Some(IntentView::Continue)
            &&& !first && listed(CONTINUE_ALL_WORDS@, low) ==> meant == Some(
                IntentView::ContinueAll,
            )
            &&& !second && listed(RETRY_WORDS@, low) ==> meant == Some(IntentView::Retry)
            &&& !third && listed(STATUS_WORDS@, low) ==> meant == Some(IntentView::Status)
            &&& !fourth && listed(SESSION_LIST_WORDS@, low) ==> meant == Some(
                IntentView::SessionList,
            )
            &&& !fifth && listed(SESSION_SAVE_WORDS@, low) ==> meant == Some(
                IntentView::SessionSave(None),
            )
            &&& !sixth && listed(CLEAR_WORDS@, low) ==> meant == Some(IntentView::Clear)
            &&& !seventh && listed(CODING_WORDS@, low) ==> meant == Some(
                IntentView::SwitchMode(SessionMode::Coding),
            )
            &&& !eighth && listed(PLANNING_WORDS@, low) ==> meant == Some(
                IntentView::SwitchMode(SessionMode::Planning),
            )
            &&& !ninth && (text == "/help"@ || listed(HELP_WORDS@, low)) ==> meant == Some(
                IntentView::Help,
            )
            &&& !ninth && text != "/help"@ && !listed(HELP_WORDS@, low) ==> session_intent(text)
                is None
        }),
{
}

/// A text that says nothing about the session and nothing to the agent means what the
/// forms before the classifier make of it; then what the classifier makes of it; then what
/// the forms behind it make of it. An empty text is a call for help.
pub proof fn forms_are_tried_in_turn(text: Seq<char>, inferred: Option<IntentView>)
    requires
        session_intent(text) is None,
        after_prefix_ci(text, "/agent"@) is None,
    ensures
        intent_of(seq![], inferred) == Some(IntentView::Help),
        text.len() > 0 ==> {
            let meant = intent_of(text, inferred);
            &&& plan_intent(text) is Some ==> meant == plan_intent(text)
            &&& plan_intent(text) is None && loop_intent(text) is Some ==> meant == loop_intent(
                text,
            )
            &&& early_intent(text) is None && inferred is Some ==> meant == inferred
            &&& early_intent(text) is None && inferred is None ==> meant == late_intent(text)
        },
{
}

/// A word about fixes and plans means what it says.
pub proof fn plan_words_mean_what_they_say(text: Seq<char>)
    ensures
        ({
            let low = lower(text);
            let fixes = after_any_ci(text, FIX_PREFIXES@) is Some;
            let plans = after_any_ci(text, PLAN_PREFIXES@) is Some;
            &&& !fixes && listed(FIX_WORDS@, low) ==> plan_intent(text) == Some(
                IntentView::AgentFix(seq![]),
            )
            &&& !fixes && !listed(FIX_WORDS@, low) && !plans && is_without(text, "\n"@) && listed(
                PLAN_TRIGGERS@,
                trim(low),
            ) ==> plan_intent(text) == Some(IntentView::Status)
            &&& !fixes && !listed(FIX_WORDS@, low) && !plans && is_without(text, "\n"@)
                && !listed(PLAN_TRIGGERS@, trim(low)) ==> plan_intent(text) is None
        }),
{
    reveal_strlit("\n");
    crate::text::text_is_parted(text, seq![], "\n"@, seq![]);
    if split_once(text, "\n"@) is Some {
        let parts = split_once(text, "\n"@)->0;
        assert(text == parts.0 + "\n"@ + parts.1);
    }
}

/// A word of the development loop means what it says, in any case.
pub proof fn loop_words_mean_what_they_say(text: Seq<char>)
    ensures
        ({
            let low = lower(text);
            let meant = loop_intent(text);
            let runs = after_any_ci(text, TERMINAL_PREFIXES@) is Some;
            let commits = after_any_ci(text, COMMIT_PREFIXES@) is Some;
            let first = listed(BUILD_WORDS@, low);
            let second = first || listed(RESTART_WORDS@, low);
            let third = second || listed(LOG_WORDS@, low) || runs;
            let fourth = third || listed(CONFIRM_WORDS@, low);
            let fifth = fourth || listed(CANCEL_WORDS@, low) || commits;
            &&& first ==> meant == Some(IntentView::Build)
            &&& !first && listed(RESTART_WORDS@, low) ==> meant == Some(IntentView::SelfRestart)
            &&& !second && listed(LOG_WORDS@, low) ==> meant == Some(IntentView::ViewLogs)
            &&& !third && listed(CONFIRM_WORDS@, low) ==> meant == Some(IntentView::TerminalConfirm)
            &&& !fourth && listed(CANCEL_WORDS@, low) ==> meant == Some(IntentView::TerminalCancel)
            &&& !fifth && listed(PUSH_WORDS@, low) ==> meant == Some(IntentView::GitPush)
            &&& !fifth && !listed(PUSH_WORDS@, low) ==> meant is None
        }),
{
}

/// A task given to `/agent` is what stands behind it, without the white space round it.
pub proof fn agent_task_is_what_follows(
    head: Seq<char>,
    lead: Seq<char>,
    task: Seq<char>,
    tail: Seq<char>,
)
    requires
        crate::commands::in_any_case(head, "/agent"@),
        all_space(lead),
        is_bare(task),
        all_space(tail),
    ensures
        agent_task(head + (lead + task + tail)) == Some(task),
        agent_task(head + (lead + tail)) == Some(Seq::<char>::empty()),
{
    trimming_keeps_the_rest(lead, task, tail);
    lemma_behind(head, "/agent"@, lead + task + tail);
    lemma_behind(head, "/agent"@, lead + tail);
    assert(trim(lead + tail) =~= seq![]);
}

proof fn lemma_behind(head: Seq<char>, word: Seq<char>, rest: Seq<char>)
    requires
        crate::commands::in_any_case(head, word),
    ensures
        after_prefix_ci(head + rest, word) == Some(rest),
{
    let text = head + rest;
    assert forall|i: int| 0 <= i < word.len() implies ascii_lower(#[trigger] word[i]) == ascii_lower(
        text[i],
    ) by {
        assert(text[i] == head[i]);
    }
    assert(is_prefix_ci(word, text));
    assert(text.skip(word.len() as int) =~= rest);
}

/// A word to the agent means what it says, in any case, where it is no fix.
pub proof fn agent_words_mean_what_they_say(task: Seq<char>)
    requires
        lower(task) != "fix"@,
        after_any(lower(task), AGENT_FIX_PREFIXES@) is None,
    ensures
        ({
            let low = lower(task);
            let meant = agent_word(task);
            let status = listed(AGENT_STATUS_WORDS@, low);
            let coding = listed(AGENT_CODING_WORDS@, low);
            let planning = listed(AGENT_PLANNING_WORDS@, low);
            &&& status ==> meant == Some(IntentView::Status)
            &&& !status && coding ==> meant == Some(IntentView::SwitchMode(SessionMode::Coding))
            &&& !status && !coding && planning ==> meant == Some(
                IntentView::SwitchMode(SessionMode::Planning),
            )
            &&& !status && !coding && !planning && low == "help"@ ==> meant == Some(
                IntentView::Help,
            )
            &&& !status && !coding && !planning && low != "help"@ ==> meant is None
        }),
{
}

/// A word about Copilot Chat means what it says, in any case.
pub proof fn chat_words_mean_what_they_say(text: Seq<char>)
    requires
        after_any_ci(text, ASK_PREFIXES@) is None,
    ensures
        ({
            let low = lower(text);
            &&& listed(CHAT_LIST_WORDS@, low) ==> chat_intent(text) == Some(
                IntentView::CopilotSessions,
            )
            &&& !listed(CHAT_LIST_WORDS@, low) && chat_number(low) is None && listed(
                RECENT_WORDS@,
                low,
            ) ==> chat_intent(text) == Some(IntentView::CopilotHistory(0))
            &&& !listed(CHAT_LIST_WORDS@, low) && chat_number(low) is None && !listed(
                RECENT_WORDS@,
                low,
            ) ==> chat_intent(text) is None
        }),
{
}

/// The further names for a question, which count where the classifier makes nothing of the
/// text.
pub open spec fn is_late_ask_head(h: Seq<char>) -> bool {
    h == "ai:"@ || h == "copilot:"@ || h == "问copilot:"@ || h == "ask:"@
}

/// What stands behind a further name for a question is the question, without the white
/// space round it.
pub proof fn late_question_is_what_follows(
    h: Seq<char>,
    lead: Seq<char>,
    question: Seq<char>,
    tail: Seq<char>,
)
    requires
        is_late_ask_head(h),
        all_space(lead),
        is_bare(question),
        all_space(tail),
    ensures
        late_intent(h + (lead + question + tail)) == Some(IntentView::CopilotAsk(question)),
{
    reveal_strlit("ai:");
    reveal_strlit("copilot:");
    reveal_strlit("问copilot:");
    reveal_strlit("ask:");
    let rest = lead + question + tail;
    let text = h + rest;
    trimming_keeps_the_rest(lead, question, tail);
    lemma_behind(h, h, rest);
    let all = LATE_ASK_PREFIXES@;
    reveal_with_fuel(after_any_ci, 5);
    assert(all.skip(1)[0] == all[1]);
    assert(all.skip(1).skip(1)[0] == all[2]);
    assert(all.skip(1).skip(1).skip(1)[0] == all[3]);
    assert(text[0] == h[0] && text[1] == h[1]);
    assert forall|w: Seq<char>|
        w.len() > 1 && (ascii_lower(w[0]) != ascii_lower(h[0]) || ascii_lower(w[1])
            != ascii_lower(h[1])) implies !#[trigger] is_prefix_ci(w, text) by {
        if is_prefix_ci(w, text) {
            assert(ascii_lower(w[0]) == ascii_lower(text[0]));
            assert(ascii_lower(w[1]) == ascii_lower(text[1]));
        }
    }
}

// ---------------------------------------------------------------------------
// Everyday words
// ---------------------------------------------------------------------------

/// Whether a word stands in a text.
pub open spec fn says(s: Seq<char>, word: Seq<char>) -> bool {
    !is_without(s, word)
}

proof fn lemma_install_signs(s: Seq<char>)
    ensures
        contains_any(s, INSTALL_SIGNS@) <==> says(s, "install"@) || says(s, "安装"@)
            || says(s, "setup"@) || says(s, "winget"@) || says(s, "choco"@),
{
    let all = INSTALL_SIGNS@;
    assert(all[0]@ == "install"@ && all[1]@ == "安装"@ && all[2]@ == "setup"@
        && all[3]@ == "winget"@ && all[4]@ == "choco"@);
    absent_piece_is_not_found(s, "install"@);
    absent_piece_is_not_found(s, "安装"@);
    absent_piece_is_not_found(s, "setup"@);
    absent_piece_is_not_found(s, "winget"@);
    absent_piece_is_not_found(s, "choco"@);
    if contains_any(s, all) {
        let i = choose|i: int| 0 <= i < all.len() && contains(s, (#[trigger] all[i])@);
        assert(i == 0 || i == 1 || i == 2 || i == 3 || i == 4);
    }
}

proof fn lemma_system_signs(s: Seq<char>)
    ensures
        contains_any(s, SYSTEM_SIGNS@) <==> says(s, "powershell"@) || says(s, "软件"@)
            || says(s, "系统"@) || says(s, "aka.ms/"@) || says(s, "http://"@)
            || says(s, "https://"@),
{
    let all = SYSTEM_SIGNS@;
    assert(all[0]@ == "powershell"@ && all[1]@ == "软件"@ && all[2]@ == "系统"@
        && all[3]@ == "aka.ms/"@ && all[4]@ == "http://"@ && all[5]@ == "https://"@);
    absent_piece_is_not_found(s, "powershell"@);
    absent_piece_is_not_found(s, "软件"@);
    absent_piece_is_not_found(s, "系统"@);
    absent_piece_is_not_found(s, "aka.ms/"@);
    absent_piece_is_not_found(s, "http://"@);
    absent_piece_is_not_found(s, "https://"@);
    if contains_any(s, all) {
        let i = choose|i: int| 0 <= i < all.len() && contains(s, (#[trigger] all[i])@);
        assert(i == 0 || i == 1 || i == 2 || i == 3 || i == 4 || i == 5);
    }
}

proof fn lemma_sync_targets(s: Seq<char>)
    ensures
        contains_any(s, SYNC_TARGETS@) <==> says(s, "github"@) || says(s, "git"@)
            || says(s, "远程"@) || says(s, "代码"@),
{
    let all = SYNC_TARGETS@;
    assert(all[0]@ == "github"@ && all[1]@ == "git"@ && all[2]@ == "远程"@ && all[3]@ == "代码"@);
    absent_piece_is_not_found(s, "github"@);
    absent_piece_is_not_found(s, "git"@);
    absent_piece_is_not_found(s, "远程"@);
    absent_piece_is_not_found(s, "代码"@);
    if contains_any(s, all) {
        let i = choose|i: int| 0 <= i < all.len() && contains(s, (#[trigger] all[i])@);
        assert(i == 0 || i == 1 || i == 2 || i == 3);
    }
}

proof fn lemma_push_targets(s: Seq<char>)
    ensures
        contains_any(s, PUSH_TARGETS@) <==> says(s, "代码"@) || says(s, "github"@)
            || says(s, "code"@),
{
    let all = PUSH_TARGETS@;
    assert(all[0]@ == "代码"@ && all[1]@ == "github"@ && all[2]@ == "code"@);
    absent_piece_is_not_found(s, "代码"@);
    absent_piece_is_not_found(s, "github"@);
    absent_piece_is_not_found(s, "code"@);
    if contains_any(s, all) {
        let i = choose|i: int| 0 <= i < all.len() && contains(s, (#[trigger] all[i])@);
        assert(i == 0 || i == 1 || i == 2);
    }
}

proof fn lemma_sync_phrases(s: Seq<char>)
    ensures
        contains_any(s, SYNC_PHRASES@) <==> says(s, "推到github"@) || says(s, "推送代码"@)
            || says(s, "上传代码"@),
{
    let all = SYNC_PHRASES@;
    assert(all[0]@ == "推到github"@ && all[1]@ == "推送代码"@ && all[2]@ == "上传代码"@);
    absent_piece_is_not_found(s, "推到github"@);
    absent_piece_is_not_found(s, "推送代码"@);
    absent_piece_is_not_found(s, "上传代码"@);
    if contains_any(s, all) {
        let i = choose|i: int| 0 <= i < all.len() && contains(s, (#[trigger] all[i])@);
        assert(i == 0 || i == 1 || i == 2);
    }
}

proof fn lemma_build_signs(s: Seq<char>)
    ensures
        contains_any(s, BUILD_SIGNS@) <==> says(s, "编译"@) || says(s, "构建"@) || says(s, "build"@),
{
    let all = BUILD_SIGNS@;
    assert(all[0]@ == "编译"@ && all[1]@ == "构建"@ && all[2]@ == "build"@);
    absent_piece_is_not_found(s, "编译"@);
    absent_piece_is_not_found(s, "构建"@);
    absent_piece_is_not_found(s, "build"@);
    if contains_any(s, all) {
        let i = choose|i: int| 0 <= i < all.len() && contains(s, (#[trigger] all[i])@);
        assert(i == 0 || i == 1 || i == 2);
    }
}

proof fn lemma_build_targets(s: Seq<char>)
    ensures
        contains_any(s, BUILD_TARGETS@) <==> says(s, "项目"@) || says(s, "代码"@)
            || says(s, "agent"@) || says(s, "project"@),
{
    let all = BUILD_TARGETS@;
    assert(all[0]@ == "项目"@ && all[1]@ == "代码"@ && all[2]@ == "agent"@ && all[3]@ == "project"@);
    absent_piece_is_not_found(s, "项目"@);
    absent_piece_is_not_found(s, "代码"@);
    absent_piece_is_not_found(s, "agent"@);
    absent_piece_is_not_found(s, "project"@);
    if contains_any(s, all) {
        let i = choose|i: int| 0 <= i < all.len() && contains(s, (#[trigger] all[i])@);
        assert(i == 0 || i == 1 || i == 2 || i == 3);
    }
}

proof fn lemma_run_test_signs(s: Seq<char>)
    ensures
        contains_any(s, RUN_TEST_SIGNS@) <==> says(s, "测试"@) || says(s, "test"@) || says(s, "跑测试"@),
{
    let all = RUN_TEST_SIGNS@;
    assert(all[0]@ == "测试"@ && all[1]@ == "test"@ && all[2]@ == "跑测试"@);
    absent_piece_is_not_found(s, "测试"@);
    absent_piece_is_not_found(s, "test"@);
    absent_piece_is_not_found(s, "跑测试"@);
    if contains_any(s, all) {
        let i = choose|i: int| 0 <= i < all.len() && contains(s, (#[trigger] all[i])@);
        assert(i == 0 || i == 1 || i == 2);
    }
}

proof fn lemma_change_phrases(s: Seq<char>)
    ensures
        contains_any(s, CHANGE_PHRASES@) <==> says(s, "查看变更"@) || says(s, "看看改了什么"@)
            || says(s, "有什么改动"@),
{
    let all = CHANGE_PHRASES@;
    assert(all[0]@ == "查看变更"@ && all[1]@ == "看看改了什么"@ && all[2]@ == "有什么改动"@);
    absent_piece_is_not_found(s, "查看变更"@);
    absent_piece_is_not_found(s, "看看改了什么"@);
    absent_piece_is_not_found(s, "有什么改动"@);
    if contains_any(s, all) {
        let i = choose|i: int| 0 <= i < all.len() && contains(s, (#[trigger] all[i])@);
        assert(i == 0 || i == 1 || i == 2);
    }
}

proof fn lemma_task_signs(s: Seq<char>)
    ensures
        contains_any(s, TASK_SIGNS@) <==> says(s, "帮我"@) || says(s, "请"@) || says(s, "做"@)
            || says(s, "开发"@) || says(s, "实现"@) || says(s, "创建"@) || says(s, "写一个"@)
            || says(s, "build"@) || says(s, "implement"@),
{
    let all = TASK_SIGNS@;
    assert(all[0]@ == "帮我"@ && all[1]@ == "请"@ && all[2]@ == "做"@ && all[3]@ == "开发"@
        && all[4]@ == "实现"@ && all[5]@ == "创建"@ && all[6]@ == "写一个"@ && all[7]@ == "build"@
        && all[8]@ == "implement"@);
    absent_piece_is_not_found(s, "帮我"@);
    absent_piece_is_not_found(s, "请"@);
    absent_piece_is_not_found(s, "做"@);
    absent_piece_is_not_found(s, "开发"@);
    absent_piece_is_not_found(s, "实现"@);
    absent_piece_is_not_found(s, "创建"@);
    absent_piece_is_not_found(s, "写一个"@);
    absent_piece_is_not_found(s, "build"@);
    absent_piece_is_not_found(s, "implement"@);
    if contains_any(s, all) {
        let i = choose|i: int| 0 <= i < all.len() && contains(s, (#[trigger] all[i])@);
        assert(i == 0 || i == 1 || i == 2 || i == 3 || i == 4 || i == 5 || i == 6 || i == 7
            || i == 8);
    }
}

/// Whether a text asks to bring the code to the remote.
pub open spec fn asks_to_sync(low: Seq<char>) -> bool {
    ||| says(low, "同步"@) && (says(low, "github"@) || says(low, "git"@) || says(low, "远程"@)
        || says(low, "代码"@))
    ||| says(low, "push"@) && (says(low, "代码"@) || says(low, "github"@) || says(low, "code"@))
    ||| says(low, "推到github"@) || says(low, "推送代码"@) || says(low, "上传代码"@)
}

/// Whether a text asks to build.
pub open spec fn asks_to_build(low: Seq<char>) -> bool {
    (says(low, "编译"@) || says(low, "构建"@) || says(low, "build"@)) && (says(low, "项目"@)
        || says(low, "代码"@) || says(low, "agent"@) || says(low, "project"@))
}

/// Whether a text asks to run the tests.
pub open spec fn asks_to_test(low: Seq<char>) -> bool {
    (says(low, "测试"@) || says(low, "test"@) || says(low, "跑测试"@)) && !says(low, "写"@)
}

/// Whether a text asks what was changed.
pub open spec fn asks_for_changes(low: Seq<char>) -> bool {
    says(low, "查看变更"@) || says(low, "看看改了什么"@) || says(low, "有什么改动"@)
}

/// A task in everyday words is known by the words in it: bringing the code to the remote,
/// building, testing, and showing what was changed, in this order.
pub proof fn everyday_task_is_known_by_its_words(low: Seq<char>)
    ensures
        asks_to_sync(low) ==> natural_task(low) == Some(
            (IntentView::SetPlan {
                description: "同步代码到 GitHub（子仓库 + 父仓库）"@,
                steps: view_strs(SYNC_STEPS@),
            }),
        ),
        !asks_to_sync(low) && asks_to_build(low) ==> natural_task(low) == Some(IntentView::Build),
        !asks_to_sync(low) && !asks_to_build(low)
            && asks_to_test(low) ==> natural_task(low) == Some(
            IntentView::Test(seq![]),
        ),
        !asks_to_sync(low) && !asks_to_build(low) && !asks_to_test(low) && asks_for_changes(low)
            ==> natural_task(low) == Some(IntentView::Diff(seq![])),
        !asks_to_sync(low) && !asks_to_build(low) && !asks_to_test(low) && !asks_for_changes(low)
            ==> natural_task(low) is None,
{
    lemma_sync_targets(low);
    lemma_push_targets(low);
    lemma_sync_phrases(low);
    lemma_build_signs(low);
    lemma_build_targets(low);
    lemma_run_test_signs(low);
    lemma_change_phrases(low);
    absent_piece_is_not_found(low, "同步"@);
    absent_piece_is_not_found(low, "push"@);
    absent_piece_is_not_found(low, "写"@);
}

/// Whether a text speaks of installing and of the system or of an address.
pub open spec fn asks_to_install(low: Seq<char>) -> bool {
    (says(low, "install"@) || says(low, "安装"@) || says(low, "setup"@) || says(low, "winget"@)
        || says(low, "choco"@)) && (says(low, "powershell"@) || says(low, "软件"@)
        || says(low, "系统"@) || says(low, "aka.ms/"@) || says(low, "http://"@)
        || says(low, "https://"@))
}

/// A request to install something is known by the words in it, and comes before any other
/// request in everyday words; what is asked is told without the white space round it.
pub proof fn install_request_is_known_by_its_words(text: Seq<char>)
    ensures
        is_install_request(text) == asks_to_install(lower(text)),
        asks_to_install(lower(text)) ==> everyday_intent(text) == Some(
            IntentView::SystemInstallHelp(trim(text)),
        ),
        !asks_to_install(lower(text)) && natural_task(lower(text)) is Some ==> everyday_intent(text)
            == natural_task(lower(text)),
{
    lemma_install_signs(lower(text));
    lemma_system_signs(lower(text));
}

/// Whether a text says that something is to be made.
pub open spec fn says_to_make(low: Seq<char>) -> bool {
    says(low, "帮我"@) || says(low, "请"@) || says(low, "做"@) || says(low, "开发"@)
        || says(low, "实现"@) || says(low, "创建"@) || says(low, "写一个"@) || says(low, "build"@)
        || says(low, "implement"@)
}

/// The snake game is made where a text of some length says that one is to be made.
pub proof fn snake_game_is_known_by_its_words(text: Seq<char>)
    ensures
        ({
            let t = trim(text);
            let low = lower(t);
            let game = says(low, "贪吃蛇"@) || says(low, "snake"@) && says(low, "游戏"@);
            &&& t.len() > 0 && says_to_make(low) && byte_len(t) >= 6 && game ==> ready_plan(text)
                == Some(("贪吃蛇游戏项目"@, view_strs(SNAKE_STEPS@)))
            &&& !(t.len() > 0 && says_to_make(low) && byte_len(t) >= 6 && game) ==> ready_plan(text)
                is None
        }),
{
    let low = lower(trim(text));
    lemma_task_signs(low);
    absent_piece_is_not_found(low, "贪吃蛇"@);
    absent_piece_is_not_found(low, "snake"@);
    absent_piece_is_not_found(low, "游戏"@);
}

/// The steps that are laid down for a task are these: of both repositories, the nested one
/// first, the changes are shown, committed and pushed; the snake game is made before it is
/// shown.
pub proof fn laid_down_steps_do_their_task()
    ensures
        view_strs(SYNC_STEPS@).len() == 7,
        view_strs(SYNC_STEPS@)[0]
            == "/terminal Write-Host '=== harborbeacon-desktop (子仓库) ==='; git -C harborbeacon-desktop status"@,
        view_strs(SYNC_STEPS@)[1]
            == "/terminal git -C harborbeacon-desktop add -A"@,
        view_strs(SYNC_STEPS@)[2]
            == "/terminal git -C harborbeacon-desktop diff --cached --quiet; if ($LASTEXITCODE -ne 0) { git -C harborbeacon-desktop commit -m 'sync: update from feishu agent' } else { Write-Host 'harborbeacon-desktop: nothing to commit' }"@,
        view_strs(SYNC_STEPS@)[3]
            == "/terminal git -C harborbeacon-desktop push"@,
        view_strs(SYNC_STEPS@)[4]
            == "/terminal Write-Host '=== parent repo ==='; git status"@,
        view_strs(SYNC_STEPS@)[5]
            == "/terminal git add -A; git diff --cached --quiet; if ($LASTEXITCODE -ne 0) { git commit -m 'chore: update desktop submodule pointer' } else { Write-Host 'parent: nothing to commit' }"@,
        view_strs(SYNC_STEPS@)[6]
            == "/terminal git push"@,
        view_strs(SNAKE_STEPS@) == seq![
            "@recipe:snake_python_bootstrap"@,
            "读取文件 examples/snake-game/README.md"@,
            "列出目录 examples/snake-game"@,
        ],
{
    assert(view_strs(SNAKE_STEPS@) =~= seq![
        "@recipe:snake_python_bootstrap"@,
        "读取文件 examples/snake-game/README.md"@,
        "列出目录 examples/snake-game"@,
    ]);
}

} // verus!
