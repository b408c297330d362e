//! What can be relied on about how the text of a message is read.

use crate::actionwords::{
    command_action, literal_action, phrase_action, search_phrase, DIFF_PHRASES, DIFF_PREFIXES,
    LIST_PHRASES, LIST_PREFIXES, READ_PHRASES, READ_PREFIXES, SEARCH_PREFIXES, TEST_PHRASES,
    TEST_PREFIXES,
};
use crate::intent::IntentView;
use crate::parser::{
    agent_question, agent_task, agent_word, chat_intent, chat_number, edit_intent, intent_of,
    lemma_agent_task_len, loop_intent, plan_intent, session_intent, unclassified,
    AGENT_FIX_PREFIXES, ASK_PREFIXES, BUILD_WORDS, CANCEL_WORDS, CHAT_LIST_WORDS, CHAT_PREFIXES,
    CLEAR_WORDS, CODING_WORDS, COLONS, COMMIT_PREFIXES, CONFIRM_WORDS, CONTINUE_ALL_WORDS,
    CONTINUE_WORDS, FIX_PREFIXES, FIX_WORDS, HELP_WORDS, LOG_WORDS, PLANNING_WORDS, PLAN_PREFIXES,
    PLAN_TRIGGERS, PUSH_WORDS, RESTART_WORDS, RETRY_WORDS, SESSION_LIST_WORDS,
    SESSION_LOAD_PREFIXES, SESSION_SAVE_PREFIXES, SESSION_SAVE_WORDS, STATUS_WORDS,
    TERMINAL_PREFIXES,
};
use crate::text::{
    after_any, after_any_ci, after_prefix, after_prefix_ci, ascii_lower, decimal,
    decimal_reads_back, is_blank, is_prefix_ci, is_space, lemma_decimal_value, lemma_find_from,
    lemma_trim_end_join, lemma_trim_end_trim, listed, occurs_at, split_once, trim, trim_end,
    trim_start, trim_start_set,
};
use crate::unicode::{
    all_plain, is_plain, lower, lower_keeps_plain_start, plain_text_is_lowered,
};
use vstd::prelude::*;

verus! {

// ---------------------------------------------------------------------------
// How texts start
// ---------------------------------------------------------------------------

/// Whether a word starts otherwise than with `a` and `b`.
spec fn starts_apart(word: Seq<char>, a: char, b: char) -> bool {
    word.len() > 0 && (ascii_lower(word[0]) != a || word.len() > 1 && ascii_lower(word[1]) != b)
}

/// Whether every word starts otherwise than with `a` and `b`.
spec fn all_apart(words: Seq<&'static str>, a: char, b: char) -> bool {
    forall|i: int| 0 <= i < words.len() ==> starts_apart((#[trigger] words[i])@, a, b)
}

/// The beginnings of the texts that are looked at here.
spec fn is_start(a: char, b: char) -> bool {
    ||| a == '/' && (b == 'a' || b == 't')
    ||| a == 'f' && b == 'i'
    ||| a == 'a' && b == 's'
    ||| a == 'c' && b == 'h'
    ||| a == '问' && b == ':'
    ||| a == '确' && b == '认'
    ||| a == '取' && b == '消'
}

/// Those of them that ask something of Copilot Chat, or of the agent.
spec fn is_chat_start(a: char, b: char) -> bool {
    ||| a == '/' && b == 'a'
    ||| a == 'a' && b == 's'
    ||| a == 'c' && b == 'h'
    ||| a == '问' && b == ':'
}

/// Whether a text starts with `a` and `b`, in any case.
spec fn begins(text: Seq<char>, a: char, b: char) -> bool {
    &&& text.len() >= 2
    &&& is_plain(text[0]) && ascii_lower(text[0]) == a
    &&& is_plain(text[1]) && ascii_lower(text[1]) == b
}

/// No word about the session starts like these texts.
proof fn lemma_session_words(a: char, b: char)
    requires
        is_start(a, b),
    ensures
        all_apart(CONTINUE_WORDS@, a, b),
        all_apart(CONTINUE_ALL_WORDS@, a, b),
        all_apart(RETRY_WORDS@, a, b),
        all_apart(STATUS_WORDS@, a, b),
        all_apart(SESSION_LIST_WORDS@, a, b),
        all_apart(SESSION_LOAD_PREFIXES@, a, b),
        all_apart(SESSION_SAVE_WORDS@, a, b),
        all_apart(SESSION_SAVE_PREFIXES@, a, b),
        all_apart(CLEAR_WORDS@, a, b),
        all_apart(CODING_WORDS@, a, b),
        all_apart(PLANNING_WORDS@, a, b),
        all_apart(HELP_WORDS@, a, b),
        starts_apart("/help"@, a, b),
{
    reveal_strlit("继续");
    reveal_strlit("continue");
    reveal_strlit("继续执行");
    reveal_strlit("下一步");
    reveal_strlit("执行全部");
    reveal_strlit("全部执行");
    reveal_strlit("run all");
    reveal_strlit("执行所有步骤");
    reveal_strlit("全部继续");
    reveal_strlit("一键执行");
    reveal_strlit("重试");
    reveal_strlit("retry");
    reveal_strlit("再试一次");
    reveal_strlit("再来一次");
    reveal_strlit("状态");
    reveal_strlit("status");
    reveal_strlit("进展");
    reveal_strlit("现在做什么");
    reveal_strlit("当前任务");
    reveal_strlit("会话列表");
    reveal_strlit("session list");
    reveal_strlit("sessions");
    reveal_strlit("历史会话");
    reveal_strlit("查看会话");
    reveal_strlit("载入会话 ");
    reveal_strlit("恢复会话 ");
    reveal_strlit("session load ");
    reveal_strlit("/session load ");
    reveal_strlit("切换会话 ");
    reveal_strlit("保存会话");
    reveal_strlit("session save");
    reveal_strlit("/session save");
    reveal_strlit("保存会话 ");
    reveal_strlit("session save ");
    reveal_strlit("/session save ");
    reveal_strlit("清除");
    reveal_strlit("clear");
    reveal_strlit("清除会话");
    reveal_strlit("reset");
    reveal_strlit("重置");
    reveal_strlit("编码模式");
    reveal_strlit("切换编码");
    reveal_strlit("switch coding");
    reveal_strlit("coding mode");
    reveal_strlit("coding");
    reveal_strlit("规划模式");
    reveal_strlit("切换规划");
    reveal_strlit("switch planning");
    reveal_strlit("planning mode");
    reveal_strlit("planning");
    reveal_strlit("help");
    reveal_strlit("帮助");
    reveal_strlit("/help");
}

/// No word about fixes and plans starts like these texts.
proof fn lemma_plan_words(a: char, b: char)
    requires
        is_start(a, b),
        a != 'f',
    ensures
        all_apart(FIX_PREFIXES@, a, b),
        all_apart(FIX_WORDS@, a, b),
        all_apart(PLAN_PREFIXES@, a, b),
        all_apart(PLAN_TRIGGERS@, a, b),
{
    reveal_strlit("/fix ");
    reveal_strlit("/fix:");
    reveal_strlit("fix ");
    reveal_strlit("修复 ");
    reveal_strlit("/fix");
    reveal_strlit("fix");
    reveal_strlit("修复");
    reveal_strlit("修复这个");
    reveal_strlit("/plan ");
    reveal_strlit("plan ");
    reveal_strlit("计划 ");
    reveal_strlit("规划 ");
    reveal_strlit("/计划 ");
    reveal_strlit("/规划 ");
    reveal_strlit("做计划 ");
    reveal_strlit("做规划 ");
    reveal_strlit("plan");
    reveal_strlit("计划");
    reveal_strlit("规划");
    reveal_strlit("/plan");
    reveal_strlit("/计划");
    reveal_strlit("/规划");
}

/// No word for building, restarting or the logs starts like these texts.
proof fn lemma_loop_words(a: char, b: char)
    requires
        is_start(a, b),
        a != 'f',
    ensures
        all_apart(BUILD_WORDS@, a, b),
        all_apart(RESTART_WORDS@, a, b),
        all_apart(LOG_WORDS@, a, b),
{
    reveal_strlit("build");
    reveal_strlit("/build");
    reveal_strlit("编译");
    reveal_strlit("构建");
    reveal_strlit("restart");
    reveal_strlit("/restart");
    reveal_strlit("重启");
    reveal_strlit("重启服务");
    reveal_strlit("rebuild");
    reveal_strlit("/rebuild");
    reveal_strlit("logs");
    reveal_strlit("/logs");
    reveal_strlit("日志");
    reveal_strlit("查看日志");
    reveal_strlit("最新日志");
    reveal_strlit("错误日志");
}

/// No other word of the development loop starts like these texts.
proof fn lemma_command_words(a: char, b: char)
    requires
        is_chat_start(a, b),
    ensures
        all_apart(TERMINAL_PREFIXES@, a, b),
        all_apart(CONFIRM_WORDS@, a, b),
        all_apart(CANCEL_WORDS@, a, b),
        all_apart(COMMIT_PREFIXES@, a, b),
        all_apart(PUSH_WORDS@, a, b),
{
    reveal_strlit("/terminal ");
    reveal_strlit("terminal ");
    reveal_strlit("确认执行");
    reveal_strlit("confirm");
    reveal_strlit("/confirm");
    reveal_strlit("yes");
    reveal_strlit("取消执行");
    reveal_strlit("cancel");
    reveal_strlit("/cancel");
    reveal_strlit("no");
    reveal_strlit("/commit ");
    reveal_strlit("commit ");
    reveal_strlit("提交 ");
    reveal_strlit("git commit ");
    reveal_strlit("push");
    reveal_strlit("/push");
    reveal_strlit("推送");
    reveal_strlit("git push");
}

/// No word for an edit or an action starts like these texts.
proof fn lemma_action_words(a: char, b: char)
    requires
        is_chat_start(a, b),
    ensures
        all_apart(READ_PREFIXES@, a, b),
        all_apart(LIST_PREFIXES@, a, b),
        all_apart(SEARCH_PREFIXES@, a, b),
        all_apart(DIFF_PREFIXES@, a, b),
        all_apart(TEST_PREFIXES@, a, b),
        all_apart(READ_PHRASES@, a, b),
        all_apart(LIST_PHRASES@, a, b),
        all_apart(DIFF_PHRASES@, a, b),
        all_apart(TEST_PHRASES@, a, b),
        starts_apart("/write "@, a, b),
        starts_apart("/replace "@, a, b),
        starts_apart("/patch "@, a, b),
        starts_apart("跑测试"@, a, b),
        starts_apart("在 "@, a, b),
        starts_apart("搜索 "@, a, b),
{
    reveal_strlit("/read ");
    reveal_strlit("read ");
    reveal_strlit("读 ");
    reveal_strlit("/ls ");
    reveal_strlit("ls ");
    reveal_strlit("list ");
    reveal_strlit("看 ");
    reveal_strlit("/search ");
    reveal_strlit("search ");
    reveal_strlit("搜 ");
    reveal_strlit("/diff");
    reveal_strlit("diff");
    reveal_strlit("/test");
    reveal_strlit("test");
    reveal_strlit("读取文件 ");
    reveal_strlit("读取 ");
    reveal_strlit("打开文件 ");
    reveal_strlit("查看文件 ");
    reveal_strlit("列出目录 ");
    reveal_strlit("查看目录 ");
    reveal_strlit("看看目录 ");
    reveal_strlit("查看变更");
    reveal_strlit("查看diff");
    reveal_strlit("运行测试");
    reveal_strlit("执行测试");
    reveal_strlit("/write ");
    reveal_strlit("/replace ");
    reveal_strlit("/patch ");
    reveal_strlit("跑测试");
    reveal_strlit("在 ");
    reveal_strlit("搜索 ");
}

proof fn lemma_lower_begins(text: Seq<char>, a: char, b: char)
    requires
        begins(text, a, b),
    ensures
        begins(lower(text), a, b),
        lower(text)[0] == a,
        lower(text)[1] == b,
{
    let head = text.take(2);
    assert(all_plain(head));
    lower_keeps_plain_start(text, head);
    plain_text_is_lowered(head);
    assert(lower(head)[0] == a && lower(head)[1] == b);
    assert(lower(text)[0] == lower(head)[0] && lower(text)[1] == lower(head)[1]);
}

proof fn lemma_no_prefix(text: Seq<char>, words: Seq<&'static str>, a: char, b: char)
    requires
        begins(text, a, b),
        all_apart(words, a, b),
    ensures
        after_any(text, words) is None,
        after_any_ci(text, words) is None,
    decreases words.len(),
{
    if words.len() > 0 {
        let word = words[0]@;
        assert(starts_apart(word, a, b));
        if is_prefix_ci(word, text) {
            assert(ascii_lower(word[0]) == ascii_lower(text[0]));
            assert(word.len() > 1 ==> ascii_lower(word[1]) == ascii_lower(text[1]));
        }
        if word.is_prefix_of(text) {
            assert(word[0] == text[0]);
            assert(word.len() > 1 ==> word[1] == text[1]);
        }
        assert forall|i: int| 0 <= i < words.skip(1).len() implies starts_apart(
            (#[trigger] words.skip(1)[i])@,
            a,
            b,
        ) by {
            assert(words.skip(1)[i] == words[i + 1]);
        }
        lemma_no_prefix(text, words.skip(1), a, b);
    }
}

/// A text that starts otherwise than all of some words is none of them, nor starts with
/// one.
proof fn lemma_apart(text: Seq<char>, words: Seq<&'static str>, a: char, b: char)
    requires
        begins(text, a, b),
        all_apart(words, a, b),
    ensures
        !listed(words, lower(text)),
        after_any(text, words) is None,
        after_any(lower(text), words) is None,
        after_any_ci(text, words) is None,
{
    lemma_lower_begins(text, a, b);
    lemma_no_prefix(text, words, a, b);
    lemma_no_prefix(lower(text), words, a, b);
    assert forall|i: int| 0 <= i < words.len() implies (#[trigger] words[i])@ != lower(text) by {
        assert(starts_apart(words[i]@, a, b));
    }
}

/// The same of one word.
proof fn lemma_word_apart(text: Seq<char>, word: Seq<char>, a: char, b: char)
    requires
        begins(text, a, b),
        starts_apart(word, a, b),
    ensures
        text != word,
        after_prefix(text, word) is None,
        after_prefix(lower(text), word) is None,
        after_prefix_ci(text, word) is None,
{
    lemma_lower_begins(text, a, b);
    if is_prefix_ci(word, text) {
        assert(ascii_lower(word[0]) == ascii_lower(text[0]));
        assert(word.len() > 1 ==> ascii_lower(word[1]) == ascii_lower(text[1]));
    }
    if word.is_prefix_of(text) {
        assert(word[0] == text[0]);
        assert(word.len() > 1 ==> word[1] == text[1]);
    }
    if word.is_prefix_of(lower(text)) {
        assert(word[0] == lower(text)[0]);
        assert(word.len() > 1 ==> word[1] == lower(text)[1]);
    }
}

proof fn lemma_not_session(text: Seq<char>, a: char, b: char)
    requires
        begins(text, a, b),
        is_start(a, b),
    ensures
        session_intent(text) is None,
{
    lemma_session_words(a, b);
    lemma_apart(text, CONTINUE_WORDS@, a, b);
    lemma_apart(text, CONTINUE_ALL_WORDS@, a, b);
    lemma_apart(text, RETRY_WORDS@, a, b);
    lemma_apart(text, STATUS_WORDS@, a, b);
    lemma_apart(text, SESSION_LIST_WORDS@, a, b);
    lemma_apart(text, SESSION_LOAD_PREFIXES@, a, b);
    lemma_apart(text, SESSION_SAVE_WORDS@, a, b);
    lemma_apart(text, SESSION_SAVE_PREFIXES@, a, b);
    lemma_apart(text, CLEAR_WORDS@, a, b);
    lemma_apart(text, CODING_WORDS@, a, b);
    lemma_apart(text, PLANNING_WORDS@, a, b);
    lemma_apart(text, HELP_WORDS@, a, b);
    lemma_word_apart(text, "/help"@, a, b);
}

proof fn lemma_trim_keeps_start(s: Seq<char>)
    requires
        s.len() >= 2,
        !is_space(s[0]),
        !is_space(s[1]),
    ensures
        trim(s).len() >= 2,
        trim(s)[0] == s[0],
        trim(s)[1] == s[1],
    decreases s.len(),
{
    if is_space(s.last()) {
        assert(s.len() > 2);
        lemma_trim_keeps_start(s.drop_last());
        assert(trim(s) == trim(s.drop_last()));
    }
}

proof fn lemma_not_plan(text: Seq<char>, a: char, b: char)
    requires
        begins(text, a, b),
        is_start(a, b),
        a != 'f',
    ensures
        plan_intent(text) is None,
{
    lemma_plan_words(a, b);
    lemma_apart(text, FIX_PREFIXES@, a, b);
    lemma_apart(text, FIX_WORDS@, a, b);
    lemma_apart(text, PLAN_PREFIXES@, a, b);
    assert(!is_space(text[0]) && !is_space(text[1]));
    if split_once(text, "\n"@) is Some {
        reveal_strlit("\n");
        lemma_find_from(text, "\n"@, 0);
        let i = crate::text::find(text, "\n"@)->0;
        assert(occurs_at(text, "\n"@, i));
        assert(text[i] == text.subrange(i, i + 1)[0]);
        assert(text[i] == '\n');
        let first = text.take(i);
        lemma_trim_keeps_start(first);
        assert(begins(trim(first), a, b));
        lemma_apart(trim(first), PLAN_TRIGGERS@, a, b);
    }
    lemma_lower_begins(text, a, b);
    lemma_trim_keeps_start(lower(text));
    let bare = trim(lower(text));
    assert forall|i: int| 0 <= i < PLAN_TRIGGERS@.len() implies (#[trigger] PLAN_TRIGGERS@[i])@
        != bare by {
        assert(starts_apart(PLAN_TRIGGERS@[i]@, a, b));
    }
}

proof fn lemma_not_early(text: Seq<char>, a: char, b: char)
    requires
        begins(text, a, b),
        is_chat_start(a, b),
    ensures
        plan_intent(text) is None,
        loop_intent(text) is None,
        edit_intent(text) is None,
        literal_action(text) is None,
{
    lemma_not_plan(text, a, b);
    lemma_loop_words(a, b);
    lemma_apart(text, BUILD_WORDS@, a, b);
    lemma_apart(text, RESTART_WORDS@, a, b);
    lemma_apart(text, LOG_WORDS@, a, b);
    lemma_command_words(a, b);
    lemma_apart(text, TERMINAL_PREFIXES@, a, b);
    lemma_apart(text, CONFIRM_WORDS@, a, b);
    lemma_apart(text, CANCEL_WORDS@, a, b);
    lemma_apart(text, COMMIT_PREFIXES@, a, b);
    lemma_apart(text, PUSH_WORDS@, a, b);
    lemma_action_words(a, b);
    lemma_word_apart(text, "/write "@, a, b);
    lemma_word_apart(text, "/replace "@, a, b);
    lemma_word_apart(text, "/patch "@, a, b);
    lemma_word_apart(text, "跑测试"@, a, b);
    lemma_word_apart(text, "在 "@, a, b);
    lemma_word_apart(text, "搜索 "@, a, b);
    lemma_apart(text, READ_PREFIXES@, a, b);
    lemma_apart(text, LIST_PREFIXES@, a, b);
    lemma_apart(text, SEARCH_PREFIXES@, a, b);
    lemma_apart(text, DIFF_PREFIXES@, a, b);
    lemma_apart(text, TEST_PREFIXES@, a, b);
    lemma_apart(text, READ_PHRASES@, a, b);
    lemma_apart(text, LIST_PHRASES@, a, b);
    lemma_apart(text, DIFF_PHRASES@, a, b);
    lemma_apart(text, TEST_PHRASES@, a, b);
    assert(command_action(text) is None);
    assert(search_phrase(lower(text)) is None);
    assert(phrase_action(lower(text)) is None);
}

// ---------------------------------------------------------------------------
// What texts mean
// ---------------------------------------------------------------------------

proof fn lemma_agent_begins(text: Seq<char>)
    requires
        agent_task(text) is Some,
    ensures
        begins(text, '/', 'a'),
{
    reveal_strlit("/agent");
    assert(is_prefix_ci("/agent"@, text));
    assert(ascii_lower("/agent"@[0]) == ascii_lower(text[0]));
    assert(ascii_lower("/agent"@[1]) == ascii_lower(text[1]));
}

/// A task given to `/agent` that is no word of `/agent` itself means what it means
/// without `/agent`, with its case kept; where it means nothing there, Copilot is asked
/// about it. The classifier is asked about the same text, if at all.
pub proof fn agent_task_means_itself(text: Seq<char>, inferred: Option<IntentView>)
    requires
        agent_task(text) is Some,
        agent_word(agent_task(text)->0) is None,
    ensures
        ({
            let task = agent_task(text)->0;
            &&& intent_of(task, inferred) is Some ==> intent_of(text, inferred) == intent_of(
                task,
                inferred,
            )
            &&& intent_of(task, inferred) is None ==> intent_of(text, inferred) == Some(
                IntentView::CopilotAsk(agent_question(task)),
            )
            &&& task.is_suffix_of(agent_question(task))
            &&& unclassified(text) == unclassified(task)
        }),
{
    lemma_agent_begins(text);
    lemma_not_session(text, '/', 'a');
    lemma_agent_task_len(text);
    let task = agent_task(text)->0;
    assert(agent_question(task).skip(agent_question(task).len() - task.len()) =~= task);
}

/// What follows `fix` in a task given to `/agent` is kept as it is written.
pub proof fn agent_fix_keeps_case(task: Seq<char>)
    requires
        is_prefix_ci("fix "@, task) || is_prefix_ci("fix:"@, task),
    ensures
        agent_word(task) == Some(
            IntentView::AgentFix(trim(trim_start_set(task.skip(3), COLONS@))),
        ),
{
    reveal_strlit("fix ");
    reveal_strlit("fix:");
    reveal_strlit("fix");
    let head = if is_prefix_ci("fix "@, task) {
        "fix "@
    } else {
        "fix:"@
    };
    assert forall|i: int| 0 <= i < head.len() implies is_plain(#[trigger] task[i]) && ascii_lower(
        task[i],
    ) == ascii_lower(head[i]) by {
        assert(ascii_lower(head[i]) == ascii_lower(task[i]));
    }
    assert(all_plain(head));
    lower_keeps_plain_start(task, head);
    plain_text_is_lowered(head);
    assert(lower(head) =~= head);
    reveal_with_fuel(after_any, 3);
    assert(AGENT_FIX_PREFIXES@.skip(1)[0] == AGENT_FIX_PREFIXES@[1]);
    assert(is_prefix_ci("fix"@, task)) by {
        assert forall|i: int| 0 <= i < 3 implies ascii_lower(#[trigger] "fix"@[i]) == ascii_lower(
            task[i],
        ) by {
            assert("fix"@[i] == head[i]);
            assert(ascii_lower(head[i]) == ascii_lower(task[i]));
        }
    }
}

/// `fix <d>` means the same as `/agent fix <d>`: a fix with `<d>`, as it is written, as
/// the note.
pub proof fn fix_means_agent_fix(d: Seq<char>, inferred: Option<IntentView>)
    ensures
        intent_of("fix "@ + d, inferred) == Some(IntentView::AgentFix(trim(d))),
        intent_of("/agent fix "@ + d, inferred) == Some(IntentView::AgentFix(trim(d))),
{
    reveal_strlit("fix ");
    reveal_strlit("/agent fix ");
    reveal_strlit("/agent");
    lemma_bare_fix(d, inferred);
    let text = "/agent fix "@ + d;
    assert(is_prefix_ci("/agent"@, text)) by {
        assert forall|i: int| 0 <= i < "/agent"@.len() implies ascii_lower(
            #[trigger] "/agent"@[i],
        ) == ascii_lower(text[i]) by {
            assert(text[i] == "/agent fix "@[i]);
        }
    }
    let rest = text.skip(6);
    assert(rest =~= seq![' '] + ("fix "@ + d));
    assert(rest.skip(1) =~= "fix "@ + d);
    assert(trim_start(rest) == "fix "@ + d) by {
        assert(is_space(rest[0]));
        assert(!is_space(("fix "@ + d)[0]));
    }
    let task = trim(rest);
    assert(agent_task(text) == Some(task));
    lemma_trim_end_join("fix "@, d);
    lemma_agent_begins(text);
    lemma_not_session(text, '/', 'a');
    lemma_trim_end_trim(d);
    if trim_end(d).len() > 0 {
        let kept = trim_end(d);
        assert(task == "fix "@ + kept);
        assert(is_prefix_ci("fix "@, task)) by {
            assert forall|i: int| 0 <= i < 4 implies ascii_lower(#[trigger] "fix "@[i])
                == ascii_lower(task[i]) by {
                assert(task[i] == "fix "@[i]);
            }
        }
        agent_fix_keeps_case(task);
        assert(task.skip(3) =~= seq![' '] + kept);
        assert(trim_start_set(task.skip(3), COLONS@) == task.skip(3)) by {
            assert(task.skip(3)[0] == ' ');
            assert(COLONS@ =~= seq![':']);
        }
        assert(task.skip(3).skip(1) =~= kept);
        assert(trim(task.skip(3)) == trim(kept));
    } else {
        lemma_fix_alone(task);
        assert(trim(d) =~= seq![]);
    }
}

proof fn lemma_bare_fix(d: Seq<char>, inferred: Option<IntentView>)
    ensures
        intent_of("fix "@ + d, inferred) == Some(IntentView::AgentFix(trim(d))),
{
    reveal_strlit("fix ");
    reveal_strlit("/agent");
    reveal_strlit("/fix ");
    reveal_strlit("/fix:");
    let text = "fix "@ + d;
    assert(text[0] == 'f' && text[1] == 'i');
    assert(begins(text, 'f', 'i'));
    lemma_not_session(text, 'f', 'i');
    assert(starts_apart("/agent"@, 'f', 'i'));
    lemma_word_apart(text, "/agent"@, 'f', 'i');
    lemma_word_apart(text, "/fix "@, 'f', 'i');
    lemma_word_apart(text, "/fix:"@, 'f', 'i');
    assert(is_prefix_ci("fix "@, text)) by {
        assert forall|i: int| 0 <= i < 4 implies ascii_lower(#[trigger] "fix "@[i]) == ascii_lower(
            text[i],
        ) by {
            assert(text[i] == "fix "@[i]);
        }
    }
    let all = FIX_PREFIXES@;
    reveal_with_fuel(after_any_ci, 4);
    assert(all.skip(1)[0] == all[1]);
    assert(all.skip(1).skip(1)[0] == all[2]);
    assert(text.skip(4) =~= d);
}

proof fn lemma_fix_alone(task: Seq<char>)
    requires
        task == trim_end("fix "@),
    ensures
        agent_word(task) == Some(IntentView::AgentFix(seq![])),
{
    reveal_strlit("fix ");
    reveal_strlit("fix");
    reveal_with_fuel(trim_end, 2);
    assert("fix "@.drop_last() =~= "fix"@);
    assert(task == "fix"@);
    assert(all_plain(task));
    plain_text_is_lowered(task);
    assert(lower(task) =~= "fix"@);
    assert(is_prefix_ci("fix"@, task));
    assert(task.skip(3) =~= seq![]);
    assert(trim(trim_start_set(task.skip(3), COLONS@)) =~= seq![]);
}

proof fn lemma_asked(text: Seq<char>, head: Seq<char>, q: Seq<char>, inferred: Option<IntentView>)
    requires
        head == "/ask "@ || head == "ask "@ || head == "问:"@,
        text == head + q,
    ensures
        intent_of(text, inferred) == Some(IntentView::CopilotAsk(trim(q))),
        unclassified(text) is None,
{
    reveal_strlit("/ask ");
    reveal_strlit("ask ");
    reveal_strlit("/agent");
    reveal_strlit("问:");
    let (a, b) = (head[0], head[1]);
    assert(text[0] == a && text[1] == b);
    assert(begins(text, a, b));
    lemma_not_session(text, a, b);
    if is_prefix_ci("/agent"@, text) {
        assert(ascii_lower("/agent"@[0]) == ascii_lower(text[0]));
        assert(ascii_lower("/agent"@[2]) == ascii_lower(text[2]));
        assert(head == "/ask "@ && text[2] == head[2]);
    }
    lemma_not_early(text, a, b);
    assert(is_prefix_ci(head, text)) by {
        assert forall|i: int| 0 <= i < head.len() implies ascii_lower(#[trigger] head[i])
            == ascii_lower(text[i]) by {
            assert(text[i] == head[i]);
        }
    }
    let all = ASK_PREFIXES@;
    reveal_with_fuel(after_any_ci, 4);
    assert(all.skip(1)[0] == all[1]);
    assert(all.skip(1).skip(1)[0] == all[2]);
    if head != "/ask "@ {
        assert(starts_apart("/ask "@, a, b));
        lemma_word_apart(text, "/ask "@, a, b);
    }
    if head == "问:"@ {
        assert(starts_apart("ask "@, a, b));
        lemma_word_apart(text, "ask "@, a, b);
    }
    assert(text.skip(head.len() as int) =~= q);
    assert(chat_intent(text) == Some(IntentView::CopilotAsk(trim(q))));
}

/// `/ask <q>`, `ask <q>` and `问: <q>` ask Copilot `<q>`, whatever `<q>` says and whatever
/// the classifier would make of it.
pub proof fn ask_is_asked(q: Seq<char>, inferred: Option<IntentView>)
    ensures
        intent_of("/ask "@ + q, inferred) == Some(IntentView::CopilotAsk(trim(q))),
        intent_of("ask "@ + q, inferred) == Some(IntentView::CopilotAsk(trim(q))),
        intent_of("问:"@ + q, inferred) == Some(IntentView::CopilotAsk(trim(q))),
        unclassified("/ask "@ + q) is None,
        unclassified("ask "@ + q) is None,
        unclassified("问:"@ + q) is None,
{
    lemma_asked("/ask "@ + q, "/ask "@, q, inferred);
    lemma_asked("ask "@ + q, "ask "@, q, inferred);
    lemma_asked("问:"@ + q, "问:"@, q, inferred);
}

/// `/terminal <c>` means the terminal command `<c>`, whatever `<c>` says, unless it is
/// blank.
pub proof fn terminal_text_is_command(c: Seq<char>, inferred: Option<IntentView>)
    requires
        !is_blank(c),
    ensures
        intent_of("/terminal "@ + c, inferred) == Some(IntentView::TerminalRun(trim(c))),
        unclassified("/terminal "@ + c) is None,
{
    reveal_strlit("/terminal ");
    reveal_strlit("/agent");
    let text = "/terminal "@ + c;
    assert(text[0] == '/' && text[1] == 't');
    assert(begins(text, '/', 't'));
    lemma_not_session(text, '/', 't');
    assert(starts_apart("/agent"@, '/', 't'));
    lemma_word_apart(text, "/agent"@, '/', 't');
    lemma_not_plan(text, '/', 't');
    lemma_loop_words('/', 't');
    lemma_apart(text, BUILD_WORDS@, '/', 't');
    lemma_apart(text, RESTART_WORDS@, '/', 't');
    lemma_apart(text, LOG_WORDS@, '/', 't');
    assert(is_prefix_ci("/terminal "@, text)) by {
        assert forall|i: int| 0 <= i < "/terminal "@.len() implies ascii_lower(
            #[trigger] "/terminal "@[i],
        ) == ascii_lower(text[i]) by {
            assert(text[i] == "/terminal "@[i]);
        }
    }
    assert(text.skip("/terminal "@.len() as int) =~= c);
    assert(after_any_ci(text, TERMINAL_PREFIXES@) == Some(c));
}

proof fn lemma_own_lower(text: Seq<char>)
    requires
        all_plain(text),
        forall|i: int| 0 <= i < text.len() ==> ascii_lower(#[trigger] text[i]) == text[i],
    ensures
        lower(text) == text,
{
    plain_text_is_lowered(text);
    assert(lower(text) =~= text);
}

/// A text that starts otherwise than all words tried before the confirmations means what
/// the development loop makes of it.
proof fn lemma_left_to_loop(text: Seq<char>, a: char, b: char, inferred: Option<IntentView>)
    requires
        begins(text, a, b),
        a == '确' && b == '认' || a == '取' && b == '消',
        loop_intent(text) is Some,
    ensures
        intent_of(text, inferred) == loop_intent(text),
{
    reveal_strlit("/agent");
    lemma_not_session(text, a, b);
    lemma_word_apart(text, "/agent"@, a, b);
    lemma_not_plan(text, a, b);
}

proof fn lemma_no_loop_word(text: Seq<char>, a: char, b: char)
    requires
        begins(text, a, b),
        a == '确' && b == '认' || a == '取' && b == '消',
    ensures
        !listed(BUILD_WORDS@, lower(text)),
        !listed(RESTART_WORDS@, lower(text)),
        !listed(LOG_WORDS@, lower(text)),
        after_any_ci(text, TERMINAL_PREFIXES@) is None,
{
    reveal_strlit("/terminal ");
    reveal_strlit("terminal ");
    lemma_loop_words(a, b);
    lemma_apart(text, BUILD_WORDS@, a, b);
    lemma_apart(text, RESTART_WORDS@, a, b);
    lemma_apart(text, LOG_WORDS@, a, b);
    assert(all_apart(TERMINAL_PREFIXES@, a, b));
    lemma_apart(text, TERMINAL_PREFIXES@, a, b);
}

/// The words by which a command that waits is confirmed or cancelled.
pub(crate) proof fn lemma_confirm_words(inferred: Option<IntentView>)
    ensures
        intent_of("确认执行"@, inferred) == Some(IntentView::TerminalConfirm),
        intent_of("取消执行"@, inferred) == Some(IntentView::TerminalCancel),
{
    reveal_strlit("确认执行");
    reveal_strlit("取消执行");
    reveal_strlit("confirm");
    reveal_strlit("/confirm");
    reveal_strlit("yes");
    let (yes, no) = ("确认执行"@, "取消执行"@);
    lemma_own_lower(yes);
    lemma_own_lower(no);
    lemma_no_loop_word(yes, '确', '认');
    lemma_no_loop_word(no, '取', '消');
    assert(CONFIRM_WORDS@[0]@ == yes && CANCEL_WORDS@[0]@ == no);
    assert(listed(CONFIRM_WORDS@, lower(yes)));
    assert(all_apart(CONFIRM_WORDS@, '取', '消'));
    lemma_apart(no, CONFIRM_WORDS@, '取', '消');
    assert(listed(CANCEL_WORDS@, lower(no)));
    lemma_left_to_loop(yes, '确', '认', inferred);
    lemma_left_to_loop(no, '取', '消', inferred);
}

/// The word by which the last action is carried out again.
pub(crate) proof fn lemma_retry_word(inferred: Option<IntentView>)
    ensures
        intent_of("重试"@, inferred) == Some(IntentView::Retry),
{
    let text = "重试"@;
    reveal_strlit("重试");
    reveal_strlit("继续");
    reveal_strlit("continue");
    reveal_strlit("继续执行");
    reveal_strlit("下一步");
    reveal_strlit("执行全部");
    reveal_strlit("全部执行");
    reveal_strlit("run all");
    reveal_strlit("执行所有步骤");
    reveal_strlit("全部继续");
    reveal_strlit("一键执行");
    lemma_own_lower(text);
    assert(begins(text, '重', '试'));
    assert(all_apart(CONTINUE_WORDS@, '重', '试'));
    lemma_apart(text, CONTINUE_WORDS@, '重', '试');
    assert(all_apart(CONTINUE_ALL_WORDS@, '重', '试'));
    lemma_apart(text, CONTINUE_ALL_WORDS@, '重', '试');
    assert(RETRY_WORDS@[0]@ == text);
    assert(listed(RETRY_WORDS@, lower(text)));
}

/// `chat 历史 <n>` asks for the chat `<n>`.
pub proof fn chat_number_is_read(n: nat, inferred: Option<IntentView>)
    requires
        n <= usize::MAX,
    ensures
        intent_of("chat 历史 "@ + decimal(n), inferred) == Some(IntentView::CopilotHistory(n)),
        unclassified("chat 历史 "@ + decimal(n)) is None,
{
    reveal_strlit("chat 历史 ");
    reveal_strlit("/agent");
    let (head, digits) = ("chat 历史 "@, decimal(n));
    let text = head + digits;
    lemma_decimal_value(n);
    decimal_reads_back(n, usize::MAX as nat);
    assert(text[0] == 'c' && text[1] == 'h');
    assert forall|i: int| 0 <= i < text.len() implies is_plain(#[trigger] text[i]) && ascii_lower(
        text[i],
    ) == text[i] by {
        if i < head.len() {
            assert(text[i] == head[i]);
        } else {
            assert(text[i] == digits[i - head.len()]);
        }
    }
    assert(all_plain(text));
    lemma_own_lower(text);
    assert(begins(text, 'c', 'h'));
    lemma_not_session(text, 'c', 'h');
    lemma_word_apart(text, "/agent"@, 'c', 'h');
    lemma_not_early(text, 'c', 'h');
    lemma_no_other_chat(text, digits);
    assert(head.is_prefix_of(text));
    assert(text.skip(head.len() as int) =~= digits);
    assert(after_any(text, CHAT_PREFIXES@) == Some(digits));
    assert(trim(digits) == digits) by {
        assert(!is_space(digits[0]) && !is_space(digits.last()));
    }
    assert(chat_number(text) == Some(n));
}

proof fn lemma_no_other_chat(text: Seq<char>, digits: Seq<char>)
    requires
        text == "chat 历史 "@ + digits,
        digits.len() > 0,
        begins(text, 'c', 'h'),
        lower(text) == text,
    ensures
        after_any_ci(text, ASK_PREFIXES@) is None,
        !listed(CHAT_LIST_WORDS@, text),
{
    reveal_strlit("chat 历史 ");
    reveal_strlit("/ask ");
    reveal_strlit("ask ");
    reveal_strlit("问:");
    assert(all_apart(ASK_PREFIXES@, 'c', 'h'));
    lemma_apart(text, ASK_PREFIXES@, 'c', 'h');
    reveal_strlit("chat 历史");
    reveal_strlit("ai 历史");
    reveal_strlit("copilot 历史");
    reveal_strlit("聊天历史");
    reveal_strlit("chat history");
    reveal_strlit("copilot sessions");
    let words = CHAT_LIST_WORDS@;
    assert(text[5] == "chat 历史 "@[5]);
    assert(text[0] == "chat 历史 "@[0] && text[1] == "chat 历史 "@[1]);
    assert(text.len() > 8);
    assert(words[0]@.len() == 7);
    assert(words[4]@[5] == 'h');
    assert forall|i: int| 0 <= i < words.len() implies (#[trigger] words[i])@ != text by {}
}

} // verus!
