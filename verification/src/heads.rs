//! What can be relied on about the other names of the commands: each of them means the same,
//! and what stands behind it is kept.

use crate::actionwords::{
    literal_action, DIFF_PREFIXES, LIST_PHRASES, LIST_PREFIXES, READ_PHRASES, READ_PREFIXES,
    SEARCH_PREFIXES, TEST_PREFIXES,
};
use crate::intent::IntentView;
use crate::parser::{
    edit_intent, intent_of, loop_intent, plan_intent, session_intent, unclassified, BUILD_WORDS,
    CANCEL_WORDS, CLEAR_WORDS, CODING_WORDS, COMMIT_PREFIXES, CONFIRM_WORDS, CONTINUE_ALL_WORDS,
    CONTINUE_WORDS, FIX_PREFIXES, FIX_WORDS, HELP_WORDS, LOG_WORDS, PLANNING_WORDS, PLAN_PREFIXES,
    PLAN_TRIGGERS, PUSH_WORDS, RESTART_WORDS, RETRY_WORDS, SESSION_LIST_WORDS,
    SESSION_LOAD_PREFIXES, SESSION_SAVE_PREFIXES, SESSION_SAVE_WORDS, STATUS_WORDS,
    TERMINAL_PREFIXES,
};
use crate::plan::{plan_steps, plan_task};
use crate::text::{
    after_any, after_any_ci, after_prefix, after_prefix_ci, all_space, ascii_lower, is_bare,
    is_prefix_ci, is_space, lemma_find_from, lemma_trim_end_join, listed, occurs_at, split_once,
    stands_first_behind, text_is_parted, trim, trim_end, trim_start, trimming_keeps_the_rest,
};
use crate::unicode::{
    all_plain, is_plain, lower, lower_keeps_plain_start, plain_text_is_lowered,
};
use vstd::prelude::*;

verus! {

// ---------------------------------------------------------------------------
// The names
// ---------------------------------------------------------------------------

/// The names for loading a session.
pub open spec fn is_load_head(h: Seq<char>) -> bool {
    ||| h == "载入会话 "@
    ||| h == "恢复会话 "@
    ||| h == "session load "@
    ||| h == "/session load "@
    ||| h == "切换会话 "@
}

/// The names for saving a session.
pub open spec fn is_save_head(h: Seq<char>) -> bool {
    ||| h == "保存会话 "@
    ||| h == "session save "@
    ||| h == "/session save "@
}

/// The names for a fix.
pub open spec fn is_fix_head(h: Seq<char>) -> bool {
    ||| h == "/fix "@
    ||| h == "/fix:"@
    ||| h == "fix "@
    ||| h == "修复 "@
}

/// The names for a plan.
pub open spec fn is_plan_head(h: Seq<char>) -> bool {
    ||| h == "/plan "@
    ||| h == "plan "@
    ||| h == "计划 "@
    ||| h == "规划 "@
    ||| h == "/计划 "@
    ||| h == "/规划 "@
    ||| h == "做计划 "@
    ||| h == "做规划 "@
}

/// The names for a terminal command.
pub open spec fn is_terminal_head(h: Seq<char>) -> bool {
    ||| h == "/terminal "@
    ||| h == "terminal "@
}

/// The names for a commit.
pub open spec fn is_commit_head(h: Seq<char>) -> bool {
    ||| h == "/commit "@
    ||| h == "commit "@
    ||| h == "提交 "@
    ||| h == "git commit "@
}

/// The names for reading a file.
pub open spec fn is_read_head(h: Seq<char>) -> bool {
    ||| h == "/read "@
    ||| h == "read "@
    ||| h == "读 "@
}

/// The names for listing a directory.
pub open spec fn is_list_head(h: Seq<char>) -> bool {
    ||| h == "/ls "@
    ||| h == "ls "@
    ||| h == "list "@
    ||| h == "看 "@
}

/// The names for a search.
pub open spec fn is_search_head(h: Seq<char>) -> bool {
    ||| h == "/search "@
    ||| h == "search "@
    ||| h == "搜 "@
}

/// The names for reading a file in everyday words.
pub open spec fn is_read_phrase_head(h: Seq<char>) -> bool {
    ||| h == "读取文件 "@
    ||| h == "读取 "@
    ||| h == "打开文件 "@
    ||| h == "查看文件 "@
}

/// The names for listing a directory in everyday words.
pub open spec fn is_list_phrase_head(h: Seq<char>) -> bool {
    ||| h == "列出目录 "@
    ||| h == "查看目录 "@
    ||| h == "看看目录 "@
}

/// Whether this is the name of a command of the development loop or of an action.
spec fn is_work_head(h: Seq<char>) -> bool {
    ||| is_fix_head(h)
    ||| is_plan_head(h)
    ||| is_late_head(h)
}

/// Whether this is a name that is looked at behind fixes and plans.
spec fn is_late_head(h: Seq<char>) -> bool {
    ||| is_terminal_head(h)
    ||| is_commit_head(h)
    ||| is_action_head(h)
}

/// Whether this is the name of an action.
spec fn is_action_head(h: Seq<char>) -> bool {
    ||| is_read_head(h)
    ||| is_list_head(h)
    ||| is_search_head(h)
    ||| is_phrase_head(h)
}

/// Whether this is the name of an action in everyday words.
spec fn is_phrase_head(h: Seq<char>) -> bool {
    is_read_phrase_head(h) || is_list_phrase_head(h)
}

/// Whether a word differs from `h` in one of the first characters.
#[verifier::opaque]
spec fn is_apart(word: Seq<char>, h: Seq<char>) -> bool {
    ||| word.len() > 0 && h.len() > 0 && ascii_lower(word[0]) != h[0]
    ||| word.len() > 1 && h.len() > 1 && ascii_lower(word[1]) != h[1]
    ||| word.len() > 2 && h.len() > 2 && ascii_lower(word[2]) != h[2]
    ||| word.len() > 3 && h.len() > 3 && ascii_lower(word[3]) != h[3]
    ||| word.len() > 4 && h.len() > 4 && ascii_lower(word[4]) != h[4]
    ||| word.len() > 5 && h.len() > 5 && ascii_lower(word[5]) != h[5]
    ||| word.len() > 6 && h.len() > 6 && ascii_lower(word[6]) != h[6]
    ||| word.len() > 7 && h.len() > 7 && ascii_lower(word[7]) != h[7]
    ||| word.len() > 8 && h.len() > 8 && ascii_lower(word[8]) != h[8]
    ||| word.len() > 9 && h.len() > 9 && ascii_lower(word[9]) != h[9]
}

/// Whether every word does.
spec fn all_apart(words: Seq<&'static str>, h: Seq<char>) -> bool {
    forall|i: int| 0 <= i < words.len() ==> is_apart((#[trigger] words[i])@, h)
}

/// Whether no text that starts with `h` is one of some words: each differs, or is shorter.
spec fn all_other(words: Seq<&'static str>, h: Seq<char>) -> bool {
    forall|i: int|
        0 <= i < words.len() ==> is_apart((#[trigger] words[i])@, h) || words[i]@.len() < h.len()
}

/// Whether a text starts with `h`, which is plain and in lower case.
spec fn starts_with(text: Seq<char>, h: Seq<char>) -> bool {
    &&& h.len() <= text.len()
    &&& forall|i: int|
        #![trigger h[i]]
        0 <= i < h.len() ==> text[i] == h[i] && is_plain(h[i]) && ascii_lower(h[i]) == h[i]
}

proof fn lemma_lower_starts(text: Seq<char>, h: Seq<char>)
    requires
        starts_with(text, h),
    ensures
        starts_with(lower(text), h),
{
    assert(all_plain(h));
    assert forall|i: int| 0 <= i < h.len() implies is_plain(#[trigger] text[i]) && ascii_lower(
        text[i],
    ) == ascii_lower(h[i]) by {
        assert(text[i] == h[i]);
    }
    lower_keeps_plain_start(text, h);
    plain_text_is_lowered(h);
    assert forall|i: int| #![trigger h[i]] 0 <= i < h.len() implies lower(text)[i] == h[i]
        && is_plain(h[i]) && ascii_lower(h[i]) == h[i] by {
        assert(lower(h)[i] == ascii_lower(h[i]));
    }
}

proof fn lemma_differs(text: Seq<char>, word: Seq<char>, h: Seq<char>) -> (k: int)
    requires
        starts_with(text, h),
        is_apart(word, h),
    ensures
        0 <= k < h.len(),
        k < word.len(),
        ascii_lower(word[k]) != ascii_lower(text[k]),
{
    reveal(is_apart);
    let k: int = if word.len() > 0 && h.len() > 0 && ascii_lower(word[0]) != h[0] {
        0
    } else if word.len() > 1 && h.len() > 1 && ascii_lower(word[1]) != h[1] {
        1
    } else if word.len() > 2 && h.len() > 2 && ascii_lower(word[2]) != h[2] {
        2
    } else if word.len() > 3 && h.len() > 3 && ascii_lower(word[3]) != h[3] {
        3
    } else if word.len() > 4 && h.len() > 4 && ascii_lower(word[4]) != h[4] {
        4
    } else if word.len() > 5 && h.len() > 5 && ascii_lower(word[5]) != h[5] {
        5
    } else if word.len() > 6 && h.len() > 6 && ascii_lower(word[6]) != h[6] {
        6
    } else if word.len() > 7 && h.len() > 7 && ascii_lower(word[7]) != h[7] {
        7
    } else if word.len() > 8 && h.len() > 8 && ascii_lower(word[8]) != h[8] {
        8
    } else {
        9
    };
    assert(text[k] == h[k] && ascii_lower(h[k]) == h[k]);
    k
}

proof fn lemma_word_apart(text: Seq<char>, word: Seq<char>, h: Seq<char>)
    requires
        starts_with(text, h),
        is_apart(word, h),
    ensures
        text != word,
        lower(text) != word,
        after_prefix(text, word) is None,
        after_prefix(lower(text), word) is None,
        after_prefix_ci(text, word) is None,
{
    lemma_lower_starts(text, h);
    let k = lemma_differs(text, word, h);
    let j = lemma_differs(lower(text), word, h);
    if word.is_prefix_of(text) {
        assert(word[k] == text[k]);
    }
    if word.is_prefix_of(lower(text)) {
        assert(word[j] == lower(text)[j]);
    }
}

/// A text that starts otherwise than all of some words starts with none of them.
proof fn lemma_no_prefix(text: Seq<char>, words: Seq<&'static str>, h: Seq<char>)
    requires
        starts_with(text, h),
        all_apart(words, h),
    ensures
        after_any(text, words) is None,
        after_any(lower(text), words) is None,
        after_any_ci(text, words) is None,
    decreases words.len(),
{
    if words.len() > 0 {
        lemma_word_apart(text, words[0]@, h);
        let rest = words.skip(1);
        assert forall|i: int| 0 <= i < rest.len() implies is_apart((#[trigger] rest[i])@, h) by {
            assert(rest[i] == words[i + 1]);
        }
        lemma_no_prefix(text, rest, h);
    }
}

/// A text that starts otherwise than all of some words is none of them.
proof fn lemma_no_word(text: Seq<char>, words: Seq<&'static str>, h: Seq<char>)
    requires
        starts_with(text, h),
        all_other(words, h),
    ensures
        !listed(words, lower(text)),
{
    lemma_lower_starts(text, h);
    assert forall|i: int| 0 <= i < words.len() implies (#[trigger] words[i])@ != lower(text) by {
        if is_apart(words[i]@, h) {
            lemma_word_apart(text, words[i]@, h);
        }
    }
}

/// The first of some prefixes that a text starts with is its head, where those before it
/// differ from the head.
proof fn lemma_own_prefix(text: Seq<char>, words: Seq<&'static str>, h: Seq<char>, rest: Seq<char>, k: int)
    requires
        text == h + rest,
        starts_with(text, h),
        0 <= k < words.len(),
        words[k]@ == h,
        forall|i: int| 0 <= i < k ==> is_apart((#[trigger] words[i])@, h),
    ensures
        after_any(text, words) == Some(rest),
        after_any_ci(text, words) == Some(rest),
    decreases k,
{
    if k > 0 {
        assert(is_apart(words[0]@, h));
        lemma_word_apart(text, words[0]@, h);
        let more = words.skip(1);
        assert forall|i: int| 0 <= i < k - 1 implies is_apart((#[trigger] more[i])@, h) by {
            assert(more[i] == words[i + 1]);
        }
        lemma_own_prefix(text, more, h, rest, k - 1);
    } else {
        assert(text.take(h.len() as int) =~= h);
        assert(text.skip(h.len() as int) =~= rest);
        assert(is_prefix_ci(h, text));
    }
}

/// No word about the session starts like these names.
proof fn lemma_session_apart(h: Seq<char>)
    requires
        is_work_head(h),
    ensures
        all_other(CONTINUE_WORDS@, h),
        all_other(CONTINUE_ALL_WORDS@, h),
        all_other(RETRY_WORDS@, h),
        all_other(STATUS_WORDS@, h),
        all_other(SESSION_LIST_WORDS@, h),
        all_other(SESSION_SAVE_WORDS@, h),
        all_other(CLEAR_WORDS@, h),
        all_other(CODING_WORDS@, h),
        all_other(PLANNING_WORDS@, h),
        all_other(HELP_WORDS@, h),
        all_apart(SESSION_LOAD_PREFIXES@, h),
        all_apart(SESSION_SAVE_PREFIXES@, h),
        is_apart("/help"@, h),
        is_apart("/agent"@, h),
{
    reveal(is_apart);
    reveal_strlit("/fix ");
    reveal_strlit("/fix:");
    reveal_strlit("fix ");
    reveal_strlit("修复 ");
    reveal_strlit("/plan ");
    reveal_strlit("plan ");
    reveal_strlit("计划 ");
    reveal_strlit("规划 ");
    reveal_strlit("/计划 ");
    reveal_strlit("/规划 ");
    reveal_strlit("做计划 ");
    reveal_strlit("做规划 ");
    reveal_strlit("/terminal ");
    reveal_strlit("terminal ");
    reveal_strlit("/commit ");
    reveal_strlit("commit ");
    reveal_strlit("提交 ");
    reveal_strlit("git commit ");
    reveal_strlit("/read ");
    reveal_strlit("read ");
    reveal_strlit("读 ");
    reveal_strlit("/ls ");
    reveal_strlit("ls ");
    reveal_strlit("list ");
    reveal_strlit("看 ");
    reveal_strlit("/search ");
    reveal_strlit("search ");
    reveal_strlit("搜 ");
    reveal_strlit("读取文件 ");
    reveal_strlit("读取 ");
    reveal_strlit("打开文件 ");
    reveal_strlit("查看文件 ");
    reveal_strlit("列出目录 ");
    reveal_strlit("查看目录 ");
    reveal_strlit("看看目录 ");
    reveal_strlit("继续");
    reveal_strlit("continue");
    reveal_strlit("继续执行");
    reveal_strlit("下一步");
    reveal_strlit("执行全部");
    reveal_strlit("全部执行");
    reveal_strlit("run all");
    reveal_strlit("执行所有步骤");
    reveal_strlit("全部继续");
    reveal_strlit("一键执行");
    reveal_strlit("重试");
    reveal_strlit("retry");
    reveal_strlit("再试一次");
    reveal_strlit("再来一次");
    reveal_strlit("状态");
    reveal_strlit("status");
    reveal_strlit("进展");
    reveal_strlit("现在做什么");
    reveal_strlit("当前任务");
    reveal_strlit("会话列表");
    reveal_strlit("session list");
    reveal_strlit("sessions");
    reveal_strlit("历史会话");
    reveal_strlit("查看会话");
    reveal_strlit("保存会话");
    reveal_strlit("session save");
    reveal_strlit("/session save");
    reveal_strlit("清除");
    reveal_strlit("clear");
    reveal_strlit("清除会话");
    reveal_strlit("reset");
    reveal_strlit("重置");
    reveal_strlit("编码模式");
    reveal_strlit("切换编码");
    reveal_strlit("switch coding");
    reveal_strlit("coding mode");
    reveal_strlit("coding");
    reveal_strlit("规划模式");
    reveal_strlit("切换规划");
    reveal_strlit("switch planning");
    reveal_strlit("planning mode");
    reveal_strlit("planning");
    reveal_strlit("help");
    reveal_strlit("帮助");
    reveal_strlit("载入会话 ");
    reveal_strlit("恢复会话 ");
    reveal_strlit("session load ");
    reveal_strlit("/session load ");
    reveal_strlit("切换会话 ");
    reveal_strlit("保存会话 ");
    reveal_strlit("session save ");
    reveal_strlit("/session save ");
    reveal_strlit("/help");
    reveal_strlit("/agent");
}

/// No word about fixes and plans starts like these names.
proof fn lemma_plan_apart(h: Seq<char>)
    requires
        is_late_head(h),
    ensures
        all_other(FIX_WORDS@, h),
        all_apart(FIX_PREFIXES@, h),
        all_apart(PLAN_PREFIXES@, h),
{
    reveal(is_apart);
    reveal_strlit("/terminal ");
    reveal_strlit("terminal ");
    reveal_strlit("/commit ");
    reveal_strlit("commit ");
    reveal_strlit("提交 ");
    reveal_strlit("git commit ");
    reveal_strlit("/read ");
    reveal_strlit("read ");
    reveal_strlit("读 ");
    reveal_strlit("/ls ");
    reveal_strlit("ls ");
    reveal_strlit("list ");
    reveal_strlit("看 ");
    reveal_strlit("/search ");
    reveal_strlit("search ");
    reveal_strlit("搜 ");
    reveal_strlit("读取文件 ");
    reveal_strlit("读取 ");
    reveal_strlit("打开文件 ");
    reveal_strlit("查看文件 ");
    reveal_strlit("列出目录 ");
    reveal_strlit("查看目录 ");
    reveal_strlit("看看目录 ");
    reveal_strlit("/fix");
    reveal_strlit("fix");
    reveal_strlit("修复");
    reveal_strlit("修复这个");
    reveal_strlit("/fix ");
    reveal_strlit("/fix:");
    reveal_strlit("fix ");
    reveal_strlit("修复 ");
    reveal_strlit("/plan ");
    reveal_strlit("plan ");
    reveal_strlit("计划 ");
    reveal_strlit("规划 ");
    reveal_strlit("/计划 ");
    reveal_strlit("/规划 ");
    reveal_strlit("做计划 ");
    reveal_strlit("做规划 ");
}

/// No word that is looked at before the commits starts like these names.
proof fn lemma_loop_apart(h: Seq<char>)
    requires
        is_commit_head(h) || is_action_head(h),
    ensures
        all_other(BUILD_WORDS@, h),
        all_other(RESTART_WORDS@, h),
        all_other(LOG_WORDS@, h),
        all_other(CONFIRM_WORDS@, h),
        all_other(CANCEL_WORDS@, h),
        all_apart(TERMINAL_PREFIXES@, h),
{
    reveal(is_apart);
    reveal_strlit("/commit ");
    reveal_strlit("commit ");
    reveal_strlit("提交 ");
    reveal_strlit("git commit ");
    reveal_strlit("/read ");
    reveal_strlit("read ");
    reveal_strlit("读 ");
    reveal_strlit("/ls ");
    reveal_strlit("ls ");
    reveal_strlit("list ");
    reveal_strlit("看 ");
    reveal_strlit("/search ");
    reveal_strlit("search ");
    reveal_strlit("搜 ");
    reveal_strlit("读取文件 ");
    reveal_strlit("读取 ");
    reveal_strlit("打开文件 ");
    reveal_strlit("查看文件 ");
    reveal_strlit("列出目录 ");
    reveal_strlit("查看目录 ");
    reveal_strlit("看看目录 ");
    reveal_strlit("build");
    reveal_strlit("/build");
    reveal_strlit("编译");
    reveal_strlit("构建");
    reveal_strlit("restart");
    reveal_strlit("/restart");
    reveal_strlit("重启");
    reveal_strlit("重启服务");
    reveal_strlit("rebuild");
    reveal_strlit("/rebuild");
    reveal_strlit("logs");
    reveal_strlit("/logs");
    reveal_strlit("日志");
    reveal_strlit("查看日志");
    reveal_strlit("最新日志");
    reveal_strlit("错误日志");
    reveal_strlit("确认执行");
    reveal_strlit("confirm");
    reveal_strlit("/confirm");
    reveal_strlit("yes");
    reveal_strlit("取消执行");
    reveal_strlit("cancel");
    reveal_strlit("/cancel");
    reveal_strlit("no");
    reveal_strlit("/terminal ");
    reveal_strlit("terminal ");
}

/// No word for a commit, a push or an edit starts like these names.
proof fn lemma_edit_apart(h: Seq<char>)
    requires
        is_action_head(h),
    ensures
        all_other(PUSH_WORDS@, h),
        all_apart(COMMIT_PREFIXES@, h),
        is_apart("/write "@, h),
        is_apart("/replace "@, h),
{
    reveal(is_apart);
    reveal_strlit("/read ");
    reveal_strlit("read ");
    reveal_strlit("读 ");
    reveal_strlit("/ls ");
    reveal_strlit("ls ");
    reveal_strlit("list ");
    reveal_strlit("看 ");
    reveal_strlit("/search ");
    reveal_strlit("search ");
    reveal_strlit("搜 ");
    reveal_strlit("读取文件 ");
    reveal_strlit("读取 ");
    reveal_strlit("打开文件 ");
    reveal_strlit("查看文件 ");
    reveal_strlit("列出目录 ");
    reveal_strlit("查看目录 ");
    reveal_strlit("看看目录 ");
    reveal_strlit("push");
    reveal_strlit("/push");
    reveal_strlit("推送");
    reveal_strlit("git push");
    reveal_strlit("/commit ");
    reveal_strlit("commit ");
    reveal_strlit("提交 ");
    reveal_strlit("git commit ");
    reveal_strlit("/write ");
    reveal_strlit("/replace ");
}

/// No word for building, restarting or the logs starts like these names.
proof fn lemma_build_apart(h: Seq<char>)
    requires
        is_terminal_head(h),
    ensures
        all_other(BUILD_WORDS@, h),
        all_other(RESTART_WORDS@, h),
        all_other(LOG_WORDS@, h),
{
    reveal(is_apart);
    reveal_strlit("/terminal ");
    reveal_strlit("terminal ");
    reveal_strlit("build");
    reveal_strlit("/build");
    reveal_strlit("编译");
    reveal_strlit("构建");
    reveal_strlit("restart");
    reveal_strlit("/restart");
    reveal_strlit("重启");
    reveal_strlit("重启服务");
    reveal_strlit("rebuild");
    reveal_strlit("/rebuild");
    reveal_strlit("logs");
    reveal_strlit("/logs");
    reveal_strlit("日志");
    reveal_strlit("查看日志");
    reveal_strlit("最新日志");
    reveal_strlit("错误日志");
}

proof fn lemma_load_place(h: Seq<char>) -> (k: int)
    requires
        is_load_head(h),
    ensures
        0 <= k < SESSION_LOAD_PREFIXES@.len(),
        SESSION_LOAD_PREFIXES@[k]@ == h,
        forall|i: int| 0 <= i < k ==> is_apart((#[trigger] SESSION_LOAD_PREFIXES@[i])@, h),
{
    reveal(is_apart);
    reveal_strlit("载入会话 ");
    reveal_strlit("恢复会话 ");
    reveal_strlit("session load ");
    reveal_strlit("/session load ");
    reveal_strlit("切换会话 ");
    if h == "载入会话 "@ {
        0
    } else if h == "恢复会话 "@ {
        1
    } else if h == "session load "@ {
        2
    } else if h == "/session load "@ {
        3
    } else {
        4
    }
}

proof fn lemma_save_place(h: Seq<char>) -> (k: int)
    requires
        is_save_head(h),
    ensures
        0 <= k < SESSION_SAVE_PREFIXES@.len(),
        SESSION_SAVE_PREFIXES@[k]@ == h,
        forall|i: int| 0 <= i < k ==> is_apart((#[trigger] SESSION_SAVE_PREFIXES@[i])@, h),
{
    reveal(is_apart);
    reveal_strlit("保存会话 ");
    reveal_strlit("session save ");
    reveal_strlit("/session save ");
    if h == "保存会话 "@ {
        0
    } else if h == "session save "@ {
        1
    } else {
        2
    }
}

proof fn lemma_fix_place(h: Seq<char>) -> (k: int)
    requires
        is_fix_head(h),
    ensures
        0 <= k < FIX_PREFIXES@.len(),
        FIX_PREFIXES@[k]@ == h,
        forall|i: int| 0 <= i < k ==> is_apart((#[trigger] FIX_PREFIXES@[i])@, h),
{
    reveal(is_apart);
    reveal_strlit("/fix ");
    reveal_strlit("/fix:");
    reveal_strlit("fix ");
    reveal_strlit("修复 ");
    if h == "/fix "@ {
        0
    } else if h == "/fix:"@ {
        1
    } else if h == "fix "@ {
        2
    } else {
        3
    }
}

proof fn lemma_plan_place(h: Seq<char>) -> (k: int)
    requires
        is_plan_head(h),
    ensures
        0 <= k < PLAN_PREFIXES@.len(),
        PLAN_PREFIXES@[k]@ == h,
        forall|i: int| 0 <= i < k ==> is_apart((#[trigger] PLAN_PREFIXES@[i])@, h),
{
    reveal(is_apart);
    reveal_strlit("/plan ");
    reveal_strlit("plan ");
    reveal_strlit("计划 ");
    reveal_strlit("规划 ");
    reveal_strlit("/计划 ");
    reveal_strlit("/规划 ");
    reveal_strlit("做计划 ");
    reveal_strlit("做规划 ");
    if h == "/plan "@ {
        0
    } else if h == "plan "@ {
        1
    } else if h == "计划 "@ {
        2
    } else if h == "规划 "@ {
        3
    } else if h == "/计划 "@ {
        4
    } else if h == "/规划 "@ {
        5
    } else if h == "做计划 "@ {
        6
    } else {
        7
    }
}

proof fn lemma_terminal_place(h: Seq<char>) -> (k: int)
    requires
        is_terminal_head(h),
    ensures
        0 <= k < TERMINAL_PREFIXES@.len(),
        TERMINAL_PREFIXES@[k]@ == h,
        forall|i: int| 0 <= i < k ==> is_apart((#[trigger] TERMINAL_PREFIXES@[i])@, h),
{
    reveal(is_apart);
    reveal_strlit("/terminal ");
    reveal_strlit("terminal ");
    if h == "/terminal "@ {
        0
    } else {
        1
    }
}

proof fn lemma_commit_place(h: Seq<char>) -> (k: int)
    requires
        is_commit_head(h),
    ensures
        0 <= k < COMMIT_PREFIXES@.len(),
        COMMIT_PREFIXES@[k]@ == h,
        forall|i: int| 0 <= i < k ==> is_apart((#[trigger] COMMIT_PREFIXES@[i])@, h),
{
    reveal(is_apart);
    reveal_strlit("/commit ");
    reveal_strlit("commit ");
    reveal_strlit("提交 ");
    reveal_strlit("git commit ");
    if h == "/commit "@ {
        0
    } else if h == "commit "@ {
        1
    } else if h == "提交 "@ {
        2
    } else {
        3
    }
}

proof fn lemma_read_place(h: Seq<char>) -> (k: int)
    requires
        is_read_head(h),
    ensures
        0 <= k < READ_PREFIXES@.len(),
        READ_PREFIXES@[k]@ == h,
        forall|i: int| 0 <= i < k ==> is_apart((#[trigger] READ_PREFIXES@[i])@, h),
{
    reveal(is_apart);
    reveal_strlit("/read ");
    reveal_strlit("read ");
    reveal_strlit("读 ");
    if h == "/read "@ {
        0
    } else if h == "read "@ {
        1
    } else {
        2
    }
}

proof fn lemma_list_place(h: Seq<char>) -> (k: int)
    requires
        is_list_head(h),
    ensures
        0 <= k < LIST_PREFIXES@.len(),
        LIST_PREFIXES@[k]@ == h,
        forall|i: int| 0 <= i < k ==> is_apart((#[trigger] LIST_PREFIXES@[i])@, h),
{
    reveal(is_apart);
    reveal_strlit("/ls ");
    reveal_strlit("ls ");
    reveal_strlit("list ");
    reveal_strlit("看 ");
    if h == "/ls "@ {
        0
    } else if h == "ls "@ {
        1
    } else if h == "list "@ {
        2
    } else {
        3
    }
}

proof fn lemma_search_place(h: Seq<char>) -> (k: int)
    requires
        is_search_head(h),
    ensures
        0 <= k < SEARCH_PREFIXES@.len(),
        SEARCH_PREFIXES@[k]@ == h,
        forall|i: int| 0 <= i < k ==> is_apart((#[trigger] SEARCH_PREFIXES@[i])@, h),
{
    reveal(is_apart);
    reveal_strlit("/search ");
    reveal_strlit("search ");
    reveal_strlit("搜 ");
    if h == "/search "@ {
        0
    } else if h == "search "@ {
        1
    } else {
        2
    }
}

proof fn lemma_read_phrase_place(h: Seq<char>) -> (k: int)
    requires
        is_read_phrase_head(h),
    ensures
        0 <= k < READ_PHRASES@.len(),
        READ_PHRASES@[k]@ == h,
        forall|i: int| 0 <= i < k ==> is_apart((#[trigger] READ_PHRASES@[i])@, h),
{
    reveal(is_apart);
    reveal_strlit("读取文件 ");
    reveal_strlit("读取 ");
    reveal_strlit("打开文件 ");
    reveal_strlit("查看文件 ");
    if h == "读取文件 "@ {
        0
    } else if h == "读取 "@ {
        1
    } else if h == "打开文件 "@ {
        2
    } else {
        3
    }
}

proof fn lemma_list_phrase_place(h: Seq<char>) -> (k: int)
    requires
        is_list_phrase_head(h),
    ensures
        0 <= k < LIST_PHRASES@.len(),
        LIST_PHRASES@[k]@ == h,
        forall|i: int| 0 <= i < k ==> is_apart((#[trigger] LIST_PHRASES@[i])@, h),
{
    reveal(is_apart);
    reveal_strlit("列出目录 ");
    reveal_strlit("查看目录 ");
    reveal_strlit("看看目录 ");
    if h == "列出目录 "@ {
        0
    } else if h == "查看目录 "@ {
        1
    } else {
        2
    }
}

/// No name for reading starts like these names.
proof fn lemma_list_apart(h: Seq<char>)
    requires
        is_list_head(h) || is_search_head(h),
    ensures
        all_apart(READ_PREFIXES@, h),
{
    reveal(is_apart);
    reveal_strlit("/ls ");
    reveal_strlit("ls ");
    reveal_strlit("list ");
    reveal_strlit("看 ");
    reveal_strlit("/search ");
    reveal_strlit("search ");
    reveal_strlit("搜 ");
    reveal_strlit("/read ");
    reveal_strlit("read ");
    reveal_strlit("读 ");
}

/// No name for listing starts like these names.
proof fn lemma_search_apart(h: Seq<char>)
    requires
        is_search_head(h),
    ensures
        all_apart(LIST_PREFIXES@, h),
{
    reveal(is_apart);
    reveal_strlit("/search ");
    reveal_strlit("search ");
    reveal_strlit("搜 ");
    reveal_strlit("/ls ");
    reveal_strlit("ls ");
    reveal_strlit("list ");
    reveal_strlit("看 ");
}

/// No word about fixes starts like these names.
proof fn lemma_fix_apart(h: Seq<char>)
    requires
        is_plan_head(h),
    ensures
        all_other(FIX_WORDS@, h),
        all_apart(FIX_PREFIXES@, h),
{
    reveal(is_apart);
    reveal_strlit("/plan ");
    reveal_strlit("plan ");
    reveal_strlit("计划 ");
    reveal_strlit("规划 ");
    reveal_strlit("/计划 ");
    reveal_strlit("/规划 ");
    reveal_strlit("做计划 ");
    reveal_strlit("做规划 ");
    reveal_strlit("/fix");
    reveal_strlit("fix");
    reveal_strlit("修复");
    reveal_strlit("修复这个");
    reveal_strlit("/fix ");
    reveal_strlit("/fix:");
    reveal_strlit("fix ");
    reveal_strlit("修复 ");
}

/// No word that is looked at before loading starts like these names.
proof fn lemma_kept_apart(h: Seq<char>)
    requires
        is_load_head(h) || is_save_head(h),
    ensures
        all_other(CONTINUE_WORDS@, h),
        all_other(CONTINUE_ALL_WORDS@, h),
        all_other(RETRY_WORDS@, h),
        all_other(STATUS_WORDS@, h),
        all_other(SESSION_LIST_WORDS@, h),
{
    reveal(is_apart);
    reveal_strlit("载入会话 ");
    reveal_strlit("恢复会话 ");
    reveal_strlit("session load ");
    reveal_strlit("/session load ");
    reveal_strlit("切换会话 ");
    reveal_strlit("保存会话 ");
    reveal_strlit("session save ");
    reveal_strlit("/session save ");
    reveal_strlit("继续");
    reveal_strlit("continue");
    reveal_strlit("继续执行");
    reveal_strlit("下一步");
    reveal_strlit("执行全部");
    reveal_strlit("全部执行");
    reveal_strlit("run all");
    reveal_strlit("执行所有步骤");
    reveal_strlit("全部继续");
    reveal_strlit("一键执行");
    reveal_strlit("重试");
    reveal_strlit("retry");
    reveal_strlit("再试一次");
    reveal_strlit("再来一次");
    reveal_strlit("状态");
    reveal_strlit("status");
    reveal_strlit("进展");
    reveal_strlit("现在做什么");
    reveal_strlit("当前任务");
    reveal_strlit("会话列表");
    reveal_strlit("session list");
    reveal_strlit("sessions");
    reveal_strlit("历史会话");
    reveal_strlit("查看会话");
}

/// No name for loading starts like these names.
proof fn lemma_save_apart(h: Seq<char>)
    requires
        is_save_head(h),
    ensures
        all_other(SESSION_SAVE_WORDS@, h),
        all_apart(SESSION_LOAD_PREFIXES@, h),
{
    reveal(is_apart);
    reveal_strlit("保存会话 ");
    reveal_strlit("session save ");
    reveal_strlit("/session save ");
    reveal_strlit("保存会话");
    reveal_strlit("session save");
    reveal_strlit("/session save");
    reveal_strlit("载入会话 ");
    reveal_strlit("恢复会话 ");
    reveal_strlit("session load ");
    reveal_strlit("/session load ");
    reveal_strlit("切换会话 ");
}

/// No other command starts like these names.
proof fn lemma_command_apart(h: Seq<char>)
    requires
        is_phrase_head(h),
    ensures
        all_apart(READ_PREFIXES@, h),
        all_apart(LIST_PREFIXES@, h),
        all_apart(SEARCH_PREFIXES@, h),
        all_apart(DIFF_PREFIXES@, h),
        all_apart(TEST_PREFIXES@, h),
        is_apart("/patch "@, h),
        is_apart("跑测试"@, h),
{
    reveal(is_apart);
    reveal_strlit("读取文件 ");
    reveal_strlit("读取 ");
    reveal_strlit("打开文件 ");
    reveal_strlit("查看文件 ");
    reveal_strlit("列出目录 ");
    reveal_strlit("查看目录 ");
    reveal_strlit("看看目录 ");
    reveal_strlit("/read ");
    reveal_strlit("read ");
    reveal_strlit("读 ");
    reveal_strlit("/ls ");
    reveal_strlit("ls ");
    reveal_strlit("list ");
    reveal_strlit("看 ");
    reveal_strlit("/search ");
    reveal_strlit("search ");
    reveal_strlit("搜 ");
    reveal_strlit("/diff");
    reveal_strlit("diff");
    reveal_strlit("/test");
    reveal_strlit("test");
    reveal_strlit("/patch ");
    reveal_strlit("跑测试");
}

/// No phrase for reading starts like these names.
proof fn lemma_list_phrase_apart(h: Seq<char>)
    requires
        is_list_phrase_head(h),
    ensures
        all_apart(READ_PHRASES@, h),
{
    reveal(is_apart);
    reveal_strlit("列出目录 ");
    reveal_strlit("查看目录 ");
    reveal_strlit("看看目录 ");
    reveal_strlit("读取文件 ");
    reveal_strlit("读取 ");
    reveal_strlit("打开文件 ");
    reveal_strlit("查看文件 ");
}

proof fn lemma_triggers_apart(h: Seq<char>)
    requires
        is_late_head(h),
    ensures
        all_other(PLAN_TRIGGERS@, h.drop_last()),
        is_bare(h.drop_last()),
{
    reveal(is_apart);
    reveal_strlit("/terminal ");
    reveal_strlit("terminal ");
    reveal_strlit("/commit ");
    reveal_strlit("commit ");
    reveal_strlit("提交 ");
    reveal_strlit("git commit ");
    reveal_strlit("/read ");
    reveal_strlit("read ");
    reveal_strlit("读 ");
    reveal_strlit("/ls ");
    reveal_strlit("ls ");
    reveal_strlit("list ");
    reveal_strlit("看 ");
    reveal_strlit("/search ");
    reveal_strlit("search ");
    reveal_strlit("搜 ");
    reveal_strlit("读取文件 ");
    reveal_strlit("读取 ");
    reveal_strlit("打开文件 ");
    reveal_strlit("查看文件 ");
    reveal_strlit("列出目录 ");
    reveal_strlit("查看目录 ");
    reveal_strlit("看看目录 ");
    reveal_strlit("plan");
    reveal_strlit("计划");
    reveal_strlit("规划");
    reveal_strlit("/plan");
    reveal_strlit("/计划");
    reveal_strlit("/规划");
}

/// All names are plain and in lower case.
proof fn lemma_head_starts(h: Seq<char>, rest: Seq<char>)
    requires
        is_work_head(h) || is_load_head(h) || is_save_head(h),
    ensures
        starts_with(h + rest, h),
        h.len() > 1,
        !is_space(h[0]),
{
    reveal_strlit("/fix ");
    reveal_strlit("/fix:");
    reveal_strlit("fix ");
    reveal_strlit("修复 ");
    reveal_strlit("/plan ");
    reveal_strlit("plan ");
    reveal_strlit("计划 ");
    reveal_strlit("规划 ");
    reveal_strlit("/计划 ");
    reveal_strlit("/规划 ");
    reveal_strlit("做计划 ");
    reveal_strlit("做规划 ");
    reveal_strlit("/terminal ");
    reveal_strlit("terminal ");
    reveal_strlit("/commit ");
    reveal_strlit("commit ");
    reveal_strlit("提交 ");
    reveal_strlit("git commit ");
    reveal_strlit("/read ");
    reveal_strlit("read ");
    reveal_strlit("读 ");
    reveal_strlit("/ls ");
    reveal_strlit("ls ");
    reveal_strlit("list ");
    reveal_strlit("看 ");
    reveal_strlit("/search ");
    reveal_strlit("search ");
    reveal_strlit("搜 ");
    reveal_strlit("读取文件 ");
    reveal_strlit("读取 ");
    reveal_strlit("打开文件 ");
    reveal_strlit("查看文件 ");
    reveal_strlit("列出目录 ");
    reveal_strlit("查看目录 ");
    reveal_strlit("看看目录 ");
    reveal_strlit("载入会话 ");
    reveal_strlit("恢复会话 ");
    reveal_strlit("session load ");
    reveal_strlit("/session load ");
    reveal_strlit("切换会话 ");
    reveal_strlit("保存会话 ");
    reveal_strlit("session save ");
    reveal_strlit("/session save ");
    let text = h + rest;
    assert forall|i: int| #![trigger h[i]] 0 <= i < h.len() implies text[i] == h[i] && is_plain(h[i])
        && ascii_lower(h[i]) == h[i] by {}
}

proof fn lemma_not_session(text: Seq<char>, h: Seq<char>)
    requires
        starts_with(text, h),
        is_work_head(h),
    ensures
        session_intent(text) is None,
        after_prefix_ci(text, "/agent"@) is None,
        text.len() > 0,
{
    lemma_session_apart(h);
    lemma_head_starts(h, text.skip(h.len() as int));
    lemma_no_word(text, CONTINUE_WORDS@, h);
    lemma_no_word(text, CONTINUE_ALL_WORDS@, h);
    lemma_no_word(text, RETRY_WORDS@, h);
    lemma_no_word(text, STATUS_WORDS@, h);
    lemma_no_word(text, SESSION_LIST_WORDS@, h);
    lemma_no_prefix(text, SESSION_LOAD_PREFIXES@, h);
    lemma_no_word(text, SESSION_SAVE_WORDS@, h);
    lemma_no_prefix(text, SESSION_SAVE_PREFIXES@, h);
    lemma_no_word(text, CLEAR_WORDS@, h);
    lemma_no_word(text, CODING_WORDS@, h);
    lemma_no_word(text, PLANNING_WORDS@, h);
    lemma_no_word(text, HELP_WORDS@, h);
    lemma_word_apart(text, "/help"@, h);
    lemma_word_apart(text, "/agent"@, h);
}

/// A bare beginning stays where white space is taken from both ends.
proof fn lemma_trim_keeps_bare(b: Seq<char>, rest: Seq<char>)
    requires
        is_bare(b),
    ensures
        b.len() <= trim(b + rest).len(),
        trim(b + rest).take(b.len() as int) == b,
{
    let s = b + rest;
    assert(s[0] == b[0]);
    assert(trim_start(s) == s);
    lemma_trim_end_join(b, rest);
    assert(trim_end(b) == b);
    let t = trim(s);
    assert(t == b || t == b + trim_end(rest));
    assert(t.take(b.len() as int) =~= b);
}

/// The name without the space at its end.
spec fn bare_head(h: Seq<char>) -> Seq<char> {
    h.drop_last()
}

/// No trigger of a plan starts like one of these names.
proof fn lemma_no_trigger(s: Seq<char>, h: Seq<char>)
    requires
        is_late_head(h),
        bare_head(h).len() <= s.len(),
        s.take(bare_head(h).len() as int) == bare_head(h),
    ensures
        !listed(PLAN_TRIGGERS@, lower(trim(s))),
        !listed(PLAN_TRIGGERS@, trim(s)),
{
    lemma_triggers_apart(h);
    lemma_head_starts(h, seq![]);
    let b = bare_head(h);
    let rest = s.skip(b.len() as int);
    assert(s =~= b + rest);
    lemma_trim_keeps_bare(b, rest);
    let t = trim(s);
    assert(starts_with(t, b)) by {
        assert forall|i: int| #![trigger b[i]] 0 <= i < b.len() implies t[i] == b[i] && is_plain(b[i])
            && ascii_lower(b[i]) == b[i] by {
            assert(t.take(b.len() as int)[i] == t[i]);
            assert(b[i] == h[i]);
        }
    }
    lemma_no_word(t, PLAN_TRIGGERS@, b);
    assert forall|i: int| 0 <= i < PLAN_TRIGGERS@.len() implies (#[trigger] PLAN_TRIGGERS@[i])@
        != t by {
        if is_apart(PLAN_TRIGGERS@[i]@, b) {
            lemma_word_apart(t, PLAN_TRIGGERS@[i]@, b);
        }
    }
}

proof fn lemma_no_feed(h: Seq<char>)
    requires
        is_late_head(h),
    ensures
        forall|i: int| 0 <= i < h.len() ==> #[trigger] h[i] != '\n',
        h.len() > 1,
{
    reveal_strlit("/terminal ");
    reveal_strlit("terminal ");
    reveal_strlit("/commit ");
    reveal_strlit("commit ");
    reveal_strlit("提交 ");
    reveal_strlit("git commit ");
    reveal_strlit("/read ");
    reveal_strlit("read ");
    reveal_strlit("读 ");
    reveal_strlit("/ls ");
    reveal_strlit("ls ");
    reveal_strlit("list ");
    reveal_strlit("看 ");
    reveal_strlit("/search ");
    reveal_strlit("search ");
    reveal_strlit("搜 ");
    reveal_strlit("读取文件 ");
    reveal_strlit("读取 ");
    reveal_strlit("打开文件 ");
    reveal_strlit("查看文件 ");
    reveal_strlit("列出目录 ");
    reveal_strlit("查看目录 ");
    reveal_strlit("看看目录 ");
}

proof fn lemma_not_plan(text: Seq<char>, h: Seq<char>)
    requires
        starts_with(text, h),
        is_late_head(h),
    ensures
        plan_intent(text) is None,
{
    lemma_plan_apart(h);
    lemma_no_prefix(text, FIX_PREFIXES@, h);
    lemma_no_word(text, FIX_WORDS@, h);
    lemma_no_prefix(text, PLAN_PREFIXES@, h);
    lemma_no_feed(h);
    let b = bare_head(h);
    if split_once(text, "\n"@) is Some {
        reveal_strlit("\n");
        lemma_find_from(text, "\n"@, 0);
        let i = crate::text::find(text, "\n"@)->0;
        assert(occurs_at(text, "\n"@, i));
        assert(text[i] == text.subrange(i, i + 1)[0]);
        assert(text[i] == '\n');
        assert(i >= h.len()) by {
            if i < h.len() {
                assert(text[i] == h[i]);
            }
        }
        let first = text.take(i);
        assert(first.take(b.len() as int) =~= b) by {
            assert forall|j: int| 0 <= j < b.len() implies first[j] == b[j] by {
                assert(text[j] == h[j]);
            }
        }
        lemma_no_trigger(first, h);
    }
    lemma_lower_starts(text, h);
    let low = lower(text);
    assert(low.take(b.len() as int) =~= b) by {
        assert forall|j: int| 0 <= j < b.len() implies low[j] == b[j] by {
            assert(low[j] == h[j]);
        }
    }
    lemma_no_trigger(low, h);
}

/// A text that starts with the name of an action is left to the actions.
proof fn lemma_left_to_actions(text: Seq<char>, h: Seq<char>)
    requires
        starts_with(text, h),
        is_action_head(h),
        literal_action(text) is Some,
    ensures
        forall|inferred: Option<IntentView>|
            #[trigger] intent_of(text, inferred) == literal_action(text),
        unclassified(text) is None,
{
    lemma_not_session(text, h);
    lemma_not_plan(text, h);
    lemma_loop_apart(h);
    lemma_edit_apart(h);
    lemma_no_word(text, BUILD_WORDS@, h);
    lemma_no_word(text, RESTART_WORDS@, h);
    lemma_no_word(text, LOG_WORDS@, h);
    lemma_no_prefix(text, TERMINAL_PREFIXES@, h);
    lemma_no_word(text, CONFIRM_WORDS@, h);
    lemma_no_word(text, CANCEL_WORDS@, h);
    lemma_no_prefix(text, COMMIT_PREFIXES@, h);
    lemma_no_word(text, PUSH_WORDS@, h);
    lemma_word_apart(text, "/write "@, h);
    lemma_word_apart(text, "/replace "@, h);
    assert(loop_intent(text) is None);
    assert(edit_intent(text) is None);
}

// ---------------------------------------------------------------------------
// What the names mean
// ---------------------------------------------------------------------------

/// Every name for reading a file reads the file that is named behind it.
pub proof fn every_read_name_reads(
    h: Seq<char>,
    lead: Seq<char>,
    path: Seq<char>,
    tail: Seq<char>,
    inferred: Option<IntentView>,
)
    requires
        is_read_head(h),
        all_space(lead),
        is_bare(path),
        all_space(tail),
    ensures
        intent_of(h + (lead + path + tail), inferred) == Some(IntentView::Read(path)),
        unclassified(h + (lead + path + tail)) is None,
{
    let rest = lead + path + tail;
    let text = h + rest;
    lemma_head_starts(h, rest);
    trimming_keeps_the_rest(lead, path, tail);
    let all = READ_PREFIXES@;
    let k = lemma_read_place(h);
    lemma_own_prefix(text, all, h, rest, k);
    lemma_left_to_actions(text, h);
}

/// Every name for listing a directory lists the directory that is named behind it.
pub proof fn every_list_name_lists(
    h: Seq<char>,
    lead: Seq<char>,
    path: Seq<char>,
    tail: Seq<char>,
    inferred: Option<IntentView>,
)
    requires
        is_list_head(h),
        all_space(lead),
        is_bare(path),
        all_space(tail),
    ensures
        intent_of(h + (lead + path + tail), inferred) == Some(IntentView::List(path)),
        unclassified(h + (lead + path + tail)) is None,
{
    let rest = lead + path + tail;
    let text = h + rest;
    lemma_head_starts(h, rest);
    trimming_keeps_the_rest(lead, path, tail);
    let all = LIST_PREFIXES@;
    let k = lemma_list_place(h);
    lemma_own_prefix(text, all, h, rest, k);
    lemma_list_apart(h);
    lemma_no_prefix(text, READ_PREFIXES@, h);
    lemma_left_to_actions(text, h);
}

/// Every name for a search searches the path behind it for the query behind that.
pub proof fn every_search_name_searches(
    h: Seq<char>,
    path: Seq<char>,
    lead: Seq<char>,
    query: Seq<char>,
    tail: Seq<char>,
    inferred: Option<IntentView>,
)
    requires
        is_search_head(h),
        is_bare(path),
        !path.contains(' '),
        all_space(lead),
        is_bare(query),
        all_space(tail),
    ensures
        intent_of(h + (path + " "@ + (lead + query + tail)), inferred) == Some(
            IntentView::Search { path, query },
        ),
        unclassified(h + (path + " "@ + (lead + query + tail))) is None,
{
    reveal_strlit(" ");
    let behind = lead + query + tail;
    let rest = path + " "@ + behind;
    let text = h + rest;
    lemma_head_starts(h, rest);
    let all = SEARCH_PREFIXES@;
    let k = lemma_search_place(h);
    lemma_own_prefix(text, all, h, rest, k);
    lemma_list_apart(h);
    lemma_search_apart(h);
    lemma_no_prefix(text, READ_PREFIXES@, h);
    lemma_no_prefix(text, LIST_PREFIXES@, h);
    assert(stands_first_behind(path, " "@)) by {
        assert forall|i: int| 0 <= i < path.len() implies (#[trigger] (path + " "@).skip(i)).take(1)
            != " "@ by {
            assert((path + " "@).skip(i).take(1)[0] == path[i]);
            assert(path.contains(path[i]));
        }
    }
    text_is_parted(rest, path, " "@, behind);
    trimming_keeps_the_rest(lead, query, tail);
    trimming_keeps_the_rest(seq![], path, seq![]);
    assert(Seq::<char>::empty() + path + Seq::<char>::empty() =~= path);
    assert(literal_action(text) == Some(IntentView::Search { path, query }));
    lemma_left_to_actions(text, h);
}

/// Every name for a terminal command runs the command behind it.
pub proof fn every_terminal_name_runs(
    h: Seq<char>,
    lead: Seq<char>,
    command: Seq<char>,
    tail: Seq<char>,
    inferred: Option<IntentView>,
)
    requires
        is_terminal_head(h),
        all_space(lead),
        is_bare(command),
        all_space(tail),
    ensures
        intent_of(h + (lead + command + tail), inferred) == Some(IntentView::TerminalRun(command)),
        unclassified(h + (lead + command + tail)) is None,
{
    let rest = lead + command + tail;
    let text = h + rest;
    lemma_head_starts(h, rest);
    trimming_keeps_the_rest(lead, command, tail);
    let all = TERMINAL_PREFIXES@;
    let k = lemma_terminal_place(h);
    lemma_own_prefix(text, all, h, rest, k);
    lemma_not_session(text, h);
    lemma_not_plan(text, h);
    lemma_build_apart(h);
    lemma_no_word(text, BUILD_WORDS@, h);
    lemma_no_word(text, RESTART_WORDS@, h);
    lemma_no_word(text, LOG_WORDS@, h);
}

/// Every name for a commit commits with the message behind it, and with a message of its
/// own where there is none.
pub proof fn every_commit_name_commits(
    h: Seq<char>,
    lead: Seq<char>,
    message: Seq<char>,
    tail: Seq<char>,
    inferred: Option<IntentView>,
)
    requires
        is_commit_head(h),
        all_space(lead),
        is_bare(message),
        all_space(tail),
    ensures
        intent_of(h + (lead + message + tail), inferred) == Some(IntentView::GitCommit(message)),
        intent_of(h + (lead + tail), inferred) == Some(
            IntentView::GitCommit("feishu: auto-commit"@),
        ),
{
    trimming_keeps_the_rest(lead, message, tail);
    lemma_commit(h, lead + message + tail, inferred);
    lemma_commit(h, lead + tail, inferred);
}

proof fn lemma_commit(h: Seq<char>, rest: Seq<char>, inferred: Option<IntentView>)
    requires
        is_commit_head(h),
    ensures
        intent_of(h + rest, inferred) == Some(
            IntentView::GitCommit(
                if trim(rest).len() == 0 {
                    "feishu: auto-commit"@
                } else {
                    trim(rest)
                },
            ),
        ),
{
    let text = h + rest;
    lemma_head_starts(h, rest);
    let all = COMMIT_PREFIXES@;
    let k = lemma_commit_place(h);
    lemma_own_prefix(text, all, h, rest, k);
    lemma_not_session(text, h);
    lemma_not_plan(text, h);
    lemma_loop_apart(h);
    lemma_no_word(text, BUILD_WORDS@, h);
    lemma_no_word(text, RESTART_WORDS@, h);
    lemma_no_word(text, LOG_WORDS@, h);
    lemma_no_prefix(text, TERMINAL_PREFIXES@, h);
    lemma_no_word(text, CONFIRM_WORDS@, h);
    lemma_no_word(text, CANCEL_WORDS@, h);
}

/// Every name for a fix asks for one, with what stands behind it as the note.
pub proof fn every_fix_name_fixes(
    h: Seq<char>,
    lead: Seq<char>,
    note: Seq<char>,
    tail: Seq<char>,
    inferred: Option<IntentView>,
)
    requires
        is_fix_head(h),
        all_space(lead),
        is_bare(note),
        all_space(tail),
    ensures
        intent_of(h + (lead + note + tail), inferred) == Some(IntentView::AgentFix(note)),
        unclassified(h + (lead + note + tail)) is None,
{
    let rest = lead + note + tail;
    let text = h + rest;
    lemma_head_starts(h, rest);
    trimming_keeps_the_rest(lead, note, tail);
    let all = FIX_PREFIXES@;
    let k = lemma_fix_place(h);
    lemma_own_prefix(text, all, h, rest, k);
    lemma_not_session(text, h);
}

/// Every name for a plan sets the plan that is written behind it.
pub proof fn every_plan_name_plans(h: Seq<char>, body: Seq<char>, inferred: Option<IntentView>)
    requires
        is_plan_head(h),
    ensures
        intent_of(h + body, inferred) == Some(
            IntentView::SetPlan { description: plan_task(body), steps: plan_steps(body) },
        ),
        unclassified(h + body) is None,
{
    let text = h + body;
    lemma_head_starts(h, body);
    let all = PLAN_PREFIXES@;
    let k = lemma_plan_place(h);
    lemma_own_prefix(text, all, h, body, k);
    lemma_not_session(text, h);
    lemma_fix_apart(h);
    lemma_no_prefix(text, FIX_PREFIXES@, h);
    lemma_no_word(text, FIX_WORDS@, h);
}

/// Every name for loading a session loads the one that is named behind it.
pub proof fn every_load_name_loads(
    h: Seq<char>,
    lead: Seq<char>,
    id: Seq<char>,
    tail: Seq<char>,
    inferred: Option<IntentView>,
)
    requires
        is_load_head(h),
        all_space(lead),
        is_bare(id),
        all_space(tail),
    ensures
        intent_of(h + (lead + id + tail), inferred) == Some(IntentView::SessionLoad(id)),
{
    let rest = lead + id + tail;
    let text = h + rest;
    lemma_head_starts(h, rest);
    trimming_keeps_the_rest(lead, id, tail);
    let all = SESSION_LOAD_PREFIXES@;
    let k = lemma_load_place(h);
    lemma_own_prefix(text, all, h, rest, k);
    lemma_not_session_word(text, h);
}

proof fn lemma_not_session_word(text: Seq<char>, h: Seq<char>)
    requires
        starts_with(text, h),
        is_load_head(h) || is_save_head(h),
    ensures
        !listed(CONTINUE_WORDS@, lower(text)),
        !listed(CONTINUE_ALL_WORDS@, lower(text)),
        !listed(RETRY_WORDS@, lower(text)),
        !listed(STATUS_WORDS@, lower(text)),
        !listed(SESSION_LIST_WORDS@, lower(text)),
        text.len() > 0,
{
    lemma_kept_apart(h);
    lemma_head_starts(h, text.skip(h.len() as int));
    lemma_no_word(text, CONTINUE_WORDS@, h);
    lemma_no_word(text, CONTINUE_ALL_WORDS@, h);
    lemma_no_word(text, RETRY_WORDS@, h);
    lemma_no_word(text, STATUS_WORDS@, h);
    lemma_no_word(text, SESSION_LIST_WORDS@, h);
}

/// Every name for saving a session saves it under the label behind it.
pub proof fn every_save_name_saves(
    h: Seq<char>,
    lead: Seq<char>,
    label: Seq<char>,
    tail: Seq<char>,
    inferred: Option<IntentView>,
)
    requires
        is_save_head(h),
        all_space(lead),
        is_bare(label),
        all_space(tail),
    ensures
        intent_of(h + (lead + label + tail), inferred) == Some(
            IntentView::SessionSave(Some(label)),
        ),
{
    let rest = lead + label + tail;
    let text = h + rest;
    lemma_head_starts(h, rest);
    trimming_keeps_the_rest(lead, label, tail);
    let all = SESSION_SAVE_PREFIXES@;
    let k = lemma_save_place(h);
    lemma_own_prefix(text, all, h, rest, k);
    lemma_not_session_word(text, h);
    lemma_save_apart(h);
    lemma_no_prefix(text, SESSION_LOAD_PREFIXES@, h);
    lemma_no_word(text, SESSION_SAVE_WORDS@, h);
}

/// Whether a text is plain and in lower case.
pub open spec fn is_low(s: Seq<char>) -> bool {
    forall|i: int|
        0 <= i < s.len() ==> is_plain(#[trigger] s[i]) && ascii_lower(s[i]) == s[i]
}

proof fn lemma_low_text(h: Seq<char>, s: Seq<char>)
    requires
        starts_with(h + s, h),
        is_low(s),
    ensures
        lower(h + s) == h + s,
{
    let text = h + s;
    assert forall|i: int| 0 <= i < text.len() implies is_plain(#[trigger] text[i]) && ascii_lower(
        text[i],
    ) == text[i] by {
        if i < h.len() {
            assert(text[i] == h[i]);
        } else {
            assert(text[i] == s[i - h.len()]);
        }
    }
    plain_text_is_lowered(text);
    assert(lower(text) =~= text);
}

proof fn lemma_no_command(text: Seq<char>, h: Seq<char>)
    requires
        starts_with(text, h),
        is_phrase_head(h),
    ensures
        crate::actionwords::command_action(text) is None,
{
    lemma_command_apart(h);
    lemma_no_prefix(text, READ_PREFIXES@, h);
    lemma_no_prefix(text, LIST_PREFIXES@, h);
    lemma_no_prefix(text, SEARCH_PREFIXES@, h);
    lemma_no_prefix(text, DIFF_PREFIXES@, h);
    lemma_no_prefix(text, TEST_PREFIXES@, h);
    lemma_word_apart(text, "/patch "@, h);
    lemma_word_apart(text, "跑测试"@, h);
}

/// The phrases for reading a file and for listing a directory are about the path behind
/// them. They are taken in lower case; a path in lower case is kept as it is.
pub proof fn every_phrase_is_about_its_path(
    h: Seq<char>,
    path: Seq<char>,
    inferred: Option<IntentView>,
)
    requires
        is_read_phrase_head(h) || is_list_phrase_head(h),
        is_bare(path),
        is_low(path),
    ensures
        is_read_phrase_head(h) ==> intent_of(h + path, inferred) == Some(IntentView::Read(path)),
        is_list_phrase_head(h) ==> intent_of(h + path, inferred) == Some(IntentView::List(path)),
        unclassified(h + path) is None,
{
    let text = h + path;
    lemma_head_starts(h, path);
    lemma_low_text(h, path);
    lemma_no_command(text, h);
    trimming_keeps_the_rest(seq![], path, seq![]);
    assert(Seq::<char>::empty() + path + Seq::<char>::empty() =~= path);
    if is_read_phrase_head(h) {
        let k = lemma_read_phrase_place(h);
        lemma_own_prefix(text, READ_PHRASES@, h, path, k);
    }
    if is_list_phrase_head(h) {
        let k = lemma_list_phrase_place(h);
        lemma_own_prefix(text, LIST_PHRASES@, h, path, k);
        lemma_list_phrase_apart(h);
        lemma_no_prefix(text, READ_PHRASES@, h);
    }
    lemma_left_to_actions(text, h);
}

} // verus!
