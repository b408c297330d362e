//! What can be relied on about the commands: what stands behind the name of a command is
//! what is done, character by character.

use crate::actionwords::{
    literal_action, DIFF_PREFIXES, LIST_PREFIXES, READ_PREFIXES, SEARCH_PREFIXES, TEST_PREFIXES,
};
use crate::intent::IntentView;
use crate::parser::{
    edit_intent, intent_of, loop_intent, plan_intent, replacement, session_intent, unclassified,
    BUILD_WORDS, CANCEL_WORDS, CLEAR_WORDS, CODING_WORDS, COMMIT_PREFIXES, CONFIRM_WORDS,
    CONTINUE_ALL_WORDS, CONTINUE_WORDS, FIX_PREFIXES, FIX_WORDS, HELP_WORDS, LOG_WORDS, NEWLINES,
    PLANNING_WORDS, PLAN_PREFIXES, PLAN_TRIGGERS, PUSH_WORDS, RESTART_WORDS, RETRY_WORDS,
    SESSION_LIST_WORDS, SESSION_LOAD_PREFIXES, SESSION_SAVE_PREFIXES, SESSION_SAVE_WORDS,
    STATUS_WORDS, TERMINAL_PREFIXES,
};
use crate::plan::{plan_steps, plan_task};
use crate::text::{
    after_any, after_any_ci, after_prefix, after_prefix_ci, all_space, ascii_lower, before_suffix,
    is_bare, is_prefix_ci, is_space, lemma_find_from, listed, occurs_at, rest_is_kept, split_once,
    stands_first_behind, text_is_parted, trim, trim_start_set, trimming_keeps_the_rest,
};
use crate::unicode::{
    all_plain, is_plain, lower, lower_keeps_plain_start, plain_text_is_lowered,
};
use vstd::prelude::*;

verus! {

// ---------------------------------------------------------------------------
// How commands start
// ---------------------------------------------------------------------------

/// Whether these are the three characters behind the slash.
spec fn is_own(h: Seq<char>, a: char, b: char, c: char) -> bool {
    h[1] == a && h[2] == b && h[3] == c
}

/// The first four characters of the commands that are looked at here.
spec fn is_head(h: Seq<char>) -> bool {
    &&& h.len() == 4
    &&& h[0] == '/'
    &&& {
        ||| is_own(h, 'r', 'e', 'p')
        ||| is_own(h, 'w', 'r', 'i')
        ||| is_own(h, 'p', 'a', 't')
        ||| is_own(h, 'p', 'l', 'a')
        ||| is_own(h, 'r', 'e', 'a')
        ||| is_own(h, 'l', 's', ' ')
        ||| is_own(h, 's', 'e', 'a')
        ||| is_own(h, 'd', 'i', 'f')
        ||| is_own(h, 't', 'e', 's')
        ||| is_own(h, 'c', 'o', 'm')
        ||| is_own(h, 's', 'e', 's')
    }
}

/// Whether a word differs from `h` in one of the first characters, in any case.
spec fn is_apart(word: Seq<char>, h: Seq<char>) -> bool {
    ||| word.len() > 0 && ascii_lower(word[0]) != h[0]
    ||| word.len() > 1 && ascii_lower(word[1]) != h[1]
    ||| word.len() > 2 && ascii_lower(word[2]) != h[2]
    ||| word.len() > 3 && ascii_lower(word[3]) != h[3]
}

/// Whether every word does.
spec fn all_apart(words: Seq<&'static str>, h: Seq<char>) -> bool {
    forall|i: int| 0 <= i < words.len() ==> is_apart((#[trigger] words[i])@, h)
}

/// Whether a text starts with `h`, in any case.
spec fn starts_like(text: Seq<char>, h: Seq<char>) -> bool {
    &&& text.len() >= 4
    &&& h.len() == 4
    &&& is_plain(text[0]) && ascii_lower(text[0]) == h[0]
    &&& is_plain(text[1]) && ascii_lower(text[1]) == h[1]
    &&& is_plain(text[2]) && ascii_lower(text[2]) == h[2]
    &&& is_plain(text[3]) && ascii_lower(text[3]) == h[3]
}

/// No other word about the session starts like these commands.
proof fn lemma_session_lists(h: Seq<char>)
    requires
        is_head(h),
    ensures
        all_apart(CONTINUE_WORDS@, h),
        all_apart(CONTINUE_ALL_WORDS@, h),
        all_apart(RETRY_WORDS@, h),
        all_apart(STATUS_WORDS@, h),
        all_apart(SESSION_LIST_WORDS@, h),
        !is_own(h, 's', 'e', 's') ==> all_apart(SESSION_LOAD_PREFIXES@, h),
        !is_own(h, 's', 'e', 's') ==> all_apart(SESSION_SAVE_WORDS@, h),
        !is_own(h, 's', 'e', 's') ==> all_apart(SESSION_SAVE_PREFIXES@, h),
        all_apart(CLEAR_WORDS@, h),
        all_apart(CODING_WORDS@, h),
        all_apart(PLANNING_WORDS@, h),
        all_apart(HELP_WORDS@, h),
        is_apart("/help"@, h),
        is_apart("/agent"@, h),
{
    reveal_strlit("继续");
    reveal_strlit("continue");
    reveal_strlit("继续执行");
    reveal_strlit("下一步");
    reveal_strlit("执行全部");
    reveal_strlit("全部执行");
    reveal_strlit("run all");
    reveal_strlit("执行所有步骤");
    reveal_strlit("全部继续");
    reveal_strlit("一键执行");
    reveal_strlit("重试");
    reveal_strlit("retry");
    reveal_strlit("再试一次");
    reveal_strlit("再来一次");
    reveal_strlit("状态");
    reveal_strlit("status");
    reveal_strlit("进展");
    reveal_strlit("现在做什么");
    reveal_strlit("当前任务");
    reveal_strlit("会话列表");
    reveal_strlit("session list");
    reveal_strlit("sessions");
    reveal_strlit("历史会话");
    reveal_strlit("查看会话");
    reveal_strlit("载入会话 ");
    reveal_strlit("恢复会话 ");
    reveal_strlit("session load ");
    reveal_strlit("/session load ");
    reveal_strlit("切换会话 ");
    reveal_strlit("保存会话");
    reveal_strlit("session save");
    reveal_strlit("/session save");
    reveal_strlit("保存会话 ");
    reveal_strlit("session save ");
    reveal_strlit("/session save ");
    reveal_strlit("清除");
    reveal_strlit("clear");
    reveal_strlit("清除会话");
    reveal_strlit("reset");
    reveal_strlit("重置");
    reveal_strlit("编码模式");
    reveal_strlit("切换编码");
    reveal_strlit("switch coding");
    reveal_strlit("coding mode");
    reveal_strlit("coding");
    reveal_strlit("规划模式");
    reveal_strlit("切换规划");
    reveal_strlit("switch planning");
    reveal_strlit("planning mode");
    reveal_strlit("planning");
    reveal_strlit("help");
    reveal_strlit("帮助");
    reveal_strlit("/help");
    reveal_strlit("/agent");
}

/// No other word about fixes and plans starts like these commands.
proof fn lemma_plan_lists(h: Seq<char>)
    requires
        is_head(h),
    ensures
        all_apart(FIX_PREFIXES@, h),
        all_apart(FIX_WORDS@, h),
        !is_own(h, 'p', 'l', 'a') ==> all_apart(PLAN_PREFIXES@, h),
        !is_own(h, 'p', 'l', 'a') ==> all_apart(PLAN_TRIGGERS@, h),
{
    reveal_strlit("/fix ");
    reveal_strlit("/fix:");
    reveal_strlit("fix ");
    reveal_strlit("修复 ");
    reveal_strlit("/fix");
    reveal_strlit("fix");
    reveal_strlit("修复");
    reveal_strlit("修复这个");
    reveal_strlit("/plan ");
    reveal_strlit("plan ");
    reveal_strlit("计划 ");
    reveal_strlit("规划 ");
    reveal_strlit("/计划 ");
    reveal_strlit("/规划 ");
    reveal_strlit("做计划 ");
    reveal_strlit("做规划 ");
    reveal_strlit("plan");
    reveal_strlit("计划");
    reveal_strlit("规划");
    reveal_strlit("/plan");
    reveal_strlit("/计划");
    reveal_strlit("/规划");
}

/// No other word of the development loop starts like these commands.
proof fn lemma_loop_lists(h: Seq<char>)
    requires
        is_head(h),
    ensures
        all_apart(BUILD_WORDS@, h),
        all_apart(RESTART_WORDS@, h),
        all_apart(LOG_WORDS@, h),
        all_apart(TERMINAL_PREFIXES@, h),
        all_apart(CONFIRM_WORDS@, h),
        all_apart(CANCEL_WORDS@, h),
        !is_own(h, 'c', 'o', 'm') ==> all_apart(COMMIT_PREFIXES@, h),
        all_apart(PUSH_WORDS@, h),
{
    reveal_strlit("build");
    reveal_strlit("/build");
    reveal_strlit("编译");
    reveal_strlit("构建");
    reveal_strlit("restart");
    reveal_strlit("/restart");
    reveal_strlit("重启");
    reveal_strlit("重启服务");
    reveal_strlit("rebuild");
    reveal_strlit("/rebuild");
    reveal_strlit("logs");
    reveal_strlit("/logs");
    reveal_strlit("日志");
    reveal_strlit("查看日志");
    reveal_strlit("最新日志");
    reveal_strlit("错误日志");
    reveal_strlit("/terminal ");
    reveal_strlit("terminal ");
    reveal_strlit("确认执行");
    reveal_strlit("confirm");
    reveal_strlit("/confirm");
    reveal_strlit("yes");
    reveal_strlit("取消执行");
    reveal_strlit("cancel");
    reveal_strlit("/cancel");
    reveal_strlit("no");
    reveal_strlit("/commit ");
    reveal_strlit("commit ");
    reveal_strlit("提交 ");
    reveal_strlit("git commit ");
    reveal_strlit("push");
    reveal_strlit("/push");
    reveal_strlit("推送");
    reveal_strlit("git push");
}

/// No other word for an edit or an action starts like these commands.
proof fn lemma_action_lists(h: Seq<char>)
    requires
        is_head(h),
    ensures
        !is_own(h, 'r', 'e', 'a') ==> all_apart(READ_PREFIXES@, h),
        !is_own(h, 'l', 's', ' ') ==> all_apart(LIST_PREFIXES@, h),
        !is_own(h, 's', 'e', 'a') ==> all_apart(SEARCH_PREFIXES@, h),
        !is_own(h, 'd', 'i', 'f') ==> all_apart(DIFF_PREFIXES@, h),
        !is_own(h, 't', 'e', 's') ==> all_apart(TEST_PREFIXES@, h),
        !is_own(h, 'w', 'r', 'i') ==> is_apart("/write "@, h),
        !is_own(h, 'r', 'e', 'p') ==> is_apart("/replace "@, h),
        !is_own(h, 'p', 'a', 't') ==> is_apart("/patch "@, h),
{
    reveal_strlit("/read ");
    reveal_strlit("read ");
    reveal_strlit("读 ");
    reveal_strlit("/ls ");
    reveal_strlit("ls ");
    reveal_strlit("list ");
    reveal_strlit("看 ");
    reveal_strlit("/search ");
    reveal_strlit("search ");
    reveal_strlit("搜 ");
    reveal_strlit("/diff");
    reveal_strlit("diff");
    reveal_strlit("/test");
    reveal_strlit("test");
    reveal_strlit("/write ");
    reveal_strlit("/replace ");
    reveal_strlit("/patch ");
}

proof fn lemma_lower_starts(text: Seq<char>, h: Seq<char>)
    requires
        starts_like(text, h),
    ensures
        lower(text).len() >= 4,
        lower(text).take(4) == h,
        starts_like(lower(text), h),
{
    let head = text.take(4);
    assert(all_plain(head));
    lower_keeps_plain_start(text, head);
    plain_text_is_lowered(head);
    assert(lower(head) =~= h);
    assert(lower(text).take(4) =~= h);
    assert(h[0] == lower(text)[0] && h[1] == lower(text)[1] && h[2] == lower(text)[2] && h[3]
        == lower(text)[3]);
}

proof fn lemma_word_apart(text: Seq<char>, word: Seq<char>, h: Seq<char>)
    requires
        starts_like(text, h),
        is_apart(word, h),
    ensures
        text != word,
        lower(text) != word,
        !word.is_prefix_of(text),
        !word.is_prefix_of(lower(text)),
        !is_prefix_ci(word, text),
        after_prefix(text, word) is None,
        after_prefix_ci(text, word) is None,
{
    lemma_lower_starts(text, h);
    let low = lower(text);
    assert(low[0] == h[0] && low[1] == h[1] && low[2] == h[2] && low[3] == h[3]) by {
        assert(low.take(4)[0] == low[0] && low.take(4)[1] == low[1] && low.take(4)[2] == low[2]
            && low.take(4)[3] == low[3]);
    }
    let i: int = if word.len() > 0 && ascii_lower(word[0]) != h[0] {
        0
    } else if word.len() > 1 && ascii_lower(word[1]) != h[1] {
        1
    } else if word.len() > 2 && ascii_lower(word[2]) != h[2] {
        2
    } else {
        3
    };
    assert(ascii_lower(word[i]) != ascii_lower(text[i]));
    assert(ascii_lower(low[i]) == low[i]);
    if word.is_prefix_of(low) {
        assert(word[i] == low[i]);
    }
    if word.is_prefix_of(text) {
        assert(word[i] == text[i]);
    }
}

/// A text that starts otherwise than all of some words is none of them, nor starts with
/// one.
proof fn lemma_apart(text: Seq<char>, words: Seq<&'static str>, h: Seq<char>)
    requires
        starts_like(text, h),
        all_apart(words, h),
    ensures
        !listed(words, lower(text)),
        after_any(text, words) is None,
        after_any(lower(text), words) is None,
        after_any_ci(text, words) is None,
    decreases words.len(),
{
    if words.len() > 0 {
        lemma_word_apart(text, words[0]@, h);
        let rest = words.skip(1);
        assert forall|i: int| 0 <= i < rest.len() implies is_apart((#[trigger] rest[i])@, h) by {
            assert(rest[i] == words[i + 1]);
        }
        lemma_apart(text, rest, h);
        assert forall|i: int| 0 <= i < words.len() implies (#[trigger] words[i])@ != lower(text) by {
            lemma_word_apart(text, words[i]@, h);
        }
    }
}

proof fn lemma_trim_keeps_start(s: Seq<char>)
    requires
        s.len() >= 3,
        !is_space(s[0]),
        !is_space(s[1]),
        !is_space(s[2]),
    ensures
        trim(s).len() >= 3,
        trim(s).take(3) == s.take(3),
    decreases s.len(),
{
    if is_space(s.last()) {
        assert(s.len() > 3);
        lemma_trim_keeps_start(s.drop_last());
        assert(trim(s) == trim(s.drop_last()));
        assert(s.drop_last().take(3) =~= s.take(3));
    }
}

/// No trigger of a plan is a text that starts like these commands, whatever of it the
/// white space leaves.
proof fn lemma_no_trigger(s: Seq<char>, h: Seq<char>)
    requires
        is_head(h),
        !is_own(h, 'p', 'l', 'a'),
        s.len() >= 3,
        is_plain(s[0]) && ascii_lower(s[0]) == h[0],
        is_plain(s[1]) && ascii_lower(s[1]) == h[1],
        is_plain(s[2]) && ascii_lower(s[2]) == h[2],
    ensures
        !listed(PLAN_TRIGGERS@, lower(trim(s))),
{
    reveal_strlit("plan");
    reveal_strlit("计划");
    reveal_strlit("规划");
    reveal_strlit("/plan");
    reveal_strlit("/计划");
    reveal_strlit("/规划");
    lemma_trim_keeps_start(s);
    let bare = trim(s);
    assert(bare[0] == bare.take(3)[0] && bare[1] == bare.take(3)[1] && bare[2] == bare.take(3)[2]);
    let head = bare.take(3);
    assert(all_plain(head));
    lower_keeps_plain_start(bare, head);
    plain_text_is_lowered(head);
    let low = lower(bare);
    assert(low[0] == lower(head)[0] && low[1] == lower(head)[1] && low[2] == lower(head)[2]);
    assert forall|i: int| 0 <= i < PLAN_TRIGGERS@.len() implies (#[trigger] PLAN_TRIGGERS@[i])@
        != low by {}
}

proof fn lemma_not_plan(text: Seq<char>, h: Seq<char>)
    requires
        starts_like(text, h),
        is_head(h),
        !is_own(h, 'p', 'l', 'a'),
    ensures
        plan_intent(text) is None,
{
    lemma_plan_lists(h);
    lemma_apart(text, FIX_PREFIXES@, h);
    lemma_apart(text, FIX_WORDS@, h);
    lemma_apart(text, PLAN_PREFIXES@, h);
    if split_once(text, "\n"@) is Some {
        reveal_strlit("\n");
        lemma_find_from(text, "\n"@, 0);
        let i = crate::text::find(text, "\n"@)->0;
        assert(occurs_at(text, "\n"@, i));
        assert(text[i] == text.subrange(i, i + 1)[0]);
        assert(text[i] == '\n');
        lemma_no_trigger(text.take(i), h);
    }
    lemma_lower_starts(text, h);
    let low = lower(text);
    assert(low[0] == low.take(4)[0] && low[1] == low.take(4)[1] && low[2] == low.take(4)[2]);
    lemma_trim_keeps_start(low);
    let bare = trim(low);
    assert(bare[0] == bare.take(3)[0] && bare[1] == bare.take(3)[1] && bare[2] == bare.take(3)[2]);
    assert(low.take(3)[0] == h[0] && low.take(3)[1] == h[1] && low.take(3)[2] == h[2]);
    reveal_strlit("plan");
    reveal_strlit("计划");
    reveal_strlit("规划");
    reveal_strlit("/plan");
    reveal_strlit("/计划");
    reveal_strlit("/规划");
    assert forall|i: int| 0 <= i < PLAN_TRIGGERS@.len() implies (#[trigger] PLAN_TRIGGERS@[i])@
        != bare by {}
}

proof fn lemma_not_session(text: Seq<char>, h: Seq<char>)
    requires
        starts_like(text, h),
        is_head(h),
        !is_own(h, 's', 'e', 's'),
    ensures
        session_intent(text) is None,
        after_prefix_ci(text, "/agent"@) is None,
{
    lemma_session_lists(h);
    lemma_apart(text, CONTINUE_WORDS@, h);
    lemma_apart(text, CONTINUE_ALL_WORDS@, h);
    lemma_apart(text, RETRY_WORDS@, h);
    lemma_apart(text, STATUS_WORDS@, h);
    lemma_apart(text, SESSION_LIST_WORDS@, h);
    lemma_apart(text, SESSION_LOAD_PREFIXES@, h);
    lemma_apart(text, SESSION_SAVE_WORDS@, h);
    lemma_apart(text, SESSION_SAVE_PREFIXES@, h);
    lemma_apart(text, CLEAR_WORDS@, h);
    lemma_apart(text, CODING_WORDS@, h);
    lemma_apart(text, PLANNING_WORDS@, h);
    lemma_apart(text, HELP_WORDS@, h);
    lemma_word_apart(text, "/help"@, h);
    lemma_word_apart(text, "/agent"@, h);
}

proof fn lemma_not_loop(text: Seq<char>, h: Seq<char>)
    requires
        starts_like(text, h),
        is_head(h),
        !is_own(h, 'c', 'o', 'm'),
    ensures
        loop_intent(text) is None,
{
    lemma_loop_lists(h);
    lemma_apart(text, BUILD_WORDS@, h);
    lemma_apart(text, RESTART_WORDS@, h);
    lemma_apart(text, LOG_WORDS@, h);
    lemma_apart(text, TERMINAL_PREFIXES@, h);
    lemma_apart(text, CONFIRM_WORDS@, h);
    lemma_apart(text, CANCEL_WORDS@, h);
    lemma_apart(text, COMMIT_PREFIXES@, h);
    lemma_apart(text, PUSH_WORDS@, h);
}

/// A text that starts like a command for an edit or an action is left to those.
proof fn lemma_left_to_edits(text: Seq<char>, h: Seq<char>)
    requires
        starts_like(text, h),
        is_head(h),
        !is_own(h, 's', 'e', 's'),
        !is_own(h, 'p', 'l', 'a'),
        !is_own(h, 'c', 'o', 'm'),
    ensures
        session_intent(text) is None,
        after_prefix_ci(text, "/agent"@) is None,
        plan_intent(text) is None,
        loop_intent(text) is None,
        forall|inferred: Option<IntentView>| #[trigger]
            intent_of(text, inferred) == (if edit_intent(text) is Some {
                edit_intent(text)
            } else if literal_action(text) is Some {
                literal_action(text)
            } else {
                intent_of(text, inferred)
            }),
        edit_intent(text) is Some || literal_action(text) is Some ==> unclassified(text) is None,
{
    lemma_not_session(text, h);
    lemma_not_plan(text, h);
    lemma_not_loop(text, h);
}

/// A text that starts like a command for an action is left to the actions.
proof fn lemma_left_to_actions(text: Seq<char>, h: Seq<char>)
    requires
        starts_like(text, h),
        is_head(h),
        !is_own(h, 's', 'e', 's'),
        !is_own(h, 'p', 'l', 'a'),
        !is_own(h, 'c', 'o', 'm'),
        !is_own(h, 'w', 'r', 'i'),
        !is_own(h, 'r', 'e', 'p'),
    ensures
        forall|inferred: Option<IntentView>|
            literal_action(text) is Some ==> #[trigger] intent_of(text, inferred) == literal_action(
                text,
            ),
        literal_action(text) is Some ==> unclassified(text) is None,
{
    lemma_left_to_edits(text, h);
    lemma_action_lists(h);
    lemma_word_apart(text, "/write "@, h);
    lemma_word_apart(text, "/replace "@, h);
}

/// Whether `head` is `word` in any case.
pub open spec fn in_any_case(head: Seq<char>, word: Seq<char>) -> bool {
    head.len() == word.len() && forall|i: int|
        0 <= i < word.len() ==> ascii_lower(#[trigger] word[i]) == ascii_lower(head[i])
}

proof fn lemma_head(word: Seq<char>, head: Seq<char>, rest: Seq<char>)
    requires
        word.len() >= 4,
        all_plain(word),
        forall|i: int| 0 <= i < 4 ==> ascii_lower(#[trigger] word[i]) == word[i],
        in_any_case(head, word),
    ensures
        starts_like(head + rest, word.take(4)),
        after_prefix_ci(head + rest, word) == Some(rest),
{
    let text = head + rest;
    assert forall|i: int| 0 <= i < word.len() implies ascii_lower(#[trigger] word[i]) == ascii_lower(
        text[i],
    ) && is_plain(text[i]) by {
        assert(text[i] == head[i]);
        assert(is_plain(word[i]));
    }
    assert(is_prefix_ci(word, text));
    assert(text.skip(word.len() as int) =~= rest);
    assert(is_plain(word[0]) && is_plain(word[1]) && is_plain(word[2]) && is_plain(word[3]));
    assert(word.take(4)[0] == word[0] && word.take(4)[1] == word[1] && word.take(4)[2] == word[2]
        && word.take(4)[3] == word[3]);
}

proof fn lemma_own_head(head: Seq<char>, rest: Seq<char>)
    requires
        head.len() >= 4,
        all_plain(head),
        forall|i: int| 0 <= i < 4 ==> ascii_lower(#[trigger] head[i]) == head[i],
    ensures
        starts_like(head + rest, head.take(4)),
        head.is_prefix_of(head + rest),
        after_prefix(head + rest, head) == Some(rest),
{
    lemma_head(head, head, rest);
    rest_is_kept(rest, head);
    assert((head + rest).take(head.len() as int) =~= head);
}

// ---------------------------------------------------------------------------
// Edits
// ---------------------------------------------------------------------------

proof fn lemma_path_line(lead: Seq<char>, path: Seq<char>, tail: Seq<char>, rest: Seq<char>)
    requires
        all_space(lead),
        is_bare(path),
        all_space(tail),
        !(lead + path + tail).contains('\n'),
    ensures
        split_once(lead + path + tail + "\n"@ + rest, "\n"@) == Some((lead + path + tail, rest)),
        trim(lead + path + tail) == path,
{
    reveal_strlit("\n");
    let first = lead + path + tail;
    assert(stands_first_behind(first, "\n"@)) by {
        assert forall|i: int| 0 <= i < first.len() implies (#[trigger] (first + "\n"@).skip(i)).take(
            1,
        ) != "\n"@ by {
            assert((first + "\n"@).skip(i).take(1)[0] == first[i]);
            assert(first.contains(first[i]));
        }
    }
    text_is_parted(first, first, "\n"@, rest);
    trimming_keeps_the_rest(lead, path, tail);
}

/// A replacement is read as it is written: between `<<<` and `===` stands the old text,
/// between `===` and `>>>` the new one, and both are taken whole, white space with the
/// rest.
pub proof fn replacement_is_read_whole(
    lead: Seq<char>,
    path: Seq<char>,
    tail: Seq<char>,
    old_text: Seq<char>,
    new_text: Seq<char>,
)
    requires
        all_space(lead),
        is_bare(path),
        all_space(tail),
        !(lead + path + tail).contains('\n'),
        old_text.len() > 0,
        old_text[0] != '\n',
        stands_first_behind(old_text, "\n===\n"@),
    ensures
        replacement(
            lead + path + tail + "\n<<<\n"@ + old_text + "\n===\n"@ + new_text + "\n>>>"@,
        ) == Some(IntentView::ReplaceInFile { path, old_text, new_text }),
{
    reveal_strlit("\n");
    reveal_strlit("\n<<<\n");
    reveal_strlit("<<<");
    reveal_strlit("\n===\n");
    let first = lead + path + tail;
    let behind = new_text + "\n>>>"@;
    let texts = old_text + "\n===\n"@ + behind;
    let body = "<<<"@ + (seq!['\n'] + texts);
    let rest = first + "\n<<<\n"@ + old_text + "\n===\n"@ + new_text + "\n>>>"@;
    assert(rest =~= first + "\n"@ + body);
    lemma_path_line(lead, path, tail, body);
    rest_is_kept(seq!['\n'] + texts, "<<<"@);
    lemma_newlines_go(seq!['\n'], texts);
    text_is_parted(texts, old_text, "\n===\n"@, behind);
    rest_is_kept(new_text, "\n>>>"@);
}

proof fn lemma_newlines_go(feeds: Seq<char>, s: Seq<char>)
    requires
        forall|i: int| 0 <= i < feeds.len() ==> #[trigger] feeds[i] == '\n',
        s.len() > 0,
        s[0] != '\n',
    ensures
        trim_start_set(feeds + s, NEWLINES@) == s,
    decreases feeds.len(),
{
    assert(NEWLINES@ =~= seq!['\n']);
    if feeds.len() == 0 {
        assert(feeds + s =~= s);
    } else {
        assert((feeds + s)[0] == feeds[0]);
        assert(NEWLINES@.contains('\n')) by {
            assert(NEWLINES@[0] == '\n');
        }
        assert((feeds + s).skip(1) =~= feeds.skip(1) + s);
        assert forall|i: int| 0 <= i < feeds.skip(1).len() implies #[trigger] feeds.skip(1)[i]
            == '\n' by {
            assert(feeds[i + 1] == '\n');
        }
        lemma_newlines_go(feeds.skip(1), s);
    }
}

/// A replacement without the two outer marks is read the same way, as far as its texts
/// do not look like the marks.
pub proof fn bare_replacement_is_read_whole(
    lead: Seq<char>,
    path: Seq<char>,
    tail: Seq<char>,
    old_text: Seq<char>,
    new_text: Seq<char>,
)
    requires
        all_space(lead),
        is_bare(path),
        all_space(tail),
        !(lead + path + tail).contains('\n'),
        old_text.len() > 0,
        old_text[0] != '\n',
        old_text[0] != '<',
        stands_first_behind(old_text, "\n===\n"@),
        new_text.len() == 0 || new_text.last() != '>',
    ensures
        replacement(lead + path + tail + "\n"@ + old_text + "\n===\n"@ + new_text) == Some(
            IntentView::ReplaceInFile { path, old_text, new_text },
        ),
{
    reveal_strlit("\n");
    reveal_strlit("<<<");
    reveal_strlit("\n===\n");
    reveal_strlit("\n>>>");
    let first = lead + path + tail;
    let texts = old_text + "\n===\n"@ + new_text;
    let rest = first + "\n"@ + old_text + "\n===\n"@ + new_text;
    assert(rest =~= first + "\n"@ + texts);
    lemma_path_line(lead, path, tail, texts);
    assert(texts[0] == old_text[0]);
    if "<<<"@.is_prefix_of(texts) {
        assert(texts[0] == "<<<"@[0]);
    }
    lemma_newlines_go(seq![], texts);
    assert(Seq::<char>::empty() + texts =~= texts);
    text_is_parted(texts, old_text, "\n===\n"@, new_text);
    if "\n>>>"@.is_suffix_of(new_text) {
        assert(new_text.last() == "\n>>>"@.last());
    }
    assert(before_suffix(new_text, "\n>>>"@) is None);
}

/// A text without a second line, or without the line between the texts, is no
/// replacement.
pub proof fn replacement_needs_both_texts(rest: Seq<char>)
    requires
        forall|a: Seq<char>, b: Seq<char>| rest != #[trigger] (a + "\n===\n"@ + b),
    ensures
        replacement(rest) is None,
{
    reveal_strlit("\n");
    reveal_strlit("\n===\n");
    text_is_parted(rest, seq![], "\n"@, seq![]);
    if split_once(rest, "\n"@) is Some {
        let parts = split_once(rest, "\n"@)->0;
        let opened = match after_prefix(parts.1, "<<<"@) {
            Some(body) => body,
            None => parts.1,
        };
        let front = parts.0 + "\n"@ + parts.1.take(parts.1.len() - opened.len());
        assert(rest =~= front + opened);
        let body = trim_start_set(opened, NEWLINES@);
        lemma_start_set_is_suffix(opened);
        let skipped = opened.take(opened.len() - body.len());
        assert(opened =~= skipped + body);
        text_is_parted(body, seq![], "\n===\n"@, seq![]);
        if split_once(body, "\n===\n"@) is Some {
            let texts = split_once(body, "\n===\n"@)->0;
            let a = front + skipped + texts.0;
            assert(rest =~= a + "\n===\n"@ + texts.1);
            assert(rest == a + "\n===\n"@ + texts.1);
        }
    }
}

proof fn lemma_start_set_is_suffix(s: Seq<char>)
    ensures
        trim_start_set(s, NEWLINES@).len() <= s.len(),
        trim_start_set(s, NEWLINES@) == s.skip(s.len() - trim_start_set(s, NEWLINES@).len()),
    decreases s.len(),
{
    if s.len() > 0 && NEWLINES@.contains(s[0]) {
        lemma_start_set_is_suffix(s.skip(1));
        let r = trim_start_set(s, NEWLINES@);
        assert(s.skip(1).skip(s.skip(1).len() - r.len()) =~= s.skip(s.len() - r.len()));
    } else {
        assert(s.skip(0) =~= s);
    }
}

/// `/replace` asks for the replacement that is written behind it, in any case of its
/// name and whatever the texts say.
pub proof fn replace_command_is_read(head: Seq<char>, rest: Seq<char>, inferred: Option<IntentView>)
    requires
        in_any_case(head, "/replace "@),
        replacement(rest) is Some,
    ensures
        intent_of(head + rest, inferred) == replacement(rest),
        unclassified(head + rest) is None,
{
    reveal_strlit("/replace ");
    let word = "/replace "@;
    lemma_head(word, head, rest);
    let h = word.take(4);
    assert(is_own(h, 'r', 'e', 'p'));
    let text = head + rest;
    lemma_left_to_edits(text, h);
    lemma_action_lists(h);
    lemma_word_apart(text, "/write "@, h);
    assert(edit_intent(text) == replacement(rest));
}

/// `/write <path>` with text below it asks to write all of that text, as it is, to the
/// path.
pub proof fn write_command_is_read(
    head: Seq<char>,
    lead: Seq<char>,
    path: Seq<char>,
    tail: Seq<char>,
    content: Seq<char>,
    inferred: Option<IntentView>,
)
    requires
        in_any_case(head, "/write "@),
        all_space(lead),
        is_bare(path),
        all_space(tail),
        !(lead + path + tail).contains('\n'),
    ensures
        intent_of(head + (lead + path + tail + "\n"@ + content), inferred) == Some(
            IntentView::WriteFile { path, content },
        ),
        unclassified(head + (lead + path + tail + "\n"@ + content)) is None,
{
    reveal_strlit("/write ");
    let word = "/write "@;
    let rest = lead + path + tail + "\n"@ + content;
    lemma_head(word, head, rest);
    let h = word.take(4);
    assert(is_own(h, 'w', 'r', 'i'));
    let text = head + rest;
    lemma_left_to_edits(text, h);
    lemma_path_line(lead, path, tail, content);
    assert(edit_intent(text) == Some(IntentView::WriteFile { path, content }));
}

// ---------------------------------------------------------------------------
// Plans, commits and saved sessions
// ---------------------------------------------------------------------------

/// `/plan` sets the plan that is written behind it, in any case of its name.
pub proof fn plan_command_is_read(head: Seq<char>, body: Seq<char>, inferred: Option<IntentView>)
    requires
        in_any_case(head, "/plan "@),
    ensures
        intent_of(head + body, inferred) == Some(
            IntentView::SetPlan { description: plan_task(body), steps: plan_steps(body) },
        ),
        unclassified(head + body) is None,
{
    reveal_strlit("/plan ");
    let word = "/plan "@;
    lemma_head(word, head, body);
    let h = word.take(4);
    assert(is_own(h, 'p', 'l', 'a'));
    let text = head + body;
    lemma_not_session(text, h);
    lemma_plan_lists(h);
    lemma_apart(text, FIX_PREFIXES@, h);
    lemma_apart(text, FIX_WORDS@, h);
    assert(PLAN_PREFIXES@[0]@ == word);
    assert(after_any_ci(text, PLAN_PREFIXES@) == Some(body));
}

/// `/commit` commits with the message that is written behind it, without the white
/// space round it.
pub proof fn commit_command_is_read(
    head: Seq<char>,
    lead: Seq<char>,
    message: Seq<char>,
    tail: Seq<char>,
    inferred: Option<IntentView>,
)
    requires
        in_any_case(head, "/commit "@),
        all_space(lead),
        is_bare(message),
        all_space(tail),
    ensures
        intent_of(head + (lead + message + tail), inferred) == Some(IntentView::GitCommit(message)),
        unclassified(head + (lead + message + tail)) is None,
{
    reveal_strlit("/commit ");
    let word = "/commit "@;
    let rest = lead + message + tail;
    lemma_head(word, head, rest);
    let h = word.take(4);
    assert(is_own(h, 'c', 'o', 'm'));
    let text = head + rest;
    lemma_not_session(text, h);
    lemma_not_plan(text, h);
    lemma_loop_lists(h);
    lemma_apart(text, BUILD_WORDS@, h);
    lemma_apart(text, RESTART_WORDS@, h);
    lemma_apart(text, LOG_WORDS@, h);
    lemma_apart(text, TERMINAL_PREFIXES@, h);
    lemma_apart(text, CONFIRM_WORDS@, h);
    lemma_apart(text, CANCEL_WORDS@, h);
    assert(COMMIT_PREFIXES@[0]@ == word);
    assert(after_any_ci(text, COMMIT_PREFIXES@) == Some(rest));
    trimming_keeps_the_rest(lead, message, tail);
}

/// `/session load` loads the session that is named behind it, and `/session save` saves
/// under the label behind it, each without the white space round it.
pub proof fn session_commands_are_read(
    lead: Seq<char>,
    name: Seq<char>,
    tail: Seq<char>,
    inferred: Option<IntentView>,
)
    requires
        all_space(lead),
        is_bare(name),
        all_space(tail),
    ensures
        intent_of("/session load "@ + (lead + name + tail), inferred) == Some(
            IntentView::SessionLoad(name),
        ),
        intent_of("/session save "@ + (lead + name + tail), inferred) == Some(
            IntentView::SessionSave(Some(name)),
        ),
{
    reveal_strlit("/session load ");
    reveal_strlit("/session save ");
    let rest = lead + name + tail;
    trimming_keeps_the_rest(lead, name, tail);
    let h = "/session load "@.take(4);
    assert(is_own(h, 's', 'e', 's'));
    lemma_session_lists(h);
    lemma_own_head("/session load "@, rest);
    lemma_own_head("/session save "@, rest);
    assert("/session save "@.take(4) =~= h);
    lemma_no_session_word("/session load "@ + rest, h);
    lemma_no_session_word("/session save "@ + rest, h);
    lemma_load_prefix("/session load "@ + rest, rest);
    lemma_save_prefix("/session save "@ + rest, rest);
}

proof fn lemma_no_session_word(text: Seq<char>, h: Seq<char>)
    requires
        starts_like(text, h),
        is_head(h),
    ensures
        !listed(CONTINUE_WORDS@, lower(text)),
        !listed(CONTINUE_ALL_WORDS@, lower(text)),
        !listed(RETRY_WORDS@, lower(text)),
        !listed(STATUS_WORDS@, lower(text)),
        !listed(SESSION_LIST_WORDS@, lower(text)),
{
    lemma_session_lists(h);
    lemma_apart(text, CONTINUE_WORDS@, h);
    lemma_apart(text, CONTINUE_ALL_WORDS@, h);
    lemma_apart(text, RETRY_WORDS@, h);
    lemma_apart(text, STATUS_WORDS@, h);
    lemma_apart(text, SESSION_LIST_WORDS@, h);
}

proof fn lemma_load_prefix(text: Seq<char>, rest: Seq<char>)
    requires
        text == "/session load "@ + rest,
    ensures
        after_any(text, SESSION_LOAD_PREFIXES@) == Some(rest),
{
    reveal_strlit("载入会话 ");
    reveal_strlit("恢复会话 ");
    reveal_strlit("session load ");
    reveal_strlit("/session load ");
    let all = SESSION_LOAD_PREFIXES@;
    reveal_with_fuel(after_any, 5);
    assert(all.skip(1)[0] == all[1]);
    assert(all.skip(1).skip(1)[0] == all[2]);
    assert(all.skip(1).skip(1).skip(1)[0] == all[3]);
    assert(text[0] == "/session load "@[0]);
    assert forall|w: Seq<char>| w.len() > 0 && w[0] != '/' implies !#[trigger] w.is_prefix_of(
        text,
    ) by {
        if w.is_prefix_of(text) {
            assert(w[0] == text[0]);
        }
    }
    rest_is_kept(rest, "/session load "@);
    assert((text).take("/session load "@.len() as int) =~= "/session load "@);
}

proof fn lemma_save_prefix(text: Seq<char>, rest: Seq<char>)
    requires
        text == "/session save "@ + rest,
        rest.len() > 0,
    ensures
        after_any(text, SESSION_LOAD_PREFIXES@) is None,
        !listed(SESSION_SAVE_WORDS@, lower(text)),
        after_any(text, SESSION_SAVE_PREFIXES@) == Some(rest),
{
    reveal_strlit("载入会话 ");
    reveal_strlit("恢复会话 ");
    reveal_strlit("session load ");
    reveal_strlit("/session load ");
    reveal_strlit("切换会话 ");
    reveal_strlit("保存会话");
    reveal_strlit("session save");
    reveal_strlit("/session save");
    reveal_strlit("保存会话 ");
    reveal_strlit("session save ");
    reveal_strlit("/session save ");
    let head = "/session save "@;
    let all = SESSION_LOAD_PREFIXES@;
    reveal_with_fuel(after_any, 6);
    assert(all.skip(1)[0] == all[1]);
    assert(all.skip(1).skip(1)[0] == all[2]);
    assert(all.skip(1).skip(1).skip(1)[0] == all[3]);
    assert(all.skip(1).skip(1).skip(1).skip(1)[0] == all[4]);
    assert(text[0] == head[0] && text[9] == head[9]);
    assert forall|w: Seq<char>| w.len() > 0 && w[0] != '/' implies !#[trigger] w.is_prefix_of(
        text,
    ) by {
        if w.is_prefix_of(text) {
            assert(w[0] == text[0]);
        }
    }
    if "/session load "@.is_prefix_of(text) {
        assert("/session load "@[9] == text[9]);
    }
    let own = SESSION_SAVE_PREFIXES@;
    assert(own.skip(1)[0] == own[1]);
    assert(own.skip(1).skip(1)[0] == own[2]);
    rest_is_kept(rest, head);
    assert(text.take(head.len() as int) =~= head);
    assert(all_plain(head));
    assert forall|i: int| 0 <= i < head.len() implies is_plain(#[trigger] text[i]) && ascii_lower(
        text[i],
    ) == ascii_lower(head[i]) by {
        assert(text[i] == head[i]);
    }
    lower_keeps_plain_start(text, head);
    plain_text_is_lowered(head);
    let low = lower(text);
    assert(low.len() >= 14);
    assert(low[0] == lower(head)[0]);
    assert forall|i: int| 0 <= i < SESSION_SAVE_WORDS@.len() implies (
    #[trigger] SESSION_SAVE_WORDS@[i])@ != low by {}
}

// ---------------------------------------------------------------------------
// Actions
// ---------------------------------------------------------------------------

/// `/patch` hands over the patch behind it as it is, white space with the rest.
pub proof fn patch_command_is_read(patch: Seq<char>, inferred: Option<IntentView>)
    ensures
        intent_of("/patch "@ + patch, inferred) == Some(IntentView::Patch(patch)),
        unclassified("/patch "@ + patch) is None,
{
    reveal_strlit("/patch ");
    let head = "/patch "@;
    let text = head + patch;
    lemma_own_head(head, patch);
    let h = head.take(4);
    assert(is_own(h, 'p', 'a', 't'));
    lemma_left_to_actions(text, h);
    lemma_action_lists(h);
    lemma_apart(text, READ_PREFIXES@, h);
    lemma_apart(text, LIST_PREFIXES@, h);
    lemma_apart(text, SEARCH_PREFIXES@, h);
    lemma_apart(text, DIFF_PREFIXES@, h);
    assert(literal_action(text) == Some(IntentView::Patch(patch)));
}

/// `/read` and `/ls` are about the path behind them, without the white space round it,
/// and every character of it kept.
pub proof fn place_commands_are_read(
    lead: Seq<char>,
    path: Seq<char>,
    tail: Seq<char>,
    inferred: Option<IntentView>,
)
    requires
        all_space(lead),
        is_bare(path),
        all_space(tail),
    ensures
        intent_of("/read "@ + (lead + path + tail), inferred) == Some(IntentView::Read(path)),
        intent_of("/ls "@ + (lead + path + tail), inferred) == Some(IntentView::List(path)),
        unclassified("/read "@ + (lead + path + tail)) is None,
        unclassified("/ls "@ + (lead + path + tail)) is None,
{
    reveal_strlit("/read ");
    reveal_strlit("/ls ");
    trimming_keeps_the_rest(lead, path, tail);
    let rest = lead + path + tail;
    let (read, ls) = ("/read "@, "/ls "@);
    lemma_own_head(read, rest);
    assert(is_own(read.take(4), 'r', 'e', 'a'));
    lemma_left_to_actions(read + rest, read.take(4));
    assert(READ_PREFIXES@[0]@ == read);
    assert(after_any(read + rest, READ_PREFIXES@) == Some(rest));
    assert(literal_action(read + rest) == Some(IntentView::Read(path)));
    lemma_own_head(ls, rest);
    let h = ls.take(4);
    assert(is_own(h, 'l', 's', ' '));
    lemma_left_to_actions(ls + rest, h);
    lemma_action_lists(h);
    lemma_apart(ls + rest, READ_PREFIXES@, h);
    assert(LIST_PREFIXES@[0]@ == ls);
    assert(after_any(ls + rest, LIST_PREFIXES@) == Some(rest));
    assert(literal_action(ls + rest) == Some(IntentView::List(path)));
}

/// `/search <path> <query>` searches the path for the query: the path ends at the first
/// space, and all behind it is the query, without the white space round it.
pub proof fn search_command_is_read(
    path: Seq<char>,
    lead: Seq<char>,
    query: Seq<char>,
    tail: Seq<char>,
    inferred: Option<IntentView>,
)
    requires
        is_bare(path),
        !path.contains(' '),
        all_space(lead),
        is_bare(query),
        all_space(tail),
    ensures
        intent_of("/search "@ + (path + " "@ + (lead + query + tail)), inferred) == Some(
            IntentView::Search { path, query },
        ),
        unclassified("/search "@ + (path + " "@ + (lead + query + tail))) is None,
{
    reveal_strlit("/search ");
    reveal_strlit(" ");
    let head = "/search "@;
    let behind = lead + query + tail;
    let rest = path + " "@ + behind;
    let text = head + rest;
    lemma_own_head(head, rest);
    let h = head.take(4);
    assert(is_own(h, 's', 'e', 'a'));
    lemma_left_to_actions(text, h);
    lemma_action_lists(h);
    lemma_apart(text, READ_PREFIXES@, h);
    lemma_apart(text, LIST_PREFIXES@, h);
    assert(SEARCH_PREFIXES@[0]@ == head);
    assert(after_any(text, SEARCH_PREFIXES@) == Some(rest));
    assert(stands_first_behind(path, " "@)) by {
        assert forall|i: int| 0 <= i < path.len() implies (#[trigger] (path + " "@).skip(i)).take(1)
            != " "@ by {
            assert((path + " "@).skip(i).take(1)[0] == path[i]);
            assert(path.contains(path[i]));
        }
    }
    text_is_parted(rest, path, " "@, behind);
    trimming_keeps_the_rest(lead, query, tail);
    trimming_keeps_the_rest(seq![], path, seq![]);
    assert(Seq::<char>::empty() + path + Seq::<char>::empty() =~= path);
    assert(literal_action(text) == Some(IntentView::Search { path, query }));
}

proof fn lemma_lower_behind(head: Seq<char>, rest: Seq<char>)
    requires
        all_plain(head + rest),
        forall|i: int|
            0 <= i < (head + rest).len() ==> ascii_lower(#[trigger] (head + rest)[i]) == (head
                + rest)[i],
    ensures
        lower(head + rest) == head + rest,
{
    plain_text_is_lowered(head + rest);
    assert(lower(head + rest) =~= head + rest);
}

/// `/diff` is about the path behind it, and `/test` runs the tests that the filter behind
/// it picks. Both are taken in lower case; what is in lower case already is kept as it is.
pub proof fn lowered_commands_are_read(s: Seq<char>, inferred: Option<IntentView>)
    requires
        is_bare(s),
        all_plain(s),
        forall|i: int| 0 <= i < s.len() ==> ascii_lower(#[trigger] s[i]) == s[i],
    ensures
        intent_of("/diff "@ + s, inferred) == Some(IntentView::Diff(s)),
        intent_of("/test "@ + s, inferred) == Some(IntentView::Test(s)),
        unclassified("/diff "@ + s) is None,
        unclassified("/test "@ + s) is None,
{
    reveal_strlit("/diff ");
    reveal_strlit("/test ");
    reveal_strlit("/diff");
    reveal_strlit("/test");
    let (diff, test) = ("/diff "@, "/test "@);
    trimming_keeps_the_rest(seq![' '], s, seq![]);
    assert(seq![' '] + s + Seq::<char>::empty() =~= seq![' '] + s);
    lemma_own_head(diff, s);
    lemma_own_head(test, s);
    lemma_own_text(diff, s);
    lemma_own_text(test, s);
    let h = diff.take(4);
    assert(is_own(h, 'd', 'i', 'f'));
    let text = diff + s;
    lemma_left_to_actions(text, h);
    lemma_action_lists(h);
    lemma_apart(text, READ_PREFIXES@, h);
    lemma_apart(text, LIST_PREFIXES@, h);
    lemma_apart(text, SEARCH_PREFIXES@, h);
    assert(DIFF_PREFIXES@[0]@ == "/diff"@);
    assert(text =~= "/diff"@ + (seq![' '] + s));
    assert(text.take(5) =~= "/diff"@);
    rest_is_kept(seq![' '] + s, "/diff"@);
    assert(after_any(text, DIFF_PREFIXES@) == Some(seq![' '] + s));
    assert(literal_action(text) == Some(IntentView::Diff(s)));
    let g = test.take(4);
    assert(is_own(g, 't', 'e', 's'));
    let other = test + s;
    lemma_left_to_actions(other, g);
    lemma_action_lists(g);
    lemma_apart(other, READ_PREFIXES@, g);
    lemma_apart(other, LIST_PREFIXES@, g);
    lemma_apart(other, SEARCH_PREFIXES@, g);
    lemma_apart(other, DIFF_PREFIXES@, g);
    lemma_word_apart(other, "/patch "@, g);
    assert(TEST_PREFIXES@[0]@ == "/test"@);
    assert(other =~= "/test"@ + (seq![' '] + s));
    assert(other.take(5) =~= "/test"@);
    rest_is_kept(seq![' '] + s, "/test"@);
    assert(after_any(other, TEST_PREFIXES@) == Some(seq![' '] + s));
    assert(literal_action(other) == Some(IntentView::Test(s)));
}

proof fn lemma_own_text(head: Seq<char>, s: Seq<char>)
    requires
        all_plain(head),
        forall|i: int| 0 <= i < head.len() ==> ascii_lower(#[trigger] head[i]) == head[i],
        all_plain(s),
        forall|i: int| 0 <= i < s.len() ==> ascii_lower(#[trigger] s[i]) == s[i],
    ensures
        lower(head + s) == head + s,
{
    let text = head + s;
    assert forall|i: int| 0 <= i < text.len() implies is_plain(#[trigger] text[i]) && ascii_lower(
        text[i],
    ) == text[i] by {
        if i < head.len() {
            assert(text[i] == head[i]);
        } else {
            assert(text[i] == s[i - head.len()]);
        }
    }
    lemma_lower_behind(head, s);
}

} // verus!
