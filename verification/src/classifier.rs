//! Guessing the action that a text asks for when it names none literally.
//!
//! Ten yes-or-no questions are put to the text, and a small softmax classifier
//! weighs the answers. The weights are kept in tenths and the scores in millionths.

use crate::intent::{is_action, view_intent, Intent, IntentView};
use crate::text::{
    absent_piece_is_not_found, all_space, ascii_lower, contains, contains_any, ends_with, has_any,
    has_text, is_bare, is_blank, is_without, or_text, piece_stands_between, same, split_at_first,
    split_once, stands_first_behind, text_is_parted, trim, trim_set, trimmed, trimmed_set,
    trimming_a_set_keeps_the_middle, trimming_keeps_the_rest, view_opt, view_strs, words, words_of,
};
use crate::unicode::{all_plain, is_plain, lower, plain_text_is_lowered, to_lower};
use candle_core::{DType, Device, Tensor};
use candle_nn::ops::softmax;
use vstd::prelude::*;

verus! {

/// The kinds of text that the classifier tells apart.
#[derive(Debug, Clone, Copy, PartialEq, Eq, Structural)]
pub enum TextClass {
    Read,
    List,
    Search,
    Diff,
    Test,
    Other,
}

pub const CLASSES: [TextClass; 6] = [
    TextClass::Read,
    TextClass::List,
    TextClass::Search,
    TextClass::Diff,
    TextClass::Test,
    TextClass::Other,
];

/// What an answer of "yes" adds to each class, one row for each question, in tenths.
pub const WEIGHTS: [i64; 60] = [
    24, -2, -1, -1, -1, 0,  // reading
    -1, 24, -1, -1, -1, 0,  // listing
    -1, -1, 24, -1, -1, 0,  // searching
    -1, -1, -1, 24, -1, 0,  // comparing
    -1, -1, -1, -1, 24, 0,  // testing
    5, 5, 3, 2, 2, 0,  // something like a path
    4, 3, 2, 2, 1, 0,  // a dot or a slash
    -2, -2, -1, -1, -1, 8,  // a question
    -2, -2, -2, -2, -2, 10,  // a plan
    0, 0, 0, 0, 0, 2,  // always
];

/// What each class starts from, in tenths.
pub const BIAS: [i64; 6] = [0, 0, 0, 0, 0, 2];

/// In how many parts a weight of one is counted.
pub const WEIGHT_UNIT: i64 = 10;

/// In how many parts a score of one is counted.
pub const SCORE_UNIT: i64 = 1_000_000;

/// The score that a class must reach to be acted on.
pub const THRESHOLD: u32 = 550_000;

pub const READ_SIGNS: [&'static str; 5] = ["read", "读取", "打开", "查看文件", "/read"];

pub const LIST_SIGNS: [&'static str; 6] = ["ls", "list", "列出", "目录", "文件夹", "/ls"];

pub const SEARCH_SIGNS: [&'static str; 5] = ["search", "搜索", "查找", "grep", "/search"];

pub const DIFF_SIGNS: [&'static str; 5] = ["diff", "变更", "改动", "对比", "/diff"];

pub const TEST_SIGNS: [&'static str; 5] = ["test", "测试", "pytest", "cargo test", "/test"];

pub const PATH_SIGNS: [&'static str; 7] = [".md", ".rs", ".py", "src/", "docs/", "readme", "."];

pub const SLASH_SIGNS: [&'static str; 3] = [".", "/", "\\"];

pub const QUESTION_SIGNS: [&'static str; 5] = ["吗", "是不是", "能否", "是否", "?"];

pub const PLAN_SIGNS: [&'static str; 5] = ["plan", "计划", "任务", "步骤", "继续"];

/// What stands round a path without being part of it.
pub const QUOTES: [char; 5] = ['"', '\'', '，', ',', '。'];

pub const PATH_ENDINGS: [&'static str; 3] = [".md", ".rs", ".py"];

// ---------------------------------------------------------------------------
// Features
// ---------------------------------------------------------------------------

/// An answer as a number.
pub open spec fn answer(yes: bool) -> i64 {
    if yes {
        1
    } else {
        0
    }
}

fn b2f(v: bool) -> (r: i64)
    ensures
        r == answer(v),
{
    if v {
        1
    } else {
        0
    }
}

/// The ten answers for a text.
pub open spec fn features(prompt: Seq<char>) -> Seq<i64> {
    let s = lower(prompt);
    seq![
        answer(contains_any(s, READ_SIGNS@)),
        answer(contains_any(s, LIST_SIGNS@)),
        answer(contains_any(s, SEARCH_SIGNS@)),
        answer(contains_any(s, DIFF_SIGNS@)),
        answer(contains_any(s, TEST_SIGNS@)),
        answer(contains_any(s, PATH_SIGNS@)),
        answer(contains_any(s, SLASH_SIGNS@)),
        answer(contains_any(s, QUESTION_SIGNS@)),
        answer(contains_any(s, PLAN_SIGNS@)),
        1i64,
    ]
}

/// The ten answers for a text, in the order of the rows of `WEIGHTS`.
pub fn candle_features(prompt: &str) -> (r: Vec<i64>)
    ensures
        r@ == features(prompt@),
{
    let low = to_lower(prompt);
    let s = low.as_str();
    let r: Vec<i64> = vec![
        b2f(has_any(s, READ_SIGNS.as_slice())),
        b2f(has_any(s, LIST_SIGNS.as_slice())),
        b2f(has_any(s, SEARCH_SIGNS.as_slice())),
        b2f(has_any(s, DIFF_SIGNS.as_slice())),
        b2f(has_any(s, TEST_SIGNS.as_slice())),
        b2f(has_any(s, PATH_SIGNS.as_slice())),
        b2f(has_any(s, SLASH_SIGNS.as_slice())),
        b2f(has_any(s, QUESTION_SIGNS.as_slice())),
        b2f(has_any(s, PLAN_SIGNS.as_slice())),
        1,
    ];
    assert(r@ =~= features(prompt@));
    r
}

// ---------------------------------------------------------------------------
// Scores
// ---------------------------------------------------------------------------

/// The error of a tensor operation.
#[verifier::external_type_specification]
#[verifier::external_body]
pub struct ExCandleError(candle_core::Error);

/// Whether `outcome` can be what the tensor operations make of the other arguments:
/// the scores, or nothing where one of them fails. It is a relation and no function,
/// since the last digits of a sum in floating point depend on the machine that adds.
pub uninterp spec fn possible_scores(
    features: Seq<i64>,
    weights: Seq<i64>,
    bias: Seq<i64>,
    weight_unit: i64,
    score_unit: i64,
    outcome: Option<Seq<u32>>,
) -> bool;

/// The view of what came of the tensor operations.
pub open spec fn view_scores(r: Result<Vec<u32>, candle_core::Error>) -> Option<Seq<u32>> {
    match r {
        Ok(scores) => Some(scores@),
        Err(_) => None,
    }
}

/// The softmax of a linear map, by the tensor operations of `candle_core` and
/// `candle_nn::ops::softmax`: the row `features` times the matrix `weights`, plus the
/// row `bias`, both counted in `weight_unit` parts; the result counted in
/// `score_unit` parts and rounded down. There is one score for each column. What the
/// scores are is left to the relation `possible_scores`, because rounding differs
/// between machines. An error can come from any of the operations; when one comes is
/// left to the same relation.
#[verifier::external_body]
fn softmax_scores(
    features: &[i64],
    weights: &[i64],
    bias: &[i64],
    weight_unit: i64,
    score_unit: i64,
) -> (r: Result<Vec<u32>, candle_core::Error>)
    requires
        features@.len() > 0,
        bias@.len() > 0,
        weights@.len() == features@.len() * bias@.len(),
    ensures
        r matches Ok(scores) ==> scores@.len() == bias@.len(),
        possible_scores(
            features@,
            weights@,
            bias@,
            weight_unit,
            score_unit,
            view_scores(r),
        ),
{
    let (n, k) = (features.len(), bias.len());
    let plain = |v: &[i64], shape| Tensor::from_slice(v, shape, &Device::Cpu)?.to_dtype(DType::F32);
    let unit = plain(&[weight_unit], (1, 1))?;
    let w = plain(weights, (n, k))?.broadcast_div(&unit)?;
    let b = plain(bias, (1, k))?.broadcast_div(&unit)?;
    let logits = plain(features, (1, n))?.matmul(&w)?.broadcast_add(&b)?;
    let parts = softmax(&logits, 1)?.broadcast_mul(&plain(&[score_unit], (1, 1))?)?;
    parts.to_dtype(DType::U32)?.squeeze(0)?.to_vec1()
}

/// The first of the greatest scores, as an index.
pub open spec fn best(scores: Seq<u32>) -> int
    decreases scores.len(),
{
    if scores.len() <= 1 {
        0
    } else {
        let b = best(scores.drop_last());
        if scores.last() > scores[b] {
            scores.len() - 1
        } else {
            b
        }
    }
}

/// No score is greater than the best one, and none before it is as great.
pub proof fn best_is_first_greatest(scores: Seq<u32>)
    requires
        scores.len() > 0,
    ensures
        0 <= best(scores) < scores.len(),
        forall|j: int| 0 <= j < scores.len() ==> #[trigger] scores[j] <= scores[best(scores)],
        forall|j: int| 0 <= j < best(scores) ==> #[trigger] scores[j] < scores[best(scores)],
    decreases scores.len(),
{
    if scores.len() > 1 {
        let init = scores.drop_last();
        best_is_first_greatest(init);
        assert forall|j: int| 0 <= j < scores.len() implies #[trigger] scores[j]
            <= scores[best(scores)] by {
            if j < init.len() {
                assert(init[j] == scores[j]);
            }
        }
        assert forall|j: int| 0 <= j < best(scores) implies #[trigger] scores[j]
            < scores[best(scores)] by {
            assert(init[j] == scores[j]);
        }
    }
}

fn best_index(scores: &Vec<u32>) -> (r: usize)
    requires
        scores@.len() > 0,
    ensures
        r == best(scores@),
        r < scores@.len(),
{
    let mut b: usize = 0;
    let mut i: usize = 1;
    assert(scores@.take(1).len() == 1);
    while i < scores.len()
        invariant
            1 <= i <= scores@.len(),
            b < i,
            b == best(scores@.take(i as int)),
        decreases scores@.len() - i,
    {
        assert(scores@.take(i + 1).drop_last() =~= scores@.take(i as int));
        if scores[i] > scores[b] {
            b = i;
        }
        i += 1;
    }
    assert(scores@.take(i as int) =~= scores@);
    b
}

/// The class with the greatest score and that score, if there are scores.
pub open spec fn label_of(outcome: Option<Seq<u32>>) -> Option<(TextClass, u32)> {
    match outcome {
        Some(scores) => Some((CLASSES@[best(scores)], scores[best(scores)])),
        None => None,
    }
}

/// Whether a text can be given the label `label`: it is the one for some outcome that
/// the tensor operations can have on the answers for the text. There is no label
/// exactly where they fail.
pub open spec fn possible_label(text: Seq<char>, label: Option<(TextClass, u32)>) -> bool {
    exists|outcome: Option<Seq<u32>>|
        {
            &&& outcome matches Some(scores) ==> scores.len() == CLASSES@.len()
            &&& #[trigger] possible_scores(
                features(text),
                WEIGHTS@,
                BIAS@,
                WEIGHT_UNIT,
                SCORE_UNIT,
                outcome,
            )
            &&& label == label_of(outcome)
        }
}

/// The class with the greatest score, the first of them where there are several, and
/// that score.
pub fn pick_label(scores: &Vec<u32>) -> (r: (TextClass, u32))
    requires
        scores@.len() == CLASSES@.len(),
    ensures
        r.0 == CLASSES@[best(scores@)],
        r.1 == scores@[best(scores@)],
{
    let b: usize = best_index(scores);
    (CLASSES[b], scores[b])
}

/// The class of a text and its score, or nothing where the tensor operations fail.
pub fn candle_intent_label(text: &str) -> (r: Option<(TextClass, u32)>)
    ensures
        possible_label(text@, r),
{
    let answers = candle_features(text);
    match softmax_scores(
        answers.as_slice(),
        WEIGHTS.as_slice(),
        BIAS.as_slice(),
        WEIGHT_UNIT,
        SCORE_UNIT,
    ) {
        Ok(scores) => Some(pick_label(&scores)),
        Err(_) => None,
    }
}

// ---------------------------------------------------------------------------
// From a class to an action
// ---------------------------------------------------------------------------

/// Whether a word, without the quotes and commas round it, looks like a path.
pub open spec fn looks_like_path(word: Seq<char>) -> bool {
    contains(word, "/"@) || contains(word, "\\"@) || ends_with_any(word, PATH_ENDINGS@) || word
        == "."@
}

/// Whether `s` ends with one of `endings`.
pub open spec fn ends_with_any(s: Seq<char>, endings: Seq<&'static str>) -> bool {
    exists|i: int| 0 <= i < endings.len() && (#[trigger] endings[i])@.is_suffix_of(s)
}

/// The first of some words that looks like a path, without the quotes round it.
pub open spec fn first_path(ws: Seq<Seq<char>>) -> Option<Seq<char>>
    decreases ws.len(),
{
    if ws.len() == 0 {
        None
    } else if looks_like_path(trim_set(ws[0], QUOTES@)) {
        Some(trim_set(ws[0], QUOTES@))
    } else {
        first_path(ws.skip(1))
    }
}

fn is_path_like(word: &str) -> (r: bool)
    ensures
        r == looks_like_path(word@),
{
    if has_text(word, "/") || has_text(word, "\\") || same(word, ".") {
        return true;
    }
    let mut i: usize = 0;
    while i < PATH_ENDINGS.len()
        invariant
            i <= PATH_ENDINGS@.len(),
            forall|j: int| 0 <= j < i ==> !(#[trigger] PATH_ENDINGS@[j])@.is_suffix_of(word@),
        decreases PATH_ENDINGS@.len() - i,
    {
        if ends_with(word, PATH_ENDINGS[i]) {
            assert(PATH_ENDINGS@[i as int]@.is_suffix_of(word@));
            return true;
        }
        i += 1;
    }
    false
}

/// The first word of `text` that looks like a path, without the quotes round it.
pub fn extract_path_like_token(text: &str) -> (r: Option<String>)
    ensures
        view_opt(r) == first_path(words(text@)),
{
    let ws = words_of(text);
    let ghost model = view_strs(ws@);
    let mut i: usize = 0;
    assert(model.skip(0) =~= model);
    while i < ws.len()
        invariant
            i <= ws@.len(),
            model == view_strs(ws@),
            model == words(text@),
            first_path(model) == first_path(model.skip(i as int)),
        decreases ws@.len() - i,
    {
        let word = trimmed_set(ws[i], QUOTES.as_slice());
        assert(model.skip(i as int)[0] == ws@[i as int]@);
        if is_path_like(word) {
            return Some(word.to_owned());
        }
        assert(model.skip(i as int).skip(1) =~= model.skip(i + 1));
        i += 1;
    }
    None
}

/// What follows the first "搜索" of a text, unless it is blank.
pub open spec fn search_query(text: Seq<char>) -> Option<Seq<char>> {
    match split_once(text, "搜索"@) {
        Some(parts) => if is_blank(parts.1) {
            None
        } else {
            Some(trim(parts.1))
        },
        None => None,
    }
}

/// What follows the first "搜索" of `text`, unless it is blank.
pub fn extract_search_query(text: &str) -> (r: Option<String>)
    ensures
        view_opt(r) == search_query(text@),
{
    match split_at_first(text, "搜索") {
        Some((_, rest)) => {
            let q = trimmed(rest);
            if q.is_empty() {
                None
            } else {
                Some(q.to_owned())
            }
        },
        None => None,
    }
}

/// The action for a text of a class that was given a score.
pub open spec fn class_action(text: Seq<char>, class: TextClass, score: u32) -> Option<IntentView> {
    if score < THRESHOLD {
        None
    } else {
        match class {
            TextClass::Read => Some(
                IntentView::Read(or_text(first_path(words(text)), "README.md"@)),
            ),
            TextClass::List => Some(IntentView::List(or_text(first_path(words(text)), "."@))),
            TextClass::Search => Some(
                IntentView::Search { path: "."@, query: or_text(search_query(text), trim(text)) },
            ),
            TextClass::Diff => Some(IntentView::Diff(seq![])),
            TextClass::Test => Some(IntentView::Test(seq![])),
            TextClass::Other => None,
        }
    }
}

/// The action for `text`, given the class and the score that the classifier found.
pub fn infer_from_label(text: &str, class: TextClass, score: u32) -> (r: Option<Intent>)
    ensures
        view_intent(r) == class_action(text@, class, score),
{
    if score < THRESHOLD {
        return None;
    }
    match class {
        TextClass::Read => Some(
            Intent::Read(
                match extract_path_like_token(text) {
                    Some(path) => path,
                    None => "README.md".to_owned(),
                },
            ),
        ),
        TextClass::List => Some(
            Intent::List(
                match extract_path_like_token(text) {
                    Some(path) => path,
                    None => ".".to_owned(),
                },
            ),
        ),
        TextClass::Search => Some(
            Intent::Search {
                path: ".".to_owned(),
                query: match extract_search_query(text) {
                    Some(query) => query,
                    None => trimmed(text).to_owned(),
                },
            },
        ),
        TextClass::Diff => Some(Intent::Diff(String::new())),
        TextClass::Test => Some(Intent::Test(String::new())),
        TextClass::Other => None,
    }
}

/// The action for a text that was given a label, if it was given one.
pub open spec fn label_action(
    text: Seq<char>,
    label: Option<(TextClass, u32)>,
) -> Option<IntentView> {
    match label {
        Some(found) => class_action(text, found.0, found.1),
        None => None,
    }
}

/// Whether the classifier can make `action` of a text: it is the one for a label that
/// is possible for the text.
pub open spec fn possible_inference(text: Seq<char>, action: Option<IntentView>) -> bool {
    exists|label: Option<(TextClass, u32)>| #[trigger]
        possible_label(text, label) && action == label_action(text, label)
}

/// The action that the classifier makes of `text`.
pub fn infer_action_intent_candle(text: &str) -> (r: Option<Intent>)
    ensures
        possible_inference(text@, view_intent(r)),
{
    let label = candle_intent_label(text);
    assert(possible_label(text@, label));
    match label {
        Some((class, score)) => infer_from_label(text, class, score),
        None => None,
    }
}

/// What the classifier makes of a text is an action, if it is anything.
pub proof fn inference_is_action(text: Seq<char>, action: IntentView)
    requires
        possible_inference(text, Some(action)),
    ensures
        is_action(action),
{
}

// ---------------------------------------------------------------------------
// Laws
// ---------------------------------------------------------------------------

/// The words by which each of the questions is answered.
pub open spec fn is_sign(row: int, s: Seq<char>) -> bool {
    ||| row == 0 && (s == "read"@ || s == "读取"@ || s == "打开"@ || s == "查看文件"@ || s == "/read"@)
    ||| row == 1 && (s == "ls"@ || s == "list"@ || s == "列出"@ || s == "目录"@ || s == "文件夹"@ || s == "/ls"@)
    ||| row == 2 && (s == "search"@ || s == "搜索"@ || s == "查找"@ || s == "grep"@ || s == "/search"@)
    ||| row == 3 && (s == "diff"@ || s == "变更"@ || s == "改动"@ || s == "对比"@ || s == "/diff"@)
    ||| row == 4 && (s == "test"@ || s == "测试"@ || s == "pytest"@ || s == "cargo test"@ || s == "/test"@)
    ||| row == 5 && (s == ".md"@ || s == ".rs"@ || s == ".py"@ || s == "src/"@ || s == "docs/"@ || s == "readme"@ || s == "."@)
    ||| row == 6 && (s == "."@ || s == "/"@ || s == "\\"@)
    ||| row == 7 && (s == "吗"@ || s == "是不是"@ || s == "能否"@ || s == "是否"@ || s == "?"@)
    ||| row == 8 && (s == "plan"@ || s == "计划"@ || s == "任务"@ || s == "步骤"@ || s == "继续"@)
}

spec fn signs_of(row: int) -> Seq<&'static str> {
    if row == 0 {
        READ_SIGNS@
    } else if row == 1 {
        LIST_SIGNS@
    } else if row == 2 {
        SEARCH_SIGNS@
    } else if row == 3 {
        DIFF_SIGNS@
    } else if row == 4 {
        TEST_SIGNS@
    } else if row == 5 {
        PATH_SIGNS@
    } else if row == 6 {
        SLASH_SIGNS@
    } else if row == 7 {
        QUESTION_SIGNS@
    } else {
        PLAN_SIGNS@
    }
}

proof fn lemma_sign_is_listed(row: int, sign: Seq<char>)
    requires
        0 <= row < 9,
        is_sign(row, sign),
    ensures
        exists|w: int| 0 <= w < signs_of(row).len() && (#[trigger] signs_of(row)[w])@ == sign,
{
    let all = signs_of(row);
    if row == 0 {
        assert(all[0]@ == "read"@);
        assert(all[1]@ == "读取"@);
        assert(all[2]@ == "打开"@);
        assert(all[3]@ == "查看文件"@);
        assert(all[4]@ == "/read"@);
    }
    if row == 1 {
        assert(all[0]@ == "ls"@);
        assert(all[1]@ == "list"@);
        assert(all[2]@ == "列出"@);
        assert(all[3]@ == "目录"@);
        assert(all[4]@ == "文件夹"@);
        assert(all[5]@ == "/ls"@);
    }
    if row == 2 {
        assert(all[0]@ == "search"@);
        assert(all[1]@ == "搜索"@);
        assert(all[2]@ == "查找"@);
        assert(all[3]@ == "grep"@);
        assert(all[4]@ == "/search"@);
    }
    if row == 3 {
        assert(all[0]@ == "diff"@);
        assert(all[1]@ == "变更"@);
        assert(all[2]@ == "改动"@);
        assert(all[3]@ == "对比"@);
        assert(all[4]@ == "/diff"@);
    }
    if row == 4 {
        assert(all[0]@ == "test"@);
        assert(all[1]@ == "测试"@);
        assert(all[2]@ == "pytest"@);
        assert(all[3]@ == "cargo test"@);
        assert(all[4]@ == "/test"@);
    }
    if row == 5 {
        assert(all[0]@ == ".md"@);
        assert(all[1]@ == ".rs"@);
        assert(all[2]@ == ".py"@);
        assert(all[3]@ == "src/"@);
        assert(all[4]@ == "docs/"@);
        assert(all[5]@ == "readme"@);
        assert(all[6]@ == "."@);
    }
    if row == 6 {
        assert(all[0]@ == "."@);
        assert(all[1]@ == "/"@);
        assert(all[2]@ == "\\"@);
    }
    if row == 7 {
        assert(all[0]@ == "吗"@);
        assert(all[1]@ == "是不是"@);
        assert(all[2]@ == "能否"@);
        assert(all[3]@ == "是否"@);
        assert(all[4]@ == "?"@);
    }
    if row == 8 {
        assert(all[0]@ == "plan"@);
        assert(all[1]@ == "计划"@);
        assert(all[2]@ == "任务"@);
        assert(all[3]@ == "步骤"@);
        assert(all[4]@ == "继续"@);
    }
}

proof fn lemma_listed_is_sign(row: int, w: int)
    requires
        0 <= row < 9,
        0 <= w < signs_of(row).len(),
    ensures
        is_sign(row, signs_of(row)[w]@),
{
    if row == 0 {
        assert(w == 0 || w == 1 || w == 2 || w == 3 || w == 4);
    }
    if row == 1 {
        assert(w == 0 || w == 1 || w == 2 || w == 3 || w == 4 || w == 5);
    }
    if row == 2 {
        assert(w == 0 || w == 1 || w == 2 || w == 3 || w == 4);
    }
    if row == 3 {
        assert(w == 0 || w == 1 || w == 2 || w == 3 || w == 4);
    }
    if row == 4 {
        assert(w == 0 || w == 1 || w == 2 || w == 3 || w == 4);
    }
    if row == 5 {
        assert(w == 0 || w == 1 || w == 2 || w == 3 || w == 4 || w == 5 || w == 6);
    }
    if row == 6 {
        assert(w == 0 || w == 1 || w == 2);
    }
    if row == 7 {
        assert(w == 0 || w == 1 || w == 2 || w == 3 || w == 4);
    }
    if row == 8 {
        assert(w == 0 || w == 1 || w == 2 || w == 3 || w == 4);
    }
}

proof fn lemma_sign_is_low(row: int, sign: Seq<char>)
    requires
        is_sign(row, sign),
    ensures
        all_plain(sign),
        sign.map_values(|c: char| ascii_lower(c)) == sign,
{
    reveal_strlit("read");
    reveal_strlit("读取");
    reveal_strlit("打开");
    reveal_strlit("查看文件");
    reveal_strlit("/read");
    reveal_strlit("ls");
    reveal_strlit("list");
    reveal_strlit("列出");
    reveal_strlit("目录");
    reveal_strlit("文件夹");
    reveal_strlit("/ls");
    reveal_strlit("search");
    reveal_strlit("搜索");
    reveal_strlit("查找");
    reveal_strlit("grep");
    reveal_strlit("/search");
    reveal_strlit("diff");
    reveal_strlit("变更");
    reveal_strlit("改动");
    reveal_strlit("对比");
    reveal_strlit("/diff");
    reveal_strlit("test");
    reveal_strlit("测试");
    reveal_strlit("pytest");
    reveal_strlit("cargo test");
    reveal_strlit("/test");
    reveal_strlit(".md");
    reveal_strlit(".rs");
    reveal_strlit(".py");
    reveal_strlit("src/");
    reveal_strlit("docs/");
    reveal_strlit("readme");
    reveal_strlit(".");
    reveal_strlit("/");
    reveal_strlit("\\");
    reveal_strlit("吗");
    reveal_strlit("是不是");
    reveal_strlit("能否");
    reveal_strlit("是否");
    reveal_strlit("?");
    reveal_strlit("plan");
    reveal_strlit("计划");
    reveal_strlit("任务");
    reveal_strlit("步骤");
    reveal_strlit("继续");
    assert(sign.map_values(|c: char| ascii_lower(c)) =~= sign);
}

/// A question is answered with yes where one of its words stands in the text, and the last
/// one always is.
pub proof fn sign_is_seen(row: int, a: Seq<char>, sign: Seq<char>, b: Seq<char>)
    requires
        0 <= row < 9,
        is_sign(row, sign),
        all_plain(a),
        all_plain(b),
    ensures
        features(a + sign + b).len() == 10,
        features(a + sign + b)[row] == 1,
        features(a + sign + b)[9] == 1,
{
    lemma_sign_is_low(row, sign);
    lemma_sign_is_listed(row, sign);
    let text = a + sign + b;
    assert(all_plain(text)) by {
        assert forall|i: int| 0 <= i < text.len() implies is_plain(#[trigger] text[i]) by {
            if i < a.len() {
                assert(text[i] == a[i]);
            } else if i < a.len() + sign.len() {
                assert(text[i] == sign[i - a.len()]);
            } else {
                assert(text[i] == b[i - a.len() - sign.len()]);
            }
        }
    }
    plain_text_is_lowered(text);
    let low = |s: Seq<char>| s.map_values(|c: char| ascii_lower(c));
    assert(lower(text) =~= low(a) + low(sign) + low(b));
    piece_stands_between(text, low(a), sign, low(b));
    let w = choose|w: int| 0 <= w < signs_of(row).len() && (#[trigger] signs_of(row)[w])@ == sign;
    assert(contains(lower(text), signs_of(row)[w]@));
    assert(contains_any(lower(text), signs_of(row)));
}

/// A question is answered with no where none of its words stands in the text, in any case
/// of its letters.
pub proof fn missing_signs_are_missed(row: int, text: Seq<char>)
    requires
        0 <= row < 9,
        all_plain(text),
        forall|sign: Seq<char>| #[trigger]
            is_sign(row, sign) ==> is_without(text.map_values(|c: char| ascii_lower(c)), sign),
    ensures
        features(text)[row] == 0,
{
    plain_text_is_lowered(text);
    let all = signs_of(row);
    if contains_any(lower(text), all) {
        let w = choose|w: int| 0 <= w < all.len() && contains(lower(text), (#[trigger] all[w])@);
        lemma_listed_is_sign(row, w);
        absent_piece_is_not_found(lower(text), all[w]@);
        assert(is_sign(row, all[w]@));
    }
}

/// The label is the class with the greatest score, the first where several are as great,
/// with that score; the classes are reading, listing, searching, comparing, testing and
/// anything else.
pub proof fn label_is_the_greatest(scores: Seq<u32>, i: int)
    requires
        scores.len() == 6,
        0 <= i < 6,
        forall|j: int| 0 <= j < 6 ==> #[trigger] scores[j] <= scores[i],
        forall|j: int| 0 <= j < i ==> #[trigger] scores[j] < scores[i],
    ensures
        label_of(Some(scores)) == Some(
            (
                if i == 0 {
                    TextClass::Read
                } else if i == 1 {
                    TextClass::List
                } else if i == 2 {
                    TextClass::Search
                } else if i == 3 {
                    TextClass::Diff
                } else if i == 4 {
                    TextClass::Test
                } else {
                    TextClass::Other
                },
                scores[i],
            ),
        ),
        label_of(None) is None,
{
    best_is_first_greatest(scores);
    let b = best(scores);
    if b < i {
        assert(scores[b] < scores[i]);
    } else if b > i {
        assert(scores[i] < scores[b]);
    }
    assert(b == i);
}

/// What stands round a path without being part of it.
pub open spec fn all_quotes(s: Seq<char>) -> bool {
    forall|i: int|
        0 <= i < s.len() ==> #[trigger] s[i] == '"' || s[i] == '\'' || s[i] == '，' || s[i] == ','
            || s[i] == '。'
}

/// The first word that looks like a path is the path, without the quotes round it, and
/// every character of it kept.
pub proof fn first_path_is_found(
    others: Seq<Seq<char>>,
    lead: Seq<char>,
    path: Seq<char>,
    tail: Seq<char>,
    rest: Seq<Seq<char>>,
)
    requires
        forall|i: int|
            0 <= i < others.len() ==> !looks_like_path(trim_set(#[trigger] others[i], QUOTES@)),
        all_quotes(lead),
        all_quotes(tail),
        path.len() > 0,
        !all_quotes(seq![path[0]]),
        !all_quotes(seq![path.last()]),
        path.contains('/') || path.contains('\\') || (".md"@).is_suffix_of(path) || (
        ".rs"@).is_suffix_of(path) || (".py"@).is_suffix_of(path) || path == "."@,
    ensures
        first_path(others + seq![lead + path + tail] + rest) == Some(path),
        first_path(others) is None,
    decreases others.len(),
{
    let all = others + seq![lead + path + tail] + rest;
    if others.len() > 0 {
        assert(all[0] == others[0]);
        assert(all.skip(1) =~= others.skip(1) + seq![lead + path + tail] + rest);
        assert forall|i: int| 0 <= i < others.skip(1).len() implies !looks_like_path(
            trim_set(#[trigger] others.skip(1)[i], QUOTES@),
        ) by {
            assert(others.skip(1)[i] == others[i + 1]);
        }
        first_path_is_found(others.skip(1), lead, path, tail, rest);
    } else {
        assert(all[0] == lead + path + tail);
        lemma_unquoted(lead, path, tail);
        lemma_path_like(path);
    }
}

proof fn lemma_quote(c: char)
    ensures
        QUOTES@.contains(c) == (c == '"' || c == '\'' || c == '，' || c == ',' || c == '。'),
{
    let all = QUOTES@;
    assert(all[0] == '"' && all[1] == '\'' && all[2] == '，' && all[3] == ',' && all[4] == '。');
}

proof fn lemma_unquoted(lead: Seq<char>, path: Seq<char>, tail: Seq<char>)
    requires
        all_quotes(lead),
        all_quotes(tail),
        path.len() > 0,
        !all_quotes(seq![path[0]]),
        !all_quotes(seq![path.last()]),
    ensures
        trim_set(lead + path + tail, QUOTES@) == path,
{
    lemma_quote(path[0]);
    lemma_quote(path.last());
    assert(seq![path[0]][0] == path[0]);
    assert(seq![path.last()][0] == path.last());
    assert forall|i: int| 0 <= i < lead.len() implies QUOTES@.contains(#[trigger] lead[i]) by {
        lemma_quote(lead[i]);
    }
    assert forall|i: int| 0 <= i < tail.len() implies QUOTES@.contains(#[trigger] tail[i]) by {
        lemma_quote(tail[i]);
    }
    trimming_a_set_keeps_the_middle(lead, path, tail, QUOTES@);
}

proof fn lemma_path_like(path: Seq<char>)
    requires
        path.contains('/') || path.contains('\\') || (".md"@).is_suffix_of(path) || (
        ".rs"@).is_suffix_of(path) || (".py"@).is_suffix_of(path) || path == "."@,
    ensures
        looks_like_path(path),
{
    reveal_strlit("/");
    reveal_strlit("\\");
    assert(PATH_ENDINGS@[0]@ == ".md"@ && PATH_ENDINGS@[1]@ == ".rs"@ && PATH_ENDINGS@[2]@
        == ".py"@);
    if path.contains('/') {
        let i = choose|i: int| 0 <= i < path.len() && path[i] == '/';
        assert(path =~= path.take(i) + "/"@ + path.skip(i + 1));
        piece_stands_between(path, path.take(i), "/"@, path.skip(i + 1));
    } else if path.contains('\\') {
        let i = choose|i: int| 0 <= i < path.len() && path[i] == '\\';
        assert(path =~= path.take(i) + "\\"@ + path.skip(i + 1));
        piece_stands_between(path, path.take(i), "\\"@, path.skip(i + 1));
    }
}

/// What is searched for is what stands behind the first `搜索`, without the white space
/// round it.
pub proof fn query_is_found(a: Seq<char>, lead: Seq<char>, query: Seq<char>, tail: Seq<char>)
    requires
        stands_first_behind(a, "搜索"@),
        all_space(lead),
        is_bare(query),
        all_space(tail),
    ensures
        search_query(a + "搜索"@ + (lead + query + tail)) == Some(query),
        search_query(a + "搜索"@ + (lead + tail)) is None,
        is_without(a, "搜索"@) ==> search_query(a) is None,
{
    reveal_strlit("搜索");
    text_is_parted(a, a, "搜索"@, lead + query + tail);
    text_is_parted(a, a, "搜索"@, lead + tail);
    trimming_keeps_the_rest(lead, query, tail);
}

/// A class leads to its action where its score reaches the threshold, and to nothing where
/// it does not.
pub proof fn class_leads_to_its_action(text: Seq<char>, score: u32, s: Seq<char>)
    ensures
        forall|class: TextClass|
            score < 550000 ==> #[trigger] class_action(text, class, score) is None,
        score >= 550000 ==> {
            &&& first_path(words(text)) == Some(s) ==> class_action(text, TextClass::Read, score)
                == Some(IntentView::Read(s)) && class_action(text, TextClass::List, score) == Some(
                IntentView::List(s),
            )
            &&& first_path(words(text)) is None ==> class_action(text, TextClass::Read, score)
                == Some(IntentView::Read("README.md"@)) && class_action(
                text,
                TextClass::List,
                score,
            ) == Some(IntentView::List("."@))
            &&& search_query(text) == Some(s) ==> class_action(text, TextClass::Search, score)
                == Some(IntentView::Search { path: "."@, query: s })
            &&& search_query(text) is None ==> class_action(text, TextClass::Search, score) == Some(
                IntentView::Search { path: "."@, query: trim(text) },
            )
            &&& class_action(text, TextClass::Diff, score) == Some(IntentView::Diff(seq![]))
            &&& class_action(text, TextClass::Test, score) == Some(IntentView::Test(seq![]))
            &&& class_action(text, TextClass::Other, score) is None
        },
{
}

/// What an answer of "yes" to a question adds to each class.
pub open spec fn row(question: int) -> Seq<i64> {
    WEIGHTS@.subrange(6 * question, 6 * question + 6)
}

/// What the answers add up to for a class, in tenths.
pub open spec fn total(f: Seq<i64>, class: int) -> int {
    BIAS@[class] + f[0] * row(0)[class] + f[1] * row(1)[class] + f[2] * row(2)[class] + f[3]
        * row(3)[class] + f[4] * row(4)[class] + f[5] * row(5)[class] + f[6] * row(6)[class] + f[7]
        * row(7)[class] + f[8] * row(8)[class] + f[9] * row(9)[class]
}

/// A sign of a class speaks for it by 2.4 and hardly against the others; something like a
/// path, a dot or a slash speaks a little for the classes that take one; a question and a
/// plan speak for anything else, which is also where a text without signs belongs.
pub proof fn answers_weigh_as_they_should()
    ensures
        row(0) == seq![24i64, -2i64, -1i64, -1i64, -1i64, 0i64],
        row(1) == seq![-1i64, 24i64, -1i64, -1i64, -1i64, 0i64],
        row(2) == seq![-1i64, -1i64, 24i64, -1i64, -1i64, 0i64],
        row(3) == seq![-1i64, -1i64, -1i64, 24i64, -1i64, 0i64],
        row(4) == seq![-1i64, -1i64, -1i64, -1i64, 24i64, 0i64],
        row(5) == seq![5i64, 5i64, 3i64, 2i64, 2i64, 0i64],
        row(6) == seq![4i64, 3i64, 2i64, 2i64, 1i64, 0i64],
        row(7) == seq![-2i64, -2i64, -1i64, -1i64, -1i64, 8i64],
        row(8) == seq![-2i64, -2i64, -2i64, -2i64, -2i64, 10i64],
        row(9) == seq![0i64, 0i64, 0i64, 0i64, 0i64, 2i64],
        BIAS@ == seq![0i64, 0i64, 0i64, 0i64, 0i64, 2i64],
        WEIGHT_UNIT == 10,
        SCORE_UNIT == 1000000,
        THRESHOLD == 550000,
{
    assert(row(0) =~= seq![24i64, -2i64, -1i64, -1i64, -1i64, 0i64]);
    assert(row(1) =~= seq![-1i64, 24i64, -1i64, -1i64, -1i64, 0i64]);
    assert(row(2) =~= seq![-1i64, -1i64, 24i64, -1i64, -1i64, 0i64]);
    assert(row(3) =~= seq![-1i64, -1i64, -1i64, 24i64, -1i64, 0i64]);
    assert(row(4) =~= seq![-1i64, -1i64, -1i64, -1i64, 24i64, 0i64]);
    assert(row(5) =~= seq![5i64, 5i64, 3i64, 2i64, 2i64, 0i64]);
    assert(row(6) =~= seq![4i64, 3i64, 2i64, 2i64, 1i64, 0i64]);
    assert(row(7) =~= seq![-2i64, -2i64, -1i64, -1i64, -1i64, 8i64]);
    assert(row(8) =~= seq![-2i64, -2i64, -2i64, -2i64, -2i64, 10i64]);
    assert(row(9) =~= seq![0i64, 0i64, 0i64, 0i64, 0i64, 2i64]);
}

/// Whether a row of answers is one: each is "yes" or "no", and the last one is "yes".
pub open spec fn are_answers(f: Seq<i64>) -> bool {
    f.len() == 10 && f[9] == 1 && forall|i: int| 0 <= i < 10 ==> #[trigger] f[i] == 0 || f[i] == 1
}

/// The answers for a text are answers.
pub proof fn features_are_answers(text: Seq<char>)
    ensures
        are_answers(features(text)),
{
}

/// Where a text holds signs of one class alone, and is neither a question nor about a plan,
/// the answers add up to the most for that class, with or without a path. Where it holds
/// none of them, and nothing like a path, they add up to the most for anything else.
pub proof fn one_kind_of_sign_decides(f: Seq<i64>, class: int, other: int)
    requires
        are_answers(f),
        0 <= class < 6,
        0 <= other < 6,
        other != class,
        forall|i: int| 0 <= i < 5 ==> (#[trigger] f[i] == 1 <==> i == class),
        class < 5 ==> f[7] == 0 && f[8] == 0,
        class == 5 ==> f[5] == 0 && f[6] == 0,
    ensures
        total(f, other) < total(f, class),
{
    answers_weigh_as_they_should();
    assert(f[0] == 0 || f[0] == 1);
    assert(f[1] == 0 || f[1] == 1);
    assert(f[2] == 0 || f[2] == 1);
    assert(f[3] == 0 || f[3] == 1);
    assert(f[4] == 0 || f[4] == 1);
    assert(f[5] == 0 || f[5] == 1);
    assert(f[6] == 0 || f[6] == 1);
    assert(f[7] == 0 || f[7] == 1);
    assert(f[8] == 0 || f[8] == 1);
    assert(class == 0 || class == 1 || class == 2 || class == 3 || class == 4 || class == 5);
    assert(other == 0 || other == 1 || other == 2 || other == 3 || other == 4 || other == 5);
}

} // verus!
