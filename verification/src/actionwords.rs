//! The literal forms of an action on the workspace.

use crate::intent::{is_action, view_intent, Intent, IntentView};
use crate::text::{
    after_any, after_prefix, split_at_first, split_once, strip_any, strip_prefix, trim, trimmed,
};
use crate::unicode::{lower, to_lower};
use vstd::prelude::*;

verus! {

pub const READ_PREFIXES: [&'static str; 3] = ["/read ", "read ", "读 "];

pub const LIST_PREFIXES: [&'static str; 4] = ["/ls ", "ls ", "list ", "看 "];

pub const SEARCH_PREFIXES: [&'static str; 3] = ["/search ", "search ", "搜 "];

pub const DIFF_PREFIXES: [&'static str; 2] = ["/diff", "diff"];

pub const TEST_PREFIXES: [&'static str; 2] = ["/test", "test"];

pub const READ_PHRASES: [&'static str; 4] = ["读取文件 ", "读取 ", "打开文件 ", "查看文件 "];

pub const LIST_PHRASES: [&'static str; 3] = ["列出目录 ", "查看目录 ", "看看目录 "];

pub const DIFF_PHRASES: [&'static str; 2] = ["查看变更", "查看diff"];

pub const TEST_PHRASES: [&'static str; 2] = ["运行测试", "执行测试"];

/// `<path> <query>`, parted at the first space. Without a space there is no query.
pub open spec fn search_command(rest: Seq<char>) -> IntentView {
    match split_once(rest, " "@) {
        Some(parts) => IntentView::Search { path: trim(parts.0), query: trim(parts.1) },
        None => IntentView::Search { path: trim(rest), query: seq![] },
    }
}

/// The action that a command names. `/diff` and `/test` take what follows in lower
/// case, the others as it stands, and only `/patch` keeps white space at its ends.
pub open spec fn command_action(text: Seq<char>) -> Option<IntentView> {
    if after_any(text, READ_PREFIXES@) is Some {
        Some(IntentView::Read(trim(after_any(text, READ_PREFIXES@)->0)))
    } else if after_any(text, LIST_PREFIXES@) is Some {
        Some(IntentView::List(trim(after_any(text, LIST_PREFIXES@)->0)))
    } else if after_any(text, SEARCH_PREFIXES@) is Some {
        Some(search_command(after_any(text, SEARCH_PREFIXES@)->0))
    } else if after_any(lower(text), DIFF_PREFIXES@) is Some {
        Some(IntentView::Diff(trim(after_any(lower(text), DIFF_PREFIXES@)->0)))
    } else if after_prefix(text, "/patch "@) is Some {
        Some(IntentView::Patch(after_prefix(text, "/patch "@)->0))
    } else if after_any(lower(text), TEST_PREFIXES@) is Some {
        Some(IntentView::Test(trim(after_any(lower(text), TEST_PREFIXES@)->0)))
    } else if after_prefix(text, "跑测试"@) is Some {
        Some(IntentView::Test(trim(after_prefix(text, "跑测试"@)->0)))
    } else {
        None
    }
}

/// `<path> 中搜索 <query>`.
pub open spec fn search_in_phrase(rest: Seq<char>) -> Option<IntentView> {
    match split_once(rest, " 中搜索 "@) {
        Some(parts) => Some(IntentView::Search { path: trim(parts.0), query: trim(parts.1) }),
        None => None,
    }
}

/// The search that a phrase in lower case names: in a place, or in the whole
/// workspace.
pub open spec fn search_phrase(low: Seq<char>) -> Option<IntentView> {
    if after_prefix(low, "在 "@) is Some && search_in_phrase(
        after_prefix(low, "在 "@)->0,
    ) is Some {
        search_in_phrase(after_prefix(low, "在 "@)->0)
    } else if after_prefix(low, "搜索 "@) is Some {
        Some(IntentView::Search { path: "."@, query: trim(after_prefix(low, "搜索 "@)->0) })
    } else {
        None
    }
}

/// The action that a Chinese phrase names; the phrase is taken in lower case.
pub open spec fn phrase_action(low: Seq<char>) -> Option<IntentView> {
    if after_any(low, READ_PHRASES@) is Some {
        Some(IntentView::Read(trim(after_any(low, READ_PHRASES@)->0)))
    } else if after_any(low, LIST_PHRASES@) is Some {
        Some(IntentView::List(trim(after_any(low, LIST_PHRASES@)->0)))
    } else if after_any(low, DIFF_PHRASES@) is Some {
        Some(IntentView::Diff(trim(after_any(low, DIFF_PHRASES@)->0)))
    } else if search_phrase(low) is Some {
        search_phrase(low)
    } else if after_any(low, TEST_PHRASES@) is Some {
        Some(IntentView::Test(trim(after_any(low, TEST_PHRASES@)->0)))
    } else {
        None
    }
}

/// The action that a text names by a command or a phrase.
pub open spec fn literal_action(text: Seq<char>) -> Option<IntentView> {
    if command_action(text) is Some {
        command_action(text)
    } else {
        phrase_action(lower(text))
    }
}

fn parse_search_command(rest: &str) -> (r: Intent)
    ensures
        r@ == search_command(rest@),
{
    match split_at_first(rest, " ") {
        Some((path, query)) => Intent::Search {
            path: trimmed(path).to_owned(),
            query: trimmed(query).to_owned(),
        },
        None => Intent::Search { path: trimmed(rest).to_owned(), query: String::new() },
    }
}

fn parse_command_action(text: &str, low: &str) -> (r: Option<Intent>)
    requires
        low@ == lower(text@),
    ensures
        view_intent(r) == command_action(text@),
{
    match strip_any(text, READ_PREFIXES.as_slice()) {
        Some(path) => {
            return Some(Intent::Read(trimmed(path).to_owned()));
        },
        None => {},
    }
    match strip_any(text, LIST_PREFIXES.as_slice()) {
        Some(path) => {
            return Some(Intent::List(trimmed(path).to_owned()));
        },
        None => {},
    }
    match strip_any(text, SEARCH_PREFIXES.as_slice()) {
        Some(rest) => {
            return Some(parse_search_command(rest));
        },
        None => {},
    }
    match strip_any(low, DIFF_PREFIXES.as_slice()) {
        Some(path) => {
            return Some(Intent::Diff(trimmed(path).to_owned()));
        },
        None => {},
    }
    match strip_prefix(text, "/patch ") {
        Some(patch) => {
            return Some(Intent::Patch(patch.to_owned()));
        },
        None => {},
    }
    match strip_any(low, TEST_PREFIXES.as_slice()) {
        Some(filter) => {
            return Some(Intent::Test(trimmed(filter).to_owned()));
        },
        None => {},
    }
    match strip_prefix(text, "跑测试") {
        Some(filter) => Some(Intent::Test(trimmed(filter).to_owned())),
        None => None,
    }
}

fn parse_search_phrase(low: &str) -> (r: Option<Intent>)
    ensures
        view_intent(r) == search_phrase(low@),
{
    match strip_prefix(low, "在 ") {
        Some(rest) => match split_at_first(rest, " 中搜索 ") {
            Some((path, query)) => {
                return Some(
                    Intent::Search {
                        path: trimmed(path).to_owned(),
                        query: trimmed(query).to_owned(),
                    },
                );
            },
            None => {},
        },
        None => {},
    }
    match strip_prefix(low, "搜索 ") {
        Some(query) => Some(
            Intent::Search { path: ".".to_owned(), query: trimmed(query).to_owned() },
        ),
        None => None,
    }
}

fn parse_phrase_action(low: &str) -> (r: Option<Intent>)
    ensures
        view_intent(r) == phrase_action(low@),
{
    match strip_any(low, READ_PHRASES.as_slice()) {
        Some(path) => {
            return Some(Intent::Read(trimmed(path).to_owned()));
        },
        None => {},
    }
    match strip_any(low, LIST_PHRASES.as_slice()) {
        Some(path) => {
            return Some(Intent::List(trimmed(path).to_owned()));
        },
        None => {},
    }
    match strip_any(low, DIFF_PHRASES.as_slice()) {
        Some(path) => {
            return Some(Intent::Diff(trimmed(path).to_owned()));
        },
        None => {},
    }
    match parse_search_phrase(low) {
        Some(search) => {
            return Some(search);
        },
        None => {},
    }
    match strip_any(low, TEST_PHRASES.as_slice()) {
        Some(filter) => Some(Intent::Test(trimmed(filter).to_owned())),
        None => None,
    }
}

/// The action that `text` names by a command or a phrase.
pub fn parse_literal_action(text: &str) -> (r: Option<Intent>)
    ensures
        view_intent(r) == literal_action(text@),
{
    let low = to_lower(text);
    match parse_command_action(text, low.as_str()) {
        Some(action) => Some(action),
        None => parse_phrase_action(low.as_str()),
    }
}

/// What is read as a literal action is an action, and nothing else.
pub proof fn literal_action_is_action(text: Seq<char>)
    ensures
        literal_action(text) matches Some(i) ==> is_action(i),
{
}

} // verus!
