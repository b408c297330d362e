//! Which patches may be applied: those whose headers name no place outside the
//! workspace.

use crate::bridge::{BridgeError, BridgeErrorView};
use crate::text::{
    contains, first_word_is_read, glue, has_text, is_space, lines, lines_of, piece_stands_between,
    same, starts_with, strip_prefix, view_strs, words, words_of,
};
use vstd::prelude::*;

verus! {

/// Whether a line of a patch names a file.
pub open spec fn is_header(line: Seq<char>) -> bool {
    "--- "@.is_prefix_of(line) || "+++ "@.is_prefix_of(line)
}

/// `s` without every `prefix` in front.
pub open spec fn without_leading(s: Seq<char>, prefix: Seq<char>) -> Seq<char>
    decreases s.len(),
{
    if prefix.len() > 0 && prefix.is_prefix_of(s) {
        without_leading(s.skip(prefix.len() as int), prefix)
    } else {
        s
    }
}

fn strip_leading<'a>(s: &'a str, prefix: &str) -> (r: &'a str)
    requires
        prefix@.len() > 0,
    ensures
        r@ == without_leading(s@, prefix@),
    decreases s@.len(),
{
    match strip_prefix(s, prefix) {
        Some(rest) => strip_leading(rest, prefix),
        None => s,
    }
}

/// A path of a header without the marks of the old and the new side.
pub open spec fn header_path(path: Seq<char>) -> Seq<char> {
    without_leading(without_leading(path, "a/"@), "b/"@)
}

/// Whether a path could lead out of the workspace.
pub open spec fn is_suspect(path: Seq<char>) -> bool {
    contains(path, ".."@) || contains(path, ":"@) || "/"@.is_prefix_of(path)
        || "\\"@.is_prefix_of(path)
}

/// What is wrong with a line of a patch.
pub open spec fn line_error(line: Seq<char>) -> Option<BridgeErrorView> {
    if !is_header(line) {
        None
    } else if words(line).len() < 2 {
        Some(BridgeErrorView::Denied("invalid patch header"@))
    } else if words(line)[1] == "/dev/null"@ || !is_suspect(header_path(words(line)[1])) {
        None
    } else {
        Some(
            BridgeErrorView::Denied(
                "patch path is not allowed in workspace sandbox: "@ + header_path(words(line)[1]),
            ),
        )
    }
}

/// What is wrong with the first of some lines that anything is wrong with.
pub open spec fn first_error(ls: Seq<Seq<char>>) -> Option<BridgeErrorView>
    decreases ls.len(),
{
    if ls.len() == 0 {
        None
    } else if line_error(ls[0]) is Some {
        line_error(ls[0])
    } else {
        first_error(ls.skip(1))
    }
}

/// What is wrong with a patch.
pub open spec fn patch_error(patch: Seq<char>) -> Option<BridgeErrorView> {
    first_error(lines(patch))
}

fn check_line(line: &str) -> (r: Result<(), BridgeError>)
    ensures
        match r {
            Ok(()) => line_error(line@) is None,
            Err(e) => line_error(line@) == Some(e@),
        },
{
    if !starts_with(line, "--- ") && !starts_with(line, "+++ ") {
        return Ok(());
    }
    let ws = words_of(line);
    assert(view_strs(ws@).len() == ws@.len());
    if ws.len() < 2 {
        return Err(BridgeError::Denied("invalid patch header".to_owned()));
    }
    let path = ws[1];
    assert(view_strs(ws@)[1] == path@);
    if same(path, "/dev/null") {
        return Ok(());
    }
    proof {
        reveal_strlit("a/");
        reveal_strlit("b/");
    }
    let bare = strip_leading(strip_leading(path, "a/"), "b/");
    if has_text(bare, "..") || has_text(bare, ":") || starts_with(bare, "/") || starts_with(
        bare,
        "\\",
    ) {
        return Err(
            BridgeError::Denied(
                glue("patch path is not allowed in workspace sandbox: ", bare),
            ),
        );
    }
    Ok(())
}

/// Makes sure that the headers of a patch name no place outside the workspace.
pub fn validate_patch_paths(patch: &str) -> (r: Result<(), BridgeError>)
    ensures
        match r {
            Ok(()) => patch_error(patch@) is None,
            Err(e) => patch_error(patch@) == Some(e@),
        },
{
    let ls = lines_of(patch);
    let ghost model = view_strs(ls@);
    let mut i: usize = 0;
    assert(model.skip(0) =~= model);
    while i < ls.len()
        invariant
            i <= ls@.len(),
            model == view_strs(ls@),
            model == lines(patch@),
            first_error(model) == first_error(model.skip(i as int)),
        decreases ls@.len() - i,
    {
        assert(model.skip(i as int)[0] == ls@[i as int]@);
        match check_line(ls[i]) {
            Ok(()) => {},
            Err(e) => {
                return Err(e);
            },
        }
        assert(model.skip(i as int).skip(1) =~= model.skip(i + 1));
        i += 1;
    }
    Ok(())
}

proof fn lemma_no_error(ls: Seq<Seq<char>>, i: int)
    requires
        first_error(ls) is None,
        0 <= i < ls.len(),
    ensures
        line_error(ls[i]) is None,
    decreases ls.len(),
{
    if i > 0 {
        lemma_no_error(ls.skip(1), i - 1);
        assert(ls.skip(1)[i - 1] == ls[i]);
    }
}

/// In a patch that is let through every header names a path, and that path is
/// `/dev/null` or cannot lead out of the workspace: nowhere upwards, to no drive and
/// from no root.
pub proof fn accepted_patch_stays_in_workspace(patch: Seq<char>, i: int)
    requires
        patch_error(patch) is None,
        0 <= i < lines(patch).len(),
        is_header(lines(patch)[i]),
    ensures
        words(lines(patch)[i]).len() >= 2,
        words(lines(patch)[i])[1] != "/dev/null"@ ==> {
            let path = header_path(words(lines(patch)[i])[1]);
            &&& !contains(path, ".."@)
            &&& !contains(path, ":"@)
            &&& !"/"@.is_prefix_of(path)
            &&& !"\\"@.is_prefix_of(path)
        },
{
    lemma_no_error(lines(patch), i);
}

/// One bad header is enough for a patch to be refused.
pub proof fn bad_header_refuses_patch(patch: Seq<char>, i: int)
    requires
        0 <= i < lines(patch).len(),
        line_error(lines(patch)[i]) is Some,
    ensures
        patch_error(patch) is Some,
{
    if patch_error(patch) is None {
        lemma_no_error(lines(patch), i);
    }
}

/// Whether a path leads nowhere out of the workspace: nowhere upwards, to no drive and
/// from no root.
pub open spec fn is_harmless(path: Seq<char>) -> bool {
    &&& forall|x: Seq<char>, y: Seq<char>| path != #[trigger] (x + ".."@ + y)
    &&& !path.contains(':')
    &&& path.len() == 0 || path[0] != '/' && path[0] != '\\'
}

/// What is said of a path in a header that is not let through.
pub open spec fn refusal(path: Seq<char>) -> Option<BridgeErrorView> {
    Some(BridgeErrorView::Denied("patch path is not allowed in workspace sandbox: "@ + path))
}

proof fn lemma_suspect(path: Seq<char>)
    ensures
        is_suspect(path) == !is_harmless(path),
{
    reveal_strlit(":");
    reveal_strlit("/");
    reveal_strlit("\\");
    piece_stands_between(path, seq![], ".."@, seq![]);
    piece_stands_between(path, seq![], ":"@, seq![]);
    if contains(path, ":"@) {
        let (x, y) = choose|x: Seq<char>, y: Seq<char>| path == #[trigger] (x + ":"@ + y);
        assert(path[x.len() as int] == ':');
    }
    if path.contains(':') {
        let i = choose|i: int| 0 <= i < path.len() && path[i] == ':';
        let (x, y) = (path.take(i), path.skip(i + 1));
        assert(path =~= x + ":"@ + y);
        piece_stands_between(path, x, ":"@, y);
    }
    if !(forall|x: Seq<char>, y: Seq<char>| path != #[trigger] (x + ".."@ + y)) {
        let (x, y) = choose|x: Seq<char>, y: Seq<char>| path == #[trigger] (x + ".."@ + y);
        piece_stands_between(path, x, ".."@, y);
    }
    if path.len() > 0 {
        assert(path[0] == '/' ==> path.take(1) =~= "/"@);
        assert(path[0] == '\\' ==> path.take(1) =~= "\\"@);
        if "/"@.is_prefix_of(path) {
            assert(path[0] == "/"@[0]);
        }
        if "\\"@.is_prefix_of(path) {
            assert(path[0] == "\\"@[0]);
        }
    }
}

proof fn lemma_header_words(mark: Seq<char>, path: Seq<char>)
    requires
        mark == "--- "@ || mark == "+++ "@,
        path.len() > 0,
        forall|i: int| 0 <= i < path.len() ==> !is_space(#[trigger] path[i]),
    ensures
        is_header(mark + path),
        words(mark + path).len() == 2,
        words(mark + path)[1] == path,
{
    reveal_strlit("--- ");
    reveal_strlit("+++ ");
    let sign = mark.take(3);
    first_word_is_read(sign, ' ', path);
    first_word_is_read(path, ' ', seq![]);
    assert(mark + path =~= sign + seq![' '] + path);
    assert((mark + path).take(4) =~= mark);
}

proof fn lemma_side(side: Seq<char>, path: Seq<char>)
    requires
        side.len() == 0 || side == "a/"@ || side == "b/"@,
        !("a/"@).is_prefix_of(path),
        !("b/"@).is_prefix_of(path),
    ensures
        header_path(side + path) == path,
{
    reveal_strlit("a/");
    reveal_strlit("b/");
    reveal_with_fuel(without_leading, 2);
    let s = side + path;
    if side.len() == 0 {
        assert(s =~= path);
    } else {
        assert(s.skip(2) =~= path);
        assert(s.take(2) =~= side);
        assert(s[0] == side[0]);
        if "a/"@.is_prefix_of(s) {
            assert(s[0] == "a/"@[0]);
        }
    }
}

/// A header is let through exactly if the path in it, without the mark of its side, leads
/// nowhere out of the workspace, or is `/dev/null`; a refusal names the path.
pub proof fn header_is_judged_by_its_path(mark: Seq<char>, side: Seq<char>, path: Seq<char>)
    requires
        mark == "--- "@ || mark == "+++ "@,
        side.len() == 0 || side == "a/"@ || side == "b/"@,
        path.len() > 0,
        forall|i: int| 0 <= i < path.len() ==> !is_space(#[trigger] path[i]),
        !("a/"@).is_prefix_of(path),
        !("b/"@).is_prefix_of(path),
    ensures
        is_harmless(path) ==> line_error(mark + (side + path)) is None,
        !is_harmless(path) && side + path != "/dev/null"@ ==> line_error(mark + (side + path))
            == refusal(path),
        line_error(mark + "/dev/null"@) is None,
{
    reveal_strlit("a/");
    reveal_strlit("b/");
    reveal_strlit("/dev/null");
    let s = side + path;
    assert forall|i: int| 0 <= i < s.len() implies !is_space(#[trigger] s[i]) by {
        if i < side.len() {
            assert(s[i] == side[i]);
        } else {
            assert(s[i] == path[i - side.len()]);
        }
    }
    lemma_header_words(mark, s);
    lemma_header_words(mark, "/dev/null"@);
    lemma_side(side, path);
    lemma_suspect(path);
}

/// A line that does not start as a header is let through, and a header without a path is
/// not.
pub proof fn other_lines_are_let_through(line: Seq<char>)
    ensures
        !("--- "@).is_prefix_of(line) && !("+++ "@).is_prefix_of(line) ==> line_error(line) is None,
        line_error("--- "@) == Some(BridgeErrorView::Denied("invalid patch header"@)),
        line_error("+++ "@) == Some(BridgeErrorView::Denied("invalid patch header"@)),
{
    reveal_strlit("--- ");
    reveal_strlit("+++ ");
    let (old, new) = ("---"@, "+++"@);
    reveal_strlit("---");
    reveal_strlit("+++");
    first_word_is_read(old, ' ', seq![]);
    first_word_is_read(new, ' ', seq![]);
    assert("--- "@ =~= old + seq![' '] + Seq::<char>::empty());
    assert("+++ "@ =~= new + seq![' '] + Seq::<char>::empty());
    assert(words(Seq::<char>::empty()).len() == 0);
    assert("--- "@.is_prefix_of("--- "@));
    assert("+++ "@.is_prefix_of("+++ "@));
}

/// What is wrong with a patch is what is wrong with its first bad line, and a patch
/// without one is let through.
pub proof fn first_bad_line_decides(ls: Seq<Seq<char>>, i: int)
    requires
        0 <= i <= ls.len(),
        forall|j: int| 0 <= j < i ==> line_error(#[trigger] ls[j]) is None,
    ensures
        i == ls.len() ==> first_error(ls) is None,
        i < ls.len() && line_error(ls[i]) is Some ==> first_error(ls) == line_error(ls[i]),
    decreases ls.len(),
{
    if ls.len() > 0 && i > 0 {
        assert(line_error(ls[0]) is None);
        let rest = ls.skip(1);
        assert forall|j: int| 0 <= j < i - 1 implies line_error(#[trigger] rest[j]) is None by {
            assert(rest[j] == ls[j + 1]);
        }
        first_bad_line_decides(rest, i - 1);
    }
}

} // verus!
