//! Reading a plan: a task and its steps, out of free text.

use crate::text::{
    after_any, all_space, chars_of, decimal, first_line_is_read, first_piece_is_read, is_ascii_digit, is_bare,
    is_blank, is_digit, is_line, last_line_is_read, lemma_decimal_value, lines, lines_of, pieces_of,
    split_set, strip_any, trim, trimmed, trimming_keeps_the_rest, view_all, view_opt, view_opt_str,
    view_strs,
};
use vstd::prelude::*;

verus! {

/// What marks an item of a bulleted list.
pub const BULLETS: [&'static str; 3] = ["- ", "* ", "• "];

/// What follows the number of an item of a numbered list.
pub const NUMBER_MARKS: [&'static str; 3] = [". ", ") ", "、"];

/// What separates steps that stand on one line.
pub const STEP_SEPARATORS: [char; 4] = [',', '，', ';', '；'];

/// How many digits `s` starts with.
pub open spec fn leading_digits(s: Seq<char>) -> nat
    decreases s.len(),
{
    if s.len() == 0 || !is_digit(s[0]) {
        0
    } else {
        1 + leading_digits(s.skip(1))
    }
}

/// The text of a list item: what follows `- `, `* `, `• `, or a number and one of
/// `. `, `) `, `、`. A line without such a mark is no list item.
pub open spec fn list_item(s: Seq<char>) -> Option<Seq<char>> {
    match after_any(s, BULLETS@) {
        Some(rest) => Some(trim(rest)),
        None => if leading_digits(s) > 0 {
            match after_any(s.skip(leading_digits(s) as int), NUMBER_MARKS@) {
                Some(rest) => Some(trim(rest)),
                None => None,
            }
        } else {
            None
        },
    }
}

pub fn strip_list_prefix<'a>(s: &'a str) -> (r: Option<&'a str>)
    ensures
        view_opt_str(r) == list_item(s@),
{
    match strip_any(s, BULLETS.as_slice()) {
        Some(rest) => {
            return Some(trimmed(rest));
        },
        None => {},
    }
    let cs = chars_of(s);
    let n: usize = cs.len();
    let mut k: usize = 0;
    assert(s@.skip(0) =~= s@);
    while k < n && is_ascii_digit(cs[k])
        invariant
            cs@ == s@,
            n == s@.len(),
            k <= n,
            leading_digits(s@) == k + leading_digits(s@.skip(k as int)),
        decreases n - k,
    {
        assert(s@.skip(k as int).skip(1) =~= s@.skip(k + 1));
        k += 1;
    }
    if k > 0 {
        match strip_any(s.substring_char(k, n), NUMBER_MARKS.as_slice()) {
            Some(rest) => {
                return Some(trimmed(rest));
            },
            None => {},
        }
    }
    None
}

/// A plan as far as it has been read.
#[verifier::ext_equal]
pub ghost struct PlanSoFar {
    /// The task; `None` until a line has given it.
    pub task: Option<Seq<char>>,
    pub steps: Seq<Seq<char>>,
}

/// The steps of a line that holds several, in order, without the blank ones.
pub open spec fn nonblank(pieces: Seq<Seq<char>>) -> Seq<Seq<char>>
    decreases pieces.len(),
{
    if pieces.len() == 0 {
        seq![]
    } else {
        let rest = nonblank(pieces.drop_last());
        if is_blank(pieces.last()) {
            rest
        } else {
            rest.push(trim(pieces.last()))
        }
    }
}

/// What one more line adds to a plan. A blank line adds nothing, a list item adds
/// a step, the first other line is the task, and any later one is a row of steps.
pub open spec fn plan_line(plan: PlanSoFar, line: Seq<char>) -> PlanSoFar {
    let l = trim(line);
    if l.len() == 0 {
        plan
    } else if list_item(l) is Some {
        PlanSoFar { steps: plan.steps.push(list_item(l)->0), ..plan }
    } else if plan.task is None {
        PlanSoFar { task: Some(l), ..plan }
    } else {
        PlanSoFar { steps: plan.steps + nonblank(split_set(l, STEP_SEPARATORS@)), ..plan }
    }
}

/// What some lines make of a plan.
pub open spec fn plan_lines(all: Seq<Seq<char>>) -> PlanSoFar
    decreases all.len(),
{
    if all.len() == 0 {
        PlanSoFar { task: None, steps: seq![] }
    } else {
        plan_line(plan_lines(all.drop_last()), all.last())
    }
}

/// The steps of a plan.
pub open spec fn plan_steps(text: Seq<char>) -> Seq<Seq<char>> {
    plan_lines(lines(text)).steps
}

/// The task of a plan: the line that gives it; else a stand-in where there are
/// steps, and the text itself where there are none.
pub open spec fn plan_task(text: Seq<char>) -> Seq<char> {
    let plan = plan_lines(lines(text));
    if plan.task is Some {
        plan.task->0
    } else if plan.steps.len() > 0 {
        "任务"@
    } else {
        trim(text)
    }
}

fn push_nonblank(steps: &mut Vec<String>, line: &str)
    ensures
        view_all(final(steps)@) == view_all(old(steps)@) + nonblank(
            split_set(line@, STEP_SEPARATORS@),
        ),
{
    let pieces = pieces_of(line, STEP_SEPARATORS.as_slice());
    let ghost all = view_strs(pieces@);
    let ghost start = view_all(steps@);
    let mut i: usize = 0;
    assert(all.take(0) =~= seq![]);
    assert(start + nonblank(all.take(0)) =~= start);
    while i < pieces.len()
        invariant
            i <= pieces@.len(),
            all == view_strs(pieces@),
            start == view_all(old(steps)@),
            view_all(steps@) == start + nonblank(all.take(i as int)),
        decreases pieces@.len() - i,
    {
        let item = trimmed(pieces[i]);
        let ghost before = steps@;
        proof {
            assert(all.take(i + 1).drop_last() =~= all.take(i as int));
            assert(all.take(i + 1).last() == pieces@[i as int]@);
        }
        if !item.is_empty() {
            steps.push(item.to_owned());
            proof {
                assert(view_all(steps@) =~= view_all(before).push(item@));
                assert(view_all(steps@) =~= start + nonblank(all.take(i + 1)));
            }
        }
        i += 1;
    }
    assert(all.take(i as int) =~= all);
}

/// The task and the steps of a plan.
pub fn parse_plan_body(text: &str) -> (r: (String, Vec<String>))
    ensures
        r.0@ == plan_task(text@),
        view_all(r.1@) == plan_steps(text@),
{
    let all = lines_of(text);
    let ghost model = view_strs(all@);
    let mut task: Option<String> = None;
    let mut steps: Vec<String> = Vec::new();
    let mut i: usize = 0;
    proof {
        assert(model.take(0) =~= seq![]);
        assert(view_all(steps@) =~= seq![]);
    }
    while i < all.len()
        invariant
            i <= all@.len(),
            model == view_strs(all@),
            view_opt(task) == plan_lines(model.take(i as int)).task,
            view_all(steps@) == plan_lines(model.take(i as int)).steps,
        decreases all@.len() - i,
    {
        let line = trimmed(all[i]);
        let ghost before = steps@;
        proof {
            assert(model.take(i + 1).drop_last() =~= model.take(i as int));
            assert(model.take(i + 1).last() == all@[i as int]@);
        }
        if !line.is_empty() {
            match strip_list_prefix(line) {
                Some(step) => {
                    steps.push(step.to_owned());
                    assert(view_all(steps@) =~= view_all(before).push(step@));
                },
                None => {
                    if task.is_none() {
                        task = Some(line.to_owned());
                    } else {
                        push_nonblank(&mut steps, line);
                    }
                },
            }
        }
        i += 1;
    }
    assert(model.take(i as int) =~= model);
    let description: String = match task {
        Some(t) => t,
        None => if steps.len() > 0 {
            "任务".to_owned()
        } else {
            trimmed(text).to_owned()
        },
    };
    (description, steps)
}

// ---------------------------------------------------------------------------
// Laws
// ---------------------------------------------------------------------------

proof fn lemma_task_is_said(all: Seq<Seq<char>>)
    ensures
        plan_lines(all).task matches Some(task) ==> task.len() > 0,
    decreases all.len(),
{
    if all.len() > 0 {
        lemma_task_is_said(all.drop_last());
    }
}

/// A plan that says anything has a task, whether or not a line gives it.
pub proof fn plan_has_a_task(text: Seq<char>)
    requires
        !is_blank(text),
    ensures
        plan_task(text).len() > 0,
{
    reveal_strlit("任务");
    lemma_task_is_said(lines(text));
}

/// Lines that are read later never change the task, nor the steps that came before.
pub proof fn plan_only_grows(all: Seq<Seq<char>>, line: Seq<char>)
    ensures
        plan_lines(all).task is Some ==> plan_lines(all.push(line)).task == plan_lines(all).task,
        plan_lines(all).steps.is_prefix_of(plan_lines(all.push(line)).steps),
{
    assert(all.push(line).drop_last() =~= all);
}

/// Whether `mark` starts an item of a list.
pub open spec fn is_list_mark(mark: Seq<char>) -> bool {
    ||| mark == "- "@
    ||| mark == "* "@
    ||| mark == "• "@
    ||| exists|k: nat| mark == #[trigger] decimal(k) + ". "@
    ||| exists|k: nat| mark == #[trigger] decimal(k) + ") "@
    ||| exists|k: nat| mark == #[trigger] decimal(k) + "、"@
}

/// Whether a text can stand on a line of its own as a task or a step.
pub open spec fn is_said(s: Seq<char>) -> bool {
    is_bare(s) && !s.contains('\n')
}

/// Whether a text starts with nothing that a mark of a list starts with.
pub open spec fn starts_plainly(s: Seq<char>) -> bool {
    s[0] != '-' && s[0] != '*' && s[0] != '•' && !('0' <= s[0] <= '9')
}

/// A plan as it is written: the task, and below it each step behind a mark.
pub open spec fn written_plan(
    task: Seq<char>,
    items: Seq<(Seq<char>, Seq<char>)>,
) -> Seq<char>
    decreases items.len(),
{
    if items.len() == 0 {
        task
    } else {
        written_plan(task, items.drop_last()) + seq!['\n'] + (items.last().0 + items.last().1)
    }
}

proof fn lemma_leading_digits(ds: Seq<char>, rest: Seq<char>)
    requires
        forall|i: int| 0 <= i < ds.len() ==> is_digit(#[trigger] ds[i]),
        rest.len() > 0,
        !is_digit(rest[0]),
    ensures
        leading_digits(ds + rest) == ds.len(),
    decreases ds.len(),
{
    let s = ds + rest;
    if ds.len() > 0 {
        assert(s[0] == ds[0]);
        assert(s.skip(1) =~= ds.skip(1) + rest);
        assert forall|i: int| 0 <= i < ds.skip(1).len() implies is_digit(#[trigger] ds.skip(1)[i]) by {
            assert(ds.skip(1)[i] == ds[i + 1]);
        }
        lemma_leading_digits(ds.skip(1), rest);
    } else {
        assert(s[0] == rest[0]);
    }
}

proof fn lemma_no_bullet(s: Seq<char>)
    requires
        s.len() > 0,
        s[0] != '-' && s[0] != '*' && s[0] != '•',
    ensures
        after_any(s, BULLETS@) is None,
{
    reveal_strlit("- ");
    reveal_strlit("* ");
    reveal_strlit("• ");
    reveal_with_fuel(after_any, 4);
    let all = BULLETS@;
    assert(all.skip(1)[0] == all[1] && all.skip(1).skip(1)[0] == all[2]);
    assert("- "@.is_prefix_of(s) ==> s[0] == "- "@[0]);
    assert("* "@.is_prefix_of(s) ==> s[0] == "* "@[0]);
    assert("• "@.is_prefix_of(s) ==> s[0] == "• "@[0]);
}

proof fn lemma_bullet_item(bullet: Seq<char>, rest: Seq<char>)
    requires
        bullet == "- "@ || bullet == "* "@ || bullet == "• "@,
    ensures
        list_item(bullet + rest) == Some(trim(rest)),
        bullet.len() == 2,
        bullet[1] == ' ',
        bullet[0] == '-' || bullet[0] == '*' || bullet[0] == '•',
{
    reveal_strlit("- ");
    reveal_strlit("* ");
    reveal_strlit("• ");
    reveal_with_fuel(after_any, 4);
    let all = BULLETS@;
    let s = bullet + rest;
    assert(all.skip(1)[0] == all[1] && all.skip(1).skip(1)[0] == all[2]);
    assert(s[0] == bullet[0]);
    assert(bullet.is_prefix_of(s));
    assert("- "@.is_prefix_of(s) ==> s[0] == "- "@[0]);
    assert("* "@.is_prefix_of(s) ==> s[0] == "* "@[0]);
    assert(s.skip(2) =~= rest);
}

proof fn lemma_numbered_item(k: nat, mark: Seq<char>, rest: Seq<char>)
    requires
        mark == ". "@ || mark == ") "@ || mark == "、"@,
    ensures
        list_item(decimal(k) + mark + rest) == Some(trim(rest)),
        decimal(k).len() > 0,
        is_digit(decimal(k)[0]),
        mark.len() > 0,
{
    reveal_strlit(". ");
    reveal_strlit(") ");
    reveal_strlit("、");
    lemma_decimal_value(k);
    let ds = decimal(k);
    let s = ds + mark + rest;
    assert(s =~= ds + (mark + rest));
    assert((mark + rest)[0] == mark[0]);
    assert(is_digit(ds[0]) && s[0] == ds[0]);
    lemma_no_bullet(s);
    lemma_leading_digits(ds, mark + rest);
    let behind = s.skip(ds.len() as int);
    assert(behind =~= mark + rest);
    reveal_with_fuel(after_any, 4);
    let all = NUMBER_MARKS@;
    assert(all.skip(1)[0] == all[1] && all.skip(1).skip(1)[0] == all[2]);
    assert(mark.is_prefix_of(behind));
    assert(". "@.is_prefix_of(behind) ==> behind[0] == ". "@[0]);
    assert(") "@.is_prefix_of(behind) ==> behind[0] == ") "@[0]);
    assert(behind.skip(mark.len() as int) =~= rest);
}

proof fn lemma_bare_trim(s: Seq<char>)
    requires
        is_bare(s),
    ensures
        trim(s) == s,
{
}

/// An item of a list is what stands behind its mark, without the white space round it,
/// every character kept.
pub proof fn item_is_what_follows_mark(mark: Seq<char>, s: Seq<char>)
    requires
        is_list_mark(mark),
        is_bare(s),
    ensures
        list_item(mark + s) == Some(s),
        is_bare(mark + s),
        !mark.contains('\n'),
{
    lemma_bare_trim(s);
    reveal_strlit(". ");
    reveal_strlit(") ");
    reveal_strlit("、");
    if mark == "- "@ || mark == "* "@ || mark == "• "@ {
        lemma_bullet_item(mark, s);
        assert((mark + s)[0] == mark[0]);
        assert(!mark.contains('\n')) by {
            assert(mark[0] != '\n' && mark[1] != '\n');
        }
    } else {
        let (k, sign) = if exists|k: nat| mark == #[trigger] decimal(k) + ". "@ {
            (choose|k: nat| mark == #[trigger] decimal(k) + ". "@, ". "@)
        } else if exists|k: nat| mark == #[trigger] decimal(k) + ") "@ {
            (choose|k: nat| mark == #[trigger] decimal(k) + ") "@, ") "@)
        } else {
            (choose|k: nat| mark == #[trigger] decimal(k) + "、"@, "、"@)
        };
        assert(mark == decimal(k) + sign);
        lemma_numbered_item(k, sign, s);
        lemma_decimal_value(k);
        assert((mark + s)[0] == decimal(k)[0]);
        assert forall|i: int| 0 <= i < mark.len() implies mark[i] != '\n' by {
            if i < decimal(k).len() {
                assert(is_digit(decimal(k)[i]));
            } else {
                assert(mark[i] == sign[i - decimal(k).len()]);
            }
        }
    }
    assert((mark + s).last() == s.last());
}

/// A line that starts with a mark adds one step, the text behind the mark without the
/// white space round it, and leaves the rest of the plan as it was.
pub proof fn marked_line_is_a_step(
    all: Seq<Seq<char>>,
    lead: Seq<char>,
    mark: Seq<char>,
    gap: Seq<char>,
    s: Seq<char>,
    tail: Seq<char>,
)
    requires
        all_space(lead),
        is_list_mark(mark),
        all_space(gap),
        is_bare(s),
        all_space(tail),
    ensures
        plan_lines(all.push(lead + (mark + gap + s) + tail)).steps == plan_lines(all).steps.push(s),
        plan_lines(all.push(lead + (mark + gap + s) + tail)).task == plan_lines(all).task,
{
    let line = lead + (mark + gap + s) + tail;
    assert(all.push(line).drop_last() =~= all);
    assert(all.push(line).last() == line);
    let l = mark + gap + s;
    item_is_what_follows_mark(mark, s);
    reveal_strlit(". ");
    reveal_strlit(") ");
    reveal_strlit("、");
    trimming_keeps_the_rest(gap, s, seq![]);
    assert(gap + s + Seq::<char>::empty() =~= gap + s);
    assert(l =~= mark + (gap + s));
    if mark == "- "@ || mark == "* "@ || mark == "• "@ {
        lemma_bullet_item(mark, gap + s);
    } else {
        let (k, sign) = if exists|k: nat| mark == #[trigger] decimal(k) + ". "@ {
            (choose|k: nat| mark == #[trigger] decimal(k) + ". "@, ". "@)
        } else if exists|k: nat| mark == #[trigger] decimal(k) + ") "@ {
            (choose|k: nat| mark == #[trigger] decimal(k) + ") "@, ") "@)
        } else {
            (choose|k: nat| mark == #[trigger] decimal(k) + "、"@, "、"@)
        };
        lemma_numbered_item(k, sign, gap + s);
        assert(mark[0] == decimal(k)[0]);
    }
    assert(l[0] == (mark + s)[0]);
    assert(l.last() == s.last());
    trimming_keeps_the_rest(lead, l, tail);
}

/// A line of white space adds nothing to a plan.
pub proof fn blank_line_adds_nothing(all: Seq<Seq<char>>, line: Seq<char>)
    requires
        all_space(line),
    ensures
        plan_lines(all.push(line)) == plan_lines(all),
{
    assert(all.push(line).drop_last() =~= all);
    trimming_keeps_the_rest(seq![], seq![], line);
    assert(Seq::<char>::empty() + line =~= line);
}

proof fn lemma_written_end(task: Seq<char>, items: Seq<(Seq<char>, Seq<char>)>)
    requires
        is_said(task),
        forall|i: int|
            0 <= i < items.len() ==> is_list_mark((#[trigger] items[i]).0) && is_said(items[i].1),
    ensures
        is_bare(written_plan(task, items)),
    decreases items.len(),
{
    if items.len() > 0 {
        let init = items.drop_last();
        assert forall|i: int| 0 <= i < init.len() implies is_list_mark((#[trigger] init[i]).0)
            && is_said(init[i].1) by {
            assert(init[i] == items[i]);
        }
        lemma_written_end(task, init);
        let before = written_plan(task, init);
        let s = written_plan(task, items);
        assert(is_list_mark(items[items.len() - 1].0));
        assert(s[0] == before[0]);
        assert(s.last() == items.last().1.last());
    }
}

/// A plan is read as it was written: the task is the task, and the steps are the steps,
/// in order, every character of each kept.
pub proof fn plan_keeps_what_is_written(task: Seq<char>, items: Seq<(Seq<char>, Seq<char>)>)
    requires
        is_said(task),
        starts_plainly(task),
        forall|i: int|
            0 <= i < items.len() ==> is_list_mark((#[trigger] items[i]).0) && is_said(items[i].1),
    ensures
        plan_task(written_plan(task, items)) == task,
        plan_steps(written_plan(task, items)) == items.map_values(
            |item: (Seq<char>, Seq<char>)| item.1,
        ),
    decreases items.len(),
{
    let steps = items.map_values(|item: (Seq<char>, Seq<char>)| item.1);
    let text = written_plan(task, items);
    if items.len() == 0 {
        first_line_is_read(task, seq![]);
        lemma_no_bullet(task);
        lemma_bare_trim(task);
        assert(leading_digits(task) == 0);
        assert(lines(task).drop_last() =~= seq![]);
        assert(plan_lines(lines(task).drop_last()) == (PlanSoFar { task: None, steps: seq![] }));
        assert(plan_steps(text) =~= steps);
    } else {
        let init = items.drop_last();
        assert forall|i: int| 0 <= i < init.len() implies is_list_mark((#[trigger] init[i]).0)
            && is_said(init[i].1) by {
            assert(init[i] == items[i]);
        }
        plan_keeps_what_is_written(task, init);
        lemma_written_end(task, init);
        lemma_task_given(task, init);
        let before = written_plan(task, init);
        let (mark, s) = items.last();
        assert(is_list_mark(items[items.len() - 1].0) && is_said(items[items.len() - 1].1));
        item_is_what_follows_mark(mark, s);
        let line = mark + s;
        assert(is_line(line)) by {
            assert forall|i: int| 0 <= i < line.len() implies line[i] != '\n' by {
                if i < mark.len() {
                    assert(mark.contains(mark[i]));
                } else {
                    assert(line[i] == s[i - mark.len()]);
                    assert(s.contains(s[i - mark.len()]));
                }
            }
        }
        last_line_is_read(before, line);
        assert(lines(text) == lines(before).push(line));
        assert(lines(text).drop_last() =~= lines(before));
        lemma_bare_trim(line);
        assert(plan_steps(text) == plan_steps(before).push(s));
        assert(plan_steps(text) =~= steps);
    }
}

proof fn lemma_task_given(task: Seq<char>, items: Seq<(Seq<char>, Seq<char>)>)
    requires
        is_said(task),
        starts_plainly(task),
        forall|i: int|
            0 <= i < items.len() ==> is_list_mark((#[trigger] items[i]).0) && is_said(items[i].1),
    ensures
        plan_lines(lines(written_plan(task, items))).task == Some(task),
    decreases items.len(),
{
    if items.len() == 0 {
        first_line_is_read(task, seq![]);
        lemma_no_bullet(task);
        lemma_bare_trim(task);
        assert(lines(task).drop_last() =~= seq![]);
        assert(plan_lines(lines(task).drop_last()) == (PlanSoFar { task: None, steps: seq![] }));
    } else {
        let init = items.drop_last();
        assert forall|i: int| 0 <= i < init.len() implies is_list_mark((#[trigger] init[i]).0)
            && is_said(init[i].1) by {
            assert(init[i] == items[i]);
        }
        lemma_task_given(task, init);
        lemma_written_end(task, init);
        let before = written_plan(task, init);
        let (mark, s) = items.last();
        assert(is_list_mark(items[items.len() - 1].0) && is_said(items[items.len() - 1].1));
        item_is_what_follows_mark(mark, s);
        let line = mark + s;
        assert(is_line(line)) by {
            assert forall|i: int| 0 <= i < line.len() implies line[i] != '\n' by {
                if i < mark.len() {
                    assert(mark.contains(mark[i]));
                } else {
                    assert(line[i] == s[i - mark.len()]);
                    assert(s.contains(s[i - mark.len()]));
                }
            }
        }
        last_line_is_read(before, line);
        assert(lines(written_plan(task, items)).drop_last() =~= lines(before));
        lemma_bare_trim(line);
    }
}

/// A line below the task that is no item of a list is a row of steps, parted at commas
/// and semicolons, every character of each step kept.
pub proof fn row_of_steps_is_parted(task: Seq<char>, a: Seq<char>, sep: char, b: Seq<char>)
    requires
        is_said(task),
        starts_plainly(task),
        is_said(a),
        starts_plainly(a),
        is_said(b),
        sep == ',' || sep == '，' || sep == ';' || sep == '；',
        forall|i: int| 0 <= i < a.len() ==> !STEP_SEPARATORS@.contains(#[trigger] a[i]),
        forall|i: int| 0 <= i < b.len() ==> !STEP_SEPARATORS@.contains(#[trigger] b[i]),
    ensures
        plan_task(task + seq!['\n'] + (a + seq![sep] + b)) == task,
        plan_steps(task + seq!['\n'] + (a + seq![sep] + b)) == seq![a, b],
{
    let none = Seq::<(Seq<char>, Seq<char>)>::empty();
    plan_keeps_what_is_written(task, none);
    lemma_task_given(task, none);
    let row = a + seq![sep] + b;
    assert(row[0] == a[0] && row.last() == b.last());
    assert(is_line(row)) by {
        assert forall|i: int| 0 <= i < row.len() implies row[i] != '\n' by {
            if i < a.len() {
                assert(a.contains(a[i]));
            } else if i > a.len() {
                assert(row[i] == b[i - a.len() - 1]);
                assert(b.contains(b[i - a.len() - 1]));
            }
        }
    }
    last_line_is_read(task, row);
    let text = task + seq!['\n'] + row;
    assert(lines(text).drop_last() =~= lines(task));
    lemma_bare_trim(row);
    lemma_bare_trim(a);
    lemma_bare_trim(b);
    lemma_no_bullet(row);
    let stop = STEP_SEPARATORS@;
    assert(stop[0] == ',' && stop[1] == '，' && stop[2] == ';' && stop[3] == '；');
    assert(stop.contains(sep));
    first_piece_is_read(a, stop, sep, b);
    first_piece_is_read(b, stop, sep, seq![]);
    let pieces = split_set(row, stop);
    assert(pieces =~= seq![a, b]);
    reveal_with_fuel(nonblank, 3);
    assert(pieces.drop_last() =~= seq![a]);
    assert(pieces.drop_last().drop_last() =~= seq![]);
    assert(nonblank(pieces) =~= seq![a, b]);
    assert(plan_steps(text) =~= seq![a, b]);
}

} // verus!
