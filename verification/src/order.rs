//! Putting things in order.

use crate::text::{chars_of, view_all};
use vstd::prelude::*;

verus! {

// ---------------------------------------------------------------------------
// The order of texts
// ---------------------------------------------------------------------------

/// Whether `a` comes before `b`: by the first character that differs, and a text
/// before any that it is a prefix of.
pub open spec fn text_lt(a: Seq<char>, b: Seq<char>) -> bool
    decreases a.len(),
{
    if b.len() == 0 {
        false
    } else if a.len() == 0 {
        true
    } else if a[0] != b[0] {
        a[0] < b[0]
    } else {
        text_lt(a.skip(1), b.skip(1))
    }
}

/// Whether `a` comes before `b`.
pub fn is_before(a: &str, b: &str) -> (r: bool)
    ensures
        r == text_lt(a@, b@),
{
    let xs = chars_of(a);
    let ys = chars_of(b);
    let mut i: usize = 0;
    assert(a@.skip(0) =~= a@ && b@.skip(0) =~= b@);
    while i < xs.len() && i < ys.len()
        invariant
            xs@ == a@,
            ys@ == b@,
            i <= xs@.len(),
            i <= ys@.len(),
            text_lt(a@, b@) == text_lt(a@.skip(i as int), b@.skip(i as int)),
        decreases xs@.len() - i,
    {
        if xs[i] != ys[i] {
            return xs[i] < ys[i];
        }
        assert(a@.skip(i as int).skip(1) =~= a@.skip(i + 1));
        assert(b@.skip(i as int).skip(1) =~= b@.skip(i + 1));
        i += 1;
    }
    i < ys.len()
}

/// No text comes before itself.
pub proof fn text_lt_irreflexive(a: Seq<char>)
    ensures
        !text_lt(a, a),
    decreases a.len(),
{
    if a.len() > 0 {
        text_lt_irreflexive(a.skip(1));
    }
}

/// What comes before something that comes before a third comes before the third.
pub proof fn text_lt_transitive(a: Seq<char>, b: Seq<char>, c: Seq<char>)
    requires
        text_lt(a, b),
        text_lt(b, c),
    ensures
        text_lt(a, c),
    decreases a.len(),
{
    if a.len() > 0 && a[0] == b[0] && b[0] == c[0] {
        text_lt_transitive(a.skip(1), b.skip(1), c.skip(1));
    }
}

/// Of two texts that differ one comes before the other.
pub proof fn text_lt_total(a: Seq<char>, b: Seq<char>)
    requires
        a != b,
    ensures
        text_lt(a, b) || text_lt(b, a),
    decreases a.len(),
{
    if a.len() > 0 && b.len() > 0 && a[0] == b[0] {
        if a.skip(1) == b.skip(1) {
            assert(a =~= seq![a[0]] + a.skip(1));
            assert(b =~= seq![b[0]] + b.skip(1));
        }
        text_lt_total(a.skip(1), b.skip(1));
    } else if a.len() == 0 && b.len() == 0 {
        assert(a =~= b);
    }
}

// ---------------------------------------------------------------------------
// Sorting
// ---------------------------------------------------------------------------

/// `s` with `x` in front of the first item that `x` goes before.
pub open spec fn place<T>(s: Seq<T>, x: T, goes_before: spec_fn(T, T) -> bool) -> Seq<T>
    decreases s.len(),
{
    if s.len() == 0 {
        seq![x]
    } else if goes_before(x, s[0]) {
        seq![x] + s
    } else {
        seq![s[0]] + place(s.skip(1), x, goes_before)
    }
}

/// `s` in order. Items of which none goes before the other keep their order.
pub open spec fn in_order<T>(s: Seq<T>, goes_before: spec_fn(T, T) -> bool) -> Seq<T>
    decreases s.len(),
{
    if s.len() == 0 {
        s
    } else {
        place(in_order(s.drop_last(), goes_before), s.last(), goes_before)
    }
}

/// Where an item is placed.
pub proof fn lemma_place<T>(s: Seq<T>, x: T, goes_before: spec_fn(T, T) -> bool, i: int)
    requires
        0 <= i <= s.len(),
        forall|j: int| 0 <= j < i ==> !goes_before(x, #[trigger] s[j]),
        i < s.len() ==> goes_before(x, s[i]),
    ensures
        place(s, x, goes_before) == s.insert(i, x),
    decreases s.len(),
{
    if s.len() == 0 {
        assert(s.insert(0, x) =~= seq![x]);
    } else if i == 0 {
        assert(s.insert(0, x) =~= seq![x] + s);
    } else {
        assert(!goes_before(x, s[0]));
        assert forall|j: int| 0 <= j < i - 1 implies !goes_before(x, #[trigger] s.skip(1)[j]) by {
            assert(s.skip(1)[j] == s[j + 1]);
        }
        lemma_place(s.skip(1), x, goes_before, i - 1);
        assert(s.insert(i, x) =~= seq![s[0]] + s.skip(1).insert(i - 1, x));
    }
}

proof fn lemma_place_permutes<T>(s: Seq<T>, x: T, goes_before: spec_fn(T, T) -> bool)
    ensures
        place(s, x, goes_before).to_multiset() == s.to_multiset().insert(x),
    decreases s.len(),
{
    broadcast use vstd::seq_lib::group_to_multiset_ensures;

    if s.len() == 0 {
        assert(seq![x] =~= Seq::<T>::empty().push(x));
        assert(s =~= Seq::<T>::empty());
    } else if goes_before(x, s[0]) {
        assert(seq![x] + s =~= s.insert(0, x));
    } else {
        let rest = place(s.skip(1), x, goes_before);
        lemma_place_permutes(s.skip(1), x, goes_before);
        assert(seq![s[0]] + rest =~= rest.insert(0, s[0]));
        assert(s =~= s.skip(1).insert(0, s[0]));
        assert(place(s, x, goes_before).to_multiset() =~= s.to_multiset().insert(x));
    }
}

/// Putting things in order loses none and adds none.
pub proof fn in_order_permutes<T>(s: Seq<T>, goes_before: spec_fn(T, T) -> bool)
    ensures
        in_order(s, goes_before).to_multiset() == s.to_multiset(),
    decreases s.len(),
{
    broadcast use vstd::seq_lib::group_to_multiset_ensures;

    if s.len() > 0 {
        in_order_permutes(s.drop_last(), goes_before);
        lemma_place_permutes(in_order(s.drop_last(), goes_before), s.last(), goes_before);
        assert(s =~= s.drop_last().push(s.last()));
    }
}

/// Whether no item goes before one that stands earlier.
pub open spec fn is_ordered<T>(s: Seq<T>, goes_before: spec_fn(T, T) -> bool) -> bool {
    forall|i: int, j: int|
        #![trigger s[i], s[j]]
        0 <= i < j < s.len() ==> !goes_before(s[j], s[i])
}

/// Whether a relation can put things in order: of two things at most one goes before
/// the other, and what stands between keeps the order.
pub open spec fn orders<T>(goes_before: spec_fn(T, T) -> bool) -> bool {
    &&& forall|a: T, b: T| #[trigger] goes_before(a, b) ==> !goes_before(b, a)
    &&& forall|a: T, b: T, c: T|
        #![trigger goes_before(a, b), goes_before(b, c)]
        !goes_before(a, b) && !goes_before(b, c) ==> !goes_before(a, c)
}

proof fn lemma_place_ordered<T>(s: Seq<T>, x: T, goes_before: spec_fn(T, T) -> bool)
    requires
        orders(goes_before),
        is_ordered(s, goes_before),
    ensures
        is_ordered(place(s, x, goes_before), goes_before),
{
    let i = lemma_find_place(s, x, goes_before);
    lemma_place(s, x, goes_before, i);
    let r = s.insert(i, x);
    assert forall|a: int, b: int| #![trigger r[a], r[b]] 0 <= a < b < r.len() implies !goes_before(
        r[b],
        r[a],
    ) by {
        if a == i {
            // `x` in front of a later item, which goes before no item that `x` precedes.
            assert(goes_before(x, s[i]));
            assert(r[b] == s[b - 1]);
            if b - 1 > i {
                assert(!goes_before(s[b - 1], s[i]));
                assert(!goes_before(s[i], x));
            }
        } else if b == i {
            assert(r[a] == s[a]);
        }
    }
}

proof fn lemma_find_place<T>(s: Seq<T>, x: T, goes_before: spec_fn(T, T) -> bool) -> (i: int)
    ensures
        0 <= i <= s.len(),
        forall|j: int| 0 <= j < i ==> !goes_before(x, #[trigger] s[j]),
        i < s.len() ==> goes_before(x, s[i]),
    decreases s.len(),
{
    if s.len() == 0 || goes_before(x, s[0]) {
        0
    } else {
        let k = lemma_find_place(s.skip(1), x, goes_before);
        assert forall|j: int| 0 <= j < k + 1 implies !goes_before(x, #[trigger] s[j]) by {
            if j > 0 {
                assert(s.skip(1)[j - 1] == s[j]);
            }
        }
        k + 1
    }
}

/// What is put in order is in order.
pub proof fn in_order_is_ordered<T>(s: Seq<T>, goes_before: spec_fn(T, T) -> bool)
    requires
        orders(goes_before),
    ensures
        is_ordered(in_order(s, goes_before), goes_before),
    decreases s.len(),
{
    if s.len() > 0 {
        in_order_is_ordered(s.drop_last(), goes_before);
        lemma_place_ordered(in_order(s.drop_last(), goes_before), s.last(), goes_before);
    }
}

/// The order of names: as the texts.
pub open spec fn by_name() -> spec_fn(Seq<char>, Seq<char>) -> bool {
    |a: Seq<char>, b: Seq<char>| text_lt(a, b)
}

/// The order of names can put them in order.
pub proof fn by_name_orders()
    ensures
        orders(by_name()),
{
    let lt = by_name();
    assert forall|a: Seq<char>, b: Seq<char>| #[trigger] lt(a, b) implies !lt(b, a) by {
        if text_lt(b, a) {
            text_lt_transitive(a, b, a);
            text_lt_irreflexive(a);
        }
    }
    assert forall|a: Seq<char>, b: Seq<char>, c: Seq<char>|
        #![trigger lt(a, b), lt(b, c)]
        !lt(a, b) && !lt(b, c) implies !lt(a, c) by {
        if text_lt(a, c) {
            if a == b || b == c {
            } else {
                text_lt_total(a, b);
                text_lt_total(b, c);
                text_lt_transitive(c, b, a);
                text_lt_transitive(a, c, a);
                text_lt_irreflexive(a);
            }
        }
    }
}

/// Some names in order.
pub fn sort_names(names: Vec<String>) -> (r: Vec<String>)
    ensures
        view_all(r@) == in_order(view_all(names@), by_name()),
{
    let ghost model = view_all(names@);
    let mut out: Vec<String> = Vec::new();
    let mut k: usize = 0;
    assert(model.take(0) =~= seq![]);
    assert(view_all(out@) =~= seq![]);
    while k < names.len()
        invariant
            k <= names@.len(),
            model == view_all(names@),
            view_all(out@) == in_order(model.take(k as int), by_name()),
        decreases names@.len() - k,
    {
        let name = names[k].clone();
        let ghost before = view_all(out@);
        let mut i: usize = 0;
        while i < out.len() && !is_before(name.as_str(), out[i].as_str())
            invariant
                i <= out@.len(),
                before == view_all(out@),
                forall|j: int| 0 <= j < i ==> !text_lt(name@, #[trigger] before[j]),
            decreases out@.len() - i,
        {
            assert(before[i as int] == out@[i as int]@);
            i += 1;
        }
        proof {
            lemma_place(before, name@, by_name(), i as int);
            assert(model.take(k + 1).drop_last() =~= model.take(k as int));
            assert(model.take(k + 1).last() == name@);
        }
        out.insert(i, name);
        assert(view_all(out@) =~= before.insert(i as int, name@));
        k += 1;
    }
    assert(model.take(k as int) =~= model);
    out
}

/// The order of texts is that of the first character that differs, and what is longer
/// comes later.
pub proof fn first_difference_orders(
    common: Seq<char>,
    x: char,
    rest: Seq<char>,
    y: char,
    other: Seq<char>,
)
    ensures
        x != y ==> text_lt(common + seq![x] + rest, common + seq![y] + other) == (x < y),
        text_lt(common, common + seq![x] + rest),
        !text_lt(common + seq![x] + rest, common),
    decreases common.len(),
{
    let a = common + seq![x] + rest;
    let b = common + seq![y] + other;
    if common.len() > 0 {
        let fewer = common.skip(1);
        first_difference_orders(fewer, x, rest, y, other);
        assert(a.skip(1) =~= fewer + seq![x] + rest);
        assert(b.skip(1) =~= fewer + seq![y] + other);
    }
}

} // verus!
