//! Text as sequences of characters.
//!
//! The functions here answer the questions that the rest of the crate asks of
//! a string: what is left after trimming, where a piece occurs, which lines and
//! words it has. Each one is stated over `Seq<char>`, so that a contract
//! elsewhere can speak of the text itself and not of its encoding.

use vstd::prelude::*;

verus! {

// ---------------------------------------------------------------------------
// Characters
// ---------------------------------------------------------------------------

/// The characters with the Unicode property `White_Space`.
pub open spec fn is_space(c: char) -> bool {
    ||| '\u{9}' <= c <= '\u{d}'
    ||| c == ' '
    ||| c == '\u{85}'
    ||| c == '\u{a0}'
    ||| c == '\u{1680}'
    ||| '\u{2000}' <= c <= '\u{200a}'
    ||| c == '\u{2028}'
    ||| c == '\u{2029}'
    ||| c == '\u{202f}'
    ||| c == '\u{205f}'
    ||| c == '\u{3000}'
}

pub fn is_white_space(c: char) -> (r: bool)
    ensures
        r == is_space(c),
{
    ('\u{9}' <= c && c <= '\u{d}') || c == ' ' || c == '\u{85}' || c == '\u{a0}' || c == '\u{1680}'
        || ('\u{2000}' <= c && c <= '\u{200a}') || c == '\u{2028}' || c == '\u{2029}'
        || c == '\u{202f}' || c == '\u{205f}' || c == '\u{3000}'
}

/// The digits `0` to `9`.
pub open spec fn is_digit(c: char) -> bool {
    '0' <= c <= '9'
}

pub fn is_ascii_digit(c: char) -> (r: bool)
    ensures
        r == is_digit(c),
{
    '0' <= c && c <= '9'
}

/// The lower-case form of an ASCII letter; every other character is kept.
pub open spec fn ascii_lower(c: char) -> char {
    if 'A' <= c <= 'Z' {
        (c as u32 + 32) as char
    } else {
        c
    }
}

pub fn to_ascii_lower(c: char) -> (r: char)
    ensures
        r == ascii_lower(c),
{
    if 'A' <= c && c <= 'Z' {
        (c as u8 + 32) as char
    } else {
        c
    }
}

/// The characters of a string.
pub fn chars_of(s: &str) -> (r: Vec<char>)
    ensures
        r@ == s@,
{
    let mut out: Vec<char> = Vec::new();
    for c in it: s.chars()
        invariant
            out@ == it.seq().take(it.index() as int),
            it.seq() == s@,
    {
        out.push(c);
    }
    out
}

/// Whether two strings hold the same characters.
pub fn same(a: &str, b: &str) -> (r: bool)
    ensures
        r == (a@ == b@),
{
    a.to_owned() == b.to_owned()
}

/// Whether `s` is one of `words`.
pub open spec fn listed(words: Seq<&'static str>, s: Seq<char>) -> bool {
    exists|i: int| 0 <= i < words.len() && (#[trigger] words[i])@ == s
}

pub fn is_listed(words: &[&'static str], s: &str) -> (r: bool)
    ensures
        r == listed(words@, s@),
{
    let mut i: usize = 0;
    while i < words.len()
        invariant
            i <= words@.len(),
            forall|j: int| 0 <= j < i ==> (#[trigger] words@[j])@ != s@,
        decreases words@.len() - i,
    {
        if same(words[i], s) {
            return true;
        }
        i += 1;
    }
    false
}

// ---------------------------------------------------------------------------
// Trimming
// ---------------------------------------------------------------------------

/// `s` without the white space in front.
pub open spec fn trim_start(s: Seq<char>) -> Seq<char>
    decreases s.len(),
{
    if s.len() > 0 && is_space(s[0]) {
        trim_start(s.skip(1))
    } else {
        s
    }
}

/// `s` without the white space at its end.
pub open spec fn trim_end(s: Seq<char>) -> Seq<char>
    decreases s.len(),
{
    if s.len() > 0 && is_space(s.last()) {
        trim_end(s.drop_last())
    } else {
        s
    }
}

/// `s` without the white space around it.
pub open spec fn trim(s: Seq<char>) -> Seq<char> {
    trim_end(trim_start(s))
}

/// Trimming makes no text longer.
pub proof fn lemma_trim_len(s: Seq<char>)
    ensures
        trim(s).len() <= s.len(),
{
    lemma_trim_start_len(s);
    lemma_trim_end_len(trim_start(s));
}

proof fn lemma_trim_start_len(s: Seq<char>)
    ensures
        trim_start(s).len() <= s.len(),
    decreases s.len(),
{
    if s.len() > 0 {
        lemma_trim_start_len(s.skip(1));
    }
}

proof fn lemma_trim_end_len(s: Seq<char>)
    ensures
        trim_end(s).len() <= s.len(),
    decreases s.len(),
{
    if s.len() > 0 {
        lemma_trim_end_len(s.drop_last());
    }
}

/// What is trimmed at the end of two texts in a row is the end of the second, unless
/// nothing of it is left.
pub proof fn lemma_trim_end_join(a: Seq<char>, b: Seq<char>)
    ensures
        trim_end(b).len() > 0 ==> trim_end(a + b) == a + trim_end(b),
        trim_end(b).len() == 0 ==> trim_end(a + b) == trim_end(a),
    decreases b.len(),
{
    if b.len() == 0 {
        assert(a + b =~= a);
    } else {
        assert((a + b).last() == b.last());
        if is_space(b.last()) {
            assert((a + b).drop_last() =~= a + b.drop_last());
            lemma_trim_end_join(a, b.drop_last());
        }
    }
}

/// It does not matter at which end white space is trimmed first.
pub proof fn lemma_trim_either_end(s: Seq<char>)
    ensures
        trim_start(trim_end(s)) == trim(s),
    decreases s.len(),
{
    if s.len() > 0 {
        let (first, rest) = (seq![s[0]], s.skip(1));
        assert(s =~= first + rest);
        lemma_trim_end_join(first, rest);
        lemma_trim_either_end(rest);
        assert(trim_end(first) =~= if is_space(s[0]) {
            seq![]
        } else {
            first
        }) by {
            reveal_with_fuel(trim_end, 2);
            assert(first.drop_last() =~= seq![]);
        }
        if is_space(s[0]) {
            if trim_end(rest).len() > 0 {
                assert((first + trim_end(rest)).skip(1) =~= trim_end(rest));
            } else {
                assert(trim_end(s) =~= seq![]);
            }
        } else {
            assert(trim_end(s).len() > 0 && trim_end(s)[0] == s[0]);
        }
    }
}

proof fn lemma_trim_end_twice(s: Seq<char>)
    ensures
        trim_end(trim_end(s)) == trim_end(s),
        trim_end(s).len() > 0 ==> !is_space(trim_end(s).last()),
    decreases s.len(),
{
    if s.len() > 0 && is_space(s.last()) {
        lemma_trim_end_twice(s.drop_last());
    }
}

/// White space at the end does not count for what is left.
pub proof fn lemma_trim_end_trim(s: Seq<char>)
    ensures
        trim(trim_end(s)) == trim(s),
{
    lemma_trim_either_end(s);
    lemma_trim_end_twice(trim_start(s));
}

pub fn trimmed(s: &str) -> (r: &str)
    ensures
        r@ == trim(s@),
{
    let cs = chars_of(s);
    let n: usize = cs.len();
    let mut i: usize = 0;
    assert(s@.skip(0) =~= s@);
    while i < n && is_white_space(cs[i])
        invariant
            cs@ == s@,
            n == s@.len(),
            i <= n,
            trim_start(s@) == trim_start(s@.skip(i as int)),
        decreases n - i,
    {
        assert(s@.skip(i as int).skip(1) =~= s@.skip(i + 1));
        i += 1;
    }
    assert(trim_start(s@) =~= s@.skip(i as int));
    let mut j: usize = n;
    assert(s@.skip(i as int) =~= s@.subrange(i as int, n as int));
    while j > i && is_white_space(cs[j - 1])
        invariant
            cs@ == s@,
            n == s@.len(),
            i <= j <= n,
            trim(s@) == trim_end(s@.subrange(i as int, j as int)),
        decreases j,
    {
        assert(s@.subrange(i as int, j as int).drop_last() =~= s@.subrange(i as int, j - 1));
        j -= 1;
    }
    s.substring_char(i, j)
}

/// Whether nothing but white space is in `s`.
pub open spec fn is_blank(s: Seq<char>) -> bool {
    trim(s).len() == 0
}

/// `s` without the leading characters that are in `set`.
pub open spec fn trim_start_set(s: Seq<char>, set: Seq<char>) -> Seq<char>
    decreases s.len(),
{
    if s.len() > 0 && set.contains(s[0]) {
        trim_start_set(s.skip(1), set)
    } else {
        s
    }
}

/// `s` without the trailing characters that are in `set`.
pub open spec fn trim_end_set(s: Seq<char>, set: Seq<char>) -> Seq<char>
    decreases s.len(),
{
    if s.len() > 0 && set.contains(s.last()) {
        trim_end_set(s.drop_last(), set)
    } else {
        s
    }
}

/// `s` without the characters of `set` around it.
pub open spec fn trim_set(s: Seq<char>, set: Seq<char>) -> Seq<char> {
    trim_end_set(trim_start_set(s, set), set)
}

pub fn char_in(set: &[char], c: char) -> (r: bool)
    ensures
        r == set@.contains(c),
{
    let mut i: usize = 0;
    while i < set.len()
        invariant
            i <= set@.len(),
            forall|j: int| 0 <= j < i ==> set@[j] != c,
        decreases set@.len() - i,
    {
        if set[i] == c {
            return true;
        }
        i += 1;
    }
    false
}

pub fn trimmed_start_set<'a>(s: &'a str, set: &[char]) -> (r: &'a str)
    ensures
        r@ == trim_start_set(s@, set@),
{
    let cs = chars_of(s);
    let n: usize = cs.len();
    let mut i: usize = 0;
    assert(s@.skip(0) =~= s@);
    while i < n && char_in(set, cs[i])
        invariant
            cs@ == s@,
            n == s@.len(),
            i <= n,
            trim_start_set(s@, set@) == trim_start_set(s@.skip(i as int), set@),
        decreases n - i,
    {
        assert(s@.skip(i as int).skip(1) =~= s@.skip(i + 1));
        i += 1;
    }
    s.substring_char(i, n)
}

pub fn trimmed_end_set<'a>(s: &'a str, set: &[char]) -> (r: &'a str)
    ensures
        r@ == trim_end_set(s@, set@),
{
    let cs = chars_of(s);
    let n: usize = cs.len();
    let mut j: usize = n;
    assert(s@ =~= s@.subrange(0, n as int));
    while j > 0 && char_in(set, cs[j - 1])
        invariant
            cs@ == s@,
            n == s@.len(),
            j <= n,
            trim_end_set(s@, set@) == trim_end_set(s@.subrange(0, j as int), set@),
        decreases j,
    {
        assert(s@.subrange(0, j as int).drop_last() =~= s@.subrange(0, j - 1));
        j -= 1;
    }
    s.substring_char(0, j)
}

pub fn trimmed_set<'a>(s: &'a str, set: &[char]) -> (r: &'a str)
    ensures
        r@ == trim_set(s@, set@),
{
    trimmed_end_set(trimmed_start_set(s, set), set)
}

// ---------------------------------------------------------------------------
// Prefixes, suffixes, occurrences
// ---------------------------------------------------------------------------

/// What follows `prefix` in `s`, if `s` starts with it.
pub open spec fn after_prefix(s: Seq<char>, prefix: Seq<char>) -> Option<Seq<char>> {
    if prefix.is_prefix_of(s) {
        Some(s.skip(prefix.len() as int))
    } else {
        None
    }
}

/// What precedes `suffix` in `s`, if `s` ends with it.
pub open spec fn before_suffix(s: Seq<char>, suffix: Seq<char>) -> Option<Seq<char>> {
    if suffix.is_suffix_of(s) {
        Some(s.take(s.len() - suffix.len()))
    } else {
        None
    }
}

/// Whether `piece` stands in `s` at index `i`.
pub open spec fn occurs_at(s: Seq<char>, piece: Seq<char>, i: int) -> bool {
    0 <= i && i + piece.len() <= s.len() && s.subrange(i, i + piece.len()) == piece
}

/// Whether `piece` stands somewhere in `s`.
pub open spec fn contains(s: Seq<char>, piece: Seq<char>) -> bool {
    exists|i: int| occurs_at(s, piece, i)
}

/// The first index from `i` on at which `piece` stands in `s`.
pub open spec fn find_from(s: Seq<char>, piece: Seq<char>, i: int) -> Option<int>
    decreases s.len() + 1 - i,
{
    if i < 0 || i + piece.len() > s.len() {
        None
    } else if occurs_at(s, piece, i) {
        Some(i)
    } else {
        find_from(s, piece, i + 1)
    }
}

/// The first index at which `piece` stands in `s`.
pub open spec fn find(s: Seq<char>, piece: Seq<char>) -> Option<int> {
    find_from(s, piece, 0)
}

/// What stands before and after the first `piece` in `s`.
pub open spec fn split_once(s: Seq<char>, piece: Seq<char>) -> Option<(Seq<char>, Seq<char>)> {
    match find(s, piece) {
        Some(i) => Some((s.take(i), s.skip(i + piece.len()))),
        None => None,
    }
}

/// `find_from` is the least index, and there is one exactly where `piece` occurs.
pub proof fn lemma_find_from(s: Seq<char>, piece: Seq<char>, i: int)
    requires
        0 <= i,
    ensures
        match find_from(s, piece, i) {
            Some(k) => i <= k && occurs_at(s, piece, k) && forall|j: int|
                i <= j < k ==> !occurs_at(s, piece, j),
            None => forall|j: int| i <= j ==> !occurs_at(s, piece, j),
        },
    decreases s.len() + 1 - i,
{
    if i + piece.len() <= s.len() && !occurs_at(s, piece, i) {
        lemma_find_from(s, piece, i + 1);
    }
}

/// A piece is found exactly where it occurs.
pub proof fn lemma_find_contains(s: Seq<char>, piece: Seq<char>)
    ensures
        find(s, piece) is Some <==> contains(s, piece),
{
    lemma_find_from(s, piece, 0);
}

fn piece_at(cs: &Vec<char>, ps: &Vec<char>, i: usize) -> (r: bool)
    requires
        i + ps@.len() <= cs@.len(),
    ensures
        r == occurs_at(cs@, ps@, i as int),
{
    let n: usize = cs.len();
    let mut k: usize = 0;
    while k < ps.len()
        invariant
            n == cs@.len(),
            i + ps@.len() <= n,
            k <= ps@.len(),
            forall|j: int| 0 <= j < k ==> cs@[i + j] == ps@[j],
        decreases ps@.len() - k,
    {
        if cs[i + k] != ps[k] {
            assert(cs@.subrange(i as int, i + ps@.len())[k as int] == cs@[i + k]);
            return false;
        }
        k += 1;
    }
    assert(cs@.subrange(i as int, i + ps@.len()) =~= ps@);
    true
}

pub fn starts_with(s: &str, prefix: &str) -> (r: bool)
    ensures
        r == prefix@.is_prefix_of(s@),
{
    let cs = chars_of(s);
    let ps = chars_of(prefix);
    ps.len() <= cs.len() && piece_at(&cs, &ps, 0)
}

pub fn ends_with(s: &str, suffix: &str) -> (r: bool)
    ensures
        r == suffix@.is_suffix_of(s@),
{
    let cs = chars_of(s);
    let ps = chars_of(suffix);
    ps.len() <= cs.len() && piece_at(&cs, &ps, cs.len() - ps.len())
}

/// The view of an optional string.
pub open spec fn view_opt_str(o: Option<&str>) -> Option<Seq<char>> {
    match o {
        Some(s) => Some(s@),
        None => None,
    }
}

/// The view of an optional owned string.
pub open spec fn view_opt(o: Option<String>) -> Option<Seq<char>> {
    match o {
        Some(s) => Some(s@),
        None => None,
    }
}

/// `o`, or `fallback` where there is none.
pub open spec fn or_text(o: Option<Seq<char>>, fallback: Seq<char>) -> Seq<char> {
    match o {
        Some(s) => s,
        None => fallback,
    }
}

pub fn text_or<'a>(o: &'a Option<String>, fallback: &'a str) -> (r: &'a str)
    ensures
        r@ == or_text(view_opt(*o), fallback@),
{
    match o {
        Some(s) => s.as_str(),
        None => fallback,
    }
}

/// The view of a list of owned strings.
pub open spec fn view_all(v: Seq<String>) -> Seq<Seq<char>> {
    v.map_values(|s: String| s@)
}

pub fn strip_prefix<'a>(s: &'a str, prefix: &str) -> (r: Option<&'a str>)
    ensures
        view_opt_str(r) == after_prefix(s@, prefix@),
{
    if starts_with(s, prefix) {
        Some(s.substring_char(prefix.unicode_len(), s.unicode_len()))
    } else {
        None
    }
}

pub fn strip_suffix<'a>(s: &'a str, suffix: &str) -> (r: Option<&'a str>)
    ensures
        view_opt_str(r) == before_suffix(s@, suffix@),
{
    if ends_with(s, suffix) {
        Some(s.substring_char(0, s.unicode_len() - suffix.unicode_len()))
    } else {
        None
    }
}

pub fn find_text(s: &str, piece: &str) -> (r: Option<usize>)
    ensures
        match r {
            Some(i) => find(s@, piece@) == Some(i as int) && i + piece@.len() <= s@.len(),
            None => find(s@, piece@) is None,
        },
{
    let cs = chars_of(s);
    let ps = chars_of(piece);
    if ps.len() > cs.len() {
        return None;
    }
    let last: usize = cs.len() - ps.len();
    let mut i: usize = 0;
    while i <= last
        invariant
            cs@ == s@,
            ps@ == piece@,
            last == s@.len() - piece@.len(),
            i <= last + 1,
            find(s@, piece@) == find_from(s@, piece@, i as int),
        decreases last + 1 - i,
    {
        if piece_at(&cs, &ps, i) {
            return Some(i);
        }
        if i == last {
            return None;
        }
        i += 1;
    }
    None
}

pub fn has_text(s: &str, piece: &str) -> (r: bool)
    ensures
        r == contains(s@, piece@),
{
    proof {
        lemma_find_contains(s@, piece@);
    }
    find_text(s, piece).is_some()
}

/// The view of an optional pair of strings.
pub open spec fn view_opt_pair(o: Option<(&str, &str)>) -> Option<(Seq<char>, Seq<char>)> {
    match o {
        Some(p) => Some((p.0@, p.1@)),
        None => None,
    }
}

pub fn split_at_first<'a>(s: &'a str, piece: &str) -> (r: Option<(&'a str, &'a str)>)
    ensures
        view_opt_pair(r) == split_once(s@, piece@),
{
    let n: usize = s.unicode_len();
    match find_text(s, piece) {
        Some(i) => Some((s.substring_char(0, i), s.substring_char(i + piece.unicode_len(), n))),
        None => None,
    }
}

/// Whether one of `words` stands somewhere in `s`.
pub open spec fn contains_any(s: Seq<char>, words: Seq<&'static str>) -> bool {
    exists|i: int| 0 <= i < words.len() && contains(s, (#[trigger] words[i])@)
}

pub fn has_any(s: &str, words: &[&'static str]) -> (r: bool)
    ensures
        r == contains_any(s@, words@),
{
    let mut i: usize = 0;
    while i < words.len()
        invariant
            i <= words@.len(),
            forall|j: int| 0 <= j < i ==> !contains(s@, (#[trigger] words@[j])@),
        decreases words@.len() - i,
    {
        if has_text(s, words[i]) {
            return true;
        }
        i += 1;
    }
    false
}

/// What follows the first of `prefixes` that `s` starts with.
pub open spec fn after_any(s: Seq<char>, prefixes: Seq<&'static str>) -> Option<Seq<char>>
    decreases prefixes.len(),
{
    if prefixes.len() == 0 {
        None
    } else if prefixes[0]@.is_prefix_of(s) {
        after_prefix(s, prefixes[0]@)
    } else {
        after_any(s, prefixes.skip(1))
    }
}

pub fn strip_any<'a>(s: &'a str, prefixes: &[&'static str]) -> (r: Option<&'a str>)
    ensures
        view_opt_str(r) == after_any(s@, prefixes@),
{
    let mut i: usize = 0;
    assert(prefixes@.skip(0) =~= prefixes@);
    while i < prefixes.len()
        invariant
            i <= prefixes@.len(),
            after_any(s@, prefixes@) == after_any(s@, prefixes@.skip(i as int)),
        decreases prefixes@.len() - i,
    {
        let found = strip_prefix(s, prefixes[i]);
        assert(prefixes@.skip(i as int)[0] == prefixes@[i as int]);
        assert(prefixes@.skip(i as int).skip(1) =~= prefixes@.skip(i + 1));
        if found.is_some() {
            return found;
        }
        i += 1;
    }
    None
}

/// Whether `s` starts with `prefix`, the case of ASCII letters aside.
pub open spec fn is_prefix_ci(prefix: Seq<char>, s: Seq<char>) -> bool {
    prefix.len() <= s.len() && forall|i: int|
        0 <= i < prefix.len() ==> ascii_lower(#[trigger] prefix[i]) == ascii_lower(s[i])
}

/// What follows `prefix` in `s`, if `s` starts with it, the case of ASCII letters
/// aside.
pub open spec fn after_prefix_ci(s: Seq<char>, prefix: Seq<char>) -> Option<Seq<char>> {
    if is_prefix_ci(prefix, s) {
        Some(s.skip(prefix.len() as int))
    } else {
        None
    }
}

pub fn strip_prefix_ci<'a>(text: &'a str, prefix: &str) -> (r: Option<&'a str>)
    ensures
        view_opt_str(r) == after_prefix_ci(text@, prefix@),
{
    let cs = chars_of(text);
    let ps = chars_of(prefix);
    let n: usize = cs.len();
    let k: usize = ps.len();
    if n < k {
        return None;
    }
    let mut i: usize = 0;
    while i < k
        invariant
            cs@ == text@,
            ps@ == prefix@,
            i <= k <= n,
            n == text@.len(),
            k == prefix@.len(),
            forall|j: int|
                0 <= j < i ==> ascii_lower(#[trigger] prefix@[j]) == ascii_lower(text@[j]),
        decreases k - i,
    {
        if to_ascii_lower(ps[i]) != to_ascii_lower(cs[i]) {
            assert(ascii_lower(prefix@[i as int]) != ascii_lower(text@[i as int]));
            return None;
        }
        i += 1;
    }
    Some(text.substring_char(k, n))
}

/// What follows the first of `prefixes` that `s` starts with, the case of ASCII
/// letters aside.
pub open spec fn after_any_ci(s: Seq<char>, prefixes: Seq<&'static str>) -> Option<Seq<char>>
    decreases prefixes.len(),
{
    if prefixes.len() == 0 {
        None
    } else if is_prefix_ci(prefixes[0]@, s) {
        after_prefix_ci(s, prefixes[0]@)
    } else {
        after_any_ci(s, prefixes.skip(1))
    }
}

pub fn strip_any_ci<'a>(s: &'a str, prefixes: &[&'static str]) -> (r: Option<&'a str>)
    ensures
        view_opt_str(r) == after_any_ci(s@, prefixes@),
{
    let mut i: usize = 0;
    assert(prefixes@.skip(0) =~= prefixes@);
    while i < prefixes.len()
        invariant
            i <= prefixes@.len(),
            after_any_ci(s@, prefixes@) == after_any_ci(s@, prefixes@.skip(i as int)),
        decreases prefixes@.len() - i,
    {
        let found = strip_prefix_ci(s, prefixes[i]);
        assert(prefixes@.skip(i as int)[0] == prefixes@[i as int]);
        assert(prefixes@.skip(i as int).skip(1) =~= prefixes@.skip(i + 1));
        if found.is_some() {
            return found;
        }
        i += 1;
    }
    None
}

/// Owned copies of some strings.
pub fn owned_all(strs: &[&'static str]) -> (r: Vec<String>)
    ensures
        view_all(r@) == view_strs(strs@),
{
    let mut out: Vec<String> = Vec::new();
    let mut i: usize = 0;
    while i < strs.len()
        invariant
            i <= strs@.len(),
            out@.len() == i,
            forall|j: int| 0 <= j < i ==> (#[trigger] out@[j])@ == strs@[j]@,
        decreases strs@.len() - i,
    {
        out.push(strs[i].to_owned());
        i += 1;
    }
    assert(view_all(out@) =~= view_strs(strs@));
    out
}

// ---------------------------------------------------------------------------
// Lines, words, pieces
// ---------------------------------------------------------------------------

/// How many characters stand in `s` before the first one of `stop`.
pub open spec fn run_len(s: Seq<char>, stop: Seq<char>) -> nat
    decreases s.len(),
{
    if s.len() == 0 || stop.contains(s[0]) {
        0
    } else {
        1 + run_len(s.skip(1), stop)
    }
}

/// `run_len` is the one length that ends at the first character of `stop`.
pub proof fn lemma_run_len(s: Seq<char>, stop: Seq<char>)
    ensures
        run_len(s, stop) <= s.len(),
        forall|j: int| 0 <= j < run_len(s, stop) ==> !stop.contains(s[j]),
        run_len(s, stop) < s.len() ==> stop.contains(s[run_len(s, stop) as int]),
    decreases s.len(),
{
    if s.len() > 0 && !stop.contains(s[0]) {
        lemma_run_len(s.skip(1), stop);
        assert forall|j: int| 0 <= j < run_len(s, stop) implies !stop.contains(s[j]) by {
            if j > 0 {
                assert(s[j] == s.skip(1)[j - 1]);
            }
        }
        let k = run_len(s, stop);
        if k < s.len() {
            assert(s[k as int] == s.skip(1)[k - 1]);
        }
    }
}

proof fn lemma_run_len_unique(s: Seq<char>, stop: Seq<char>, k: int)
    requires
        0 <= k <= s.len(),
        forall|j: int| 0 <= j < k ==> !stop.contains(#[trigger] s[j]),
        k < s.len() ==> stop.contains(s[k]),
    ensures
        run_len(s, stop) == k,
{
    lemma_run_len(s, stop);
    let r = run_len(s, stop) as int;
    if r < k {
        assert(!stop.contains(s[r]));
    }
    if k < r {
        assert(!stop.contains(s[k]));
    }
}

/// `line` without one carriage return at its end.
pub open spec fn without_cr(line: Seq<char>) -> Seq<char> {
    if line.len() > 0 && line.last() == '\r' {
        line.drop_last()
    } else {
        line
    }
}

/// The lines of `s`: each is ended by a line feed, with or without a carriage
/// return before it, or by the end of the text.
pub open spec fn lines(s: Seq<char>) -> Seq<Seq<char>>
    decreases s.len(),
{
    if s.len() == 0 {
        seq![]
    } else {
        let k = run_len(s, seq!['\n']);
        if k >= s.len() {
            seq![s]
        } else {
            seq![without_cr(s.take(k as int))] + lines(s.skip(k as int + 1))
        }
    }
}

/// The view of a list of strings.
pub open spec fn view_strs(v: Seq<&str>) -> Seq<Seq<char>> {
    v.map_values(|s: &str| s@)
}

pub fn lines_of<'a>(s: &'a str) -> (r: Vec<&'a str>)
    ensures
        view_strs(r@) == lines(s@),
{
    let cs = chars_of(s);
    let n: usize = cs.len();
    let ghost stop = seq!['\n'];
    let mut out: Vec<&'a str> = Vec::new();
    let mut start: usize = 0;
    proof {
        assert(s@.skip(0) =~= s@);
        assert(view_strs(out@) + lines(s@) =~= lines(s@));
    }
    while start < n
        invariant
            cs@ == s@,
            n == s@.len(),
            start <= n,
            stop == seq!['\n'],
            lines(s@) == view_strs(out@) + lines(s@.skip(start as int)),
        decreases n - start,
    {
        let mut i: usize = start;
        while i < n && cs[i] != '\n'
            invariant
                cs@ == s@,
                n == s@.len(),
                start <= i <= n,
                forall|j: int| start <= j < i ==> s@[j] != '\n',
            decreases n - i,
        {
            i += 1;
        }
        let ghost rest = s@.skip(start as int);
        let ghost before = out@;
        proof {
            assert forall|j: int| 0 <= j < i - start implies !stop.contains(#[trigger] rest[j]) by {
                assert(rest[j] == s@[start + j]);
            }
            if i < n {
                assert(rest[i - start] == s@[i as int]);
                assert(stop[0] == '\n');
            }
            lemma_run_len_unique(rest, stop, i - start);
        }
        if i == n {
            out.push(s.substring_char(start, n));
            proof {
                assert(s@.subrange(start as int, n as int) =~= rest);
                assert(s@.skip(n as int) =~= seq![]);
                assert(view_strs(out@) =~= view_strs(before) + seq![rest]);
                assert(view_strs(out@) + lines(s@.skip(n as int)) =~= view_strs(before) + lines(
                    rest,
                ));
            }
            start = n;
        } else {
            let end: usize = if i > start && cs[i - 1] == '\r' {
                i - 1
            } else {
                i
            };
            out.push(s.substring_char(start, end));
            proof {
                let line = rest.take(i - start);
                assert(line.len() > 0 ==> line.last() == s@[i - 1]);
                assert(s@.subrange(start as int, end as int) =~= without_cr(line));
                assert(rest.skip(i - start + 1) =~= s@.skip(i + 1));
                assert(view_strs(out@) =~= view_strs(before) + seq![without_cr(line)]);
                assert(view_strs(out@) + lines(s@.skip(i + 1)) =~= view_strs(before) + (seq![
                    without_cr(line),
                ] + lines(s@.skip(i + 1))));
            }
            start = i + 1;
        }
    }
    proof {
        assert(s@.skip(start as int) =~= seq![]);
        assert(view_strs(out@) + lines(s@.skip(start as int)) =~= view_strs(out@));
    }
    out
}

/// The pieces of `s` between the characters of `stop`.
pub open spec fn split_set(s: Seq<char>, stop: Seq<char>) -> Seq<Seq<char>>
    decreases s.len(),
{
    let k = run_len(s, stop);
    if k >= s.len() {
        seq![s]
    } else {
        seq![s.take(k as int)] + split_set(s.skip(k as int + 1), stop)
    }
}

pub fn pieces_of<'a>(s: &'a str, stop: &[char]) -> (r: Vec<&'a str>)
    ensures
        view_strs(r@) == split_set(s@, stop@),
{
    let cs = chars_of(s);
    let n: usize = cs.len();
    let mut out: Vec<&'a str> = Vec::new();
    let mut start: usize = 0;
    proof {
        assert(s@.skip(0) =~= s@);
        assert(view_strs(out@) + split_set(s@, stop@) =~= split_set(s@, stop@));
    }
    loop
        invariant
            cs@ == s@,
            n == s@.len(),
            start <= n,
            split_set(s@, stop@) == view_strs(out@) + split_set(s@.skip(start as int), stop@),
        decreases n - start,
    {
        let mut i: usize = start;
        while i < n && !char_in(stop, cs[i])
            invariant
                cs@ == s@,
                n == s@.len(),
                start <= i <= n,
                forall|j: int| start <= j < i ==> !stop@.contains(#[trigger] s@[j]),
            decreases n - i,
        {
            i += 1;
        }
        let ghost rest = s@.skip(start as int);
        let ghost before = out@;
        proof {
            assert forall|j: int| 0 <= j < i - start implies !stop@.contains(#[trigger] rest[j]) by {
                assert(rest[j] == s@[start + j]);
            }
            if i < n {
                assert(rest[i - start] == s@[i as int]);
            }
            lemma_run_len_unique(rest, stop@, i - start);
        }
        out.push(s.substring_char(start, i));
        proof {
            assert(s@.subrange(start as int, i as int) =~= rest.take(i - start));
            assert(view_strs(out@) =~= view_strs(before) + seq![rest.take(i - start)]);
        }
        if i == n {
            proof {
                assert(rest.take(i - start) =~= rest);
            }
            return out;
        }
        proof {
            assert(rest.skip(i - start + 1) =~= s@.skip(i + 1));
            assert(view_strs(out@) + split_set(s@.skip(i + 1), stop@) =~= view_strs(before) + (seq![
                rest.take(i - start),
            ] + split_set(s@.skip(i + 1), stop@)));
        }
        start = i + 1;
    }
}

/// How many characters stand in `s` before the first white space.
pub open spec fn word_len(s: Seq<char>) -> nat
    decreases s.len(),
{
    if s.len() == 0 || is_space(s[0]) {
        0
    } else {
        1 + word_len(s.skip(1))
    }
}

pub proof fn lemma_word_len(s: Seq<char>)
    ensures
        word_len(s) <= s.len(),
        forall|j: int| 0 <= j < word_len(s) ==> !is_space(#[trigger] s[j]),
        word_len(s) < s.len() ==> is_space(s[word_len(s) as int]),
    decreases s.len(),
{
    if s.len() > 0 && !is_space(s[0]) {
        lemma_word_len(s.skip(1));
        assert forall|j: int| 0 <= j < word_len(s) implies !is_space(#[trigger] s[j]) by {
            if j > 0 {
                assert(s[j] == s.skip(1)[j - 1]);
            }
        }
        let k = word_len(s);
        if k < s.len() {
            assert(s[k as int] == s.skip(1)[k - 1]);
        }
    }
}

/// The words of `s`: the longest runs without white space.
pub open spec fn words(s: Seq<char>) -> Seq<Seq<char>>
    decreases s.len(),
{
    if s.len() == 0 {
        seq![]
    } else if is_space(s[0]) {
        words(s.skip(1))
    } else {
        proof {
            lemma_word_len(s);
        }
        seq![s.take(word_len(s) as int)] + words(s.skip(word_len(s) as int))
    }
}

pub fn words_of<'a>(s: &'a str) -> (r: Vec<&'a str>)
    ensures
        view_strs(r@) == words(s@),
{
    let cs = chars_of(s);
    let n: usize = cs.len();
    let mut out: Vec<&'a str> = Vec::new();
    let mut start: usize = 0;
    proof {
        assert(s@.skip(0) =~= s@);
        assert(view_strs(out@) + words(s@) =~= words(s@));
    }
    while start < n
        invariant
            cs@ == s@,
            n == s@.len(),
            start <= n,
            words(s@) == view_strs(out@) + words(s@.skip(start as int)),
        decreases n - start,
    {
        let ghost rest = s@.skip(start as int);
        assert(rest[0] == s@[start as int]);
        if is_white_space(cs[start]) {
            assert(rest.skip(1) =~= s@.skip(start + 1));
            start += 1;
        } else {
            let mut i: usize = start + 1;
            while i < n && !is_white_space(cs[i])
                invariant
                    cs@ == s@,
                    n == s@.len(),
                    start < i <= n,
                    forall|j: int| start <= j < i ==> !is_space(#[trigger] s@[j]),
                decreases n - i,
            {
                i += 1;
            }
            let ghost before = out@;
            out.push(s.substring_char(start, i));
            proof {
                lemma_word_len(rest);
                let k = word_len(rest) as int;
                if k < i - start {
                    assert(rest[k] == s@[start + k]);
                }
                if k > i - start {
                    assert(rest[i - start] == s@[i as int]);
                }
                assert(s@.subrange(start as int, i as int) =~= rest.take(k));
                assert(rest.skip(k) =~= s@.skip(i as int));
                assert(view_strs(out@) =~= view_strs(before) + seq![rest.take(k)]);
                assert(view_strs(out@) + words(s@.skip(i as int)) =~= view_strs(before) + (seq![
                    rest.take(k),
                ] + words(s@.skip(i as int))));
            }
            start = i;
        }
    }
    proof {
        assert(s@.skip(start as int) =~= seq![]);
        assert(view_strs(out@) + words(s@.skip(start as int)) =~= view_strs(out@));
    }
    out
}

// ---------------------------------------------------------------------------
// Building text
// ---------------------------------------------------------------------------

/// `String::push` puts one character at the end of the string.
pub assume_specification[ String::push ](s: &mut String, c: char)
    ensures
        final(s)@ == old(s)@.push(c),
;

/// `head` and `tail` as one text.
pub fn glue(head: &str, tail: &str) -> (r: String)
    ensures
        r@ == head@ + tail@,
{
    let mut out = head.to_owned();
    out.append(tail);
    out
}

/// `parts` one after the other, with `sep` between them.
pub open spec fn join(parts: Seq<Seq<char>>, sep: Seq<char>) -> Seq<char>
    decreases parts.len(),
{
    if parts.len() == 0 {
        seq![]
    } else if parts.len() == 1 {
        parts[0]
    } else {
        join(parts.drop_last(), sep) + sep + parts.last()
    }
}

pub fn joined(parts: &Vec<String>, sep: &str) -> (r: String)
    ensures
        r@ == join(view_all(parts@), sep@),
{
    let mut out: String = String::new();
    let mut i: usize = 0;
    let ghost all = view_all(parts@);
    assert(all.take(0) =~= seq![]);
    while i < parts.len()
        invariant
            i <= parts@.len(),
            all == view_all(parts@),
            out@ == join(all.take(i as int), sep@),
        decreases parts@.len() - i,
    {
        assert(all.take(i + 1).drop_last() =~= all.take(i as int));
        assert(all.take(i + 1).last() == parts@[i as int]@);
        if i == 0 {
            out = parts[0].clone();
        } else {
            out.append(sep);
            out.append(parts[i].as_str());
        }
        i += 1;
    }
    assert(all.take(i as int) =~= all);
    out
}

/// One decimal digit.
pub open spec fn digit(d: nat) -> char {
    ('0' as u32 + d) as char
}

/// A number in decimal, without leading zeros.
pub open spec fn decimal(n: nat) -> Seq<char>
    decreases n,
{
    if n < 10 {
        seq![digit(n)]
    } else {
        decimal(n / 10).push(digit(n % 10))
    }
}

pub fn decimal_of(n: u128) -> (r: String)
    ensures
        r@ == decimal(n as nat),
    decreases n,
{
    if n < 10 {
        let mut s: String = String::new();
        s.push((48 + n as u8) as char);
        assert(s@ =~= seq![digit(n as nat)]);
        s
    } else {
        let mut s: String = decimal_of(n / 10);
        s.push((48 + (n % 10) as u8) as char);
        s
    }
}

/// A whole number in decimal, with a minus sign where it is negative.
pub open spec fn decimal_int(n: int) -> Seq<char> {
    if n < 0 {
        "-"@ + decimal((-n) as nat)
    } else {
        decimal(n as nat)
    }
}

pub fn decimal_of_i64(n: i64) -> (r: String)
    ensures
        r@ == decimal_int(n as int),
{
    if n < 0 {
        let mut s: String = "-".to_owned();
        let m: i128 = -(n as i128);
        let d: String = decimal_of(m as u128);
        s.append(d.as_str());
        s
    } else {
        decimal_of(n as u128)
    }
}

// ---------------------------------------------------------------------------
// Reading numbers
// ---------------------------------------------------------------------------

/// The number that a sequence of digits stands for.
pub open spec fn digits_value(s: Seq<char>) -> nat
    decreases s.len(),
{
    if s.len() == 0 {
        0
    } else {
        digits_value(s.drop_last()) * 10 + (s.last() as nat - '0' as nat) as nat
    }
}

/// Whether every character of `s` is a digit.
pub open spec fn all_digits(s: Seq<char>) -> bool {
    forall|i: int| 0 <= i < s.len() ==> is_digit(#[trigger] s[i])
}

/// `s` without one plus sign in front.
pub open spec fn without_plus(s: Seq<char>) -> Seq<char> {
    if s.len() > 0 && s[0] == '+' {
        s.skip(1)
    } else {
        s
    }
}

/// A number up to `max` in decimal, with or without a plus sign in front.
pub open spec fn number(s: Seq<char>, max: nat) -> Option<nat> {
    let t = without_plus(s);
    if t.len() > 0 && all_digits(t) && digits_value(t) <= max {
        Some(digits_value(t))
    } else {
        None
    }
}

proof fn lemma_digits_value_grows(s: Seq<char>, k: int)
    requires
        0 <= k <= s.len(),
        all_digits(s),
    ensures
        digits_value(s.take(k)) <= digits_value(s),
    decreases s.len() - k,
{
    if k < s.len() {
        lemma_digits_value_grows(s, k + 1);
        assert(s.take(k + 1).drop_last() =~= s.take(k));
    } else {
        assert(s.take(k) =~= s);
    }
}

pub fn parse_number(s: &str, max: u64) -> (r: Option<u64>)
    ensures
        match r {
            Some(n) => number(s@, max as nat) == Some(n as nat),
            None => number(s@, max as nat) is None,
        },
{
    let cs = chars_of(s);
    let n: usize = cs.len();
    let start: usize = if n > 0 && cs[0] == '+' {
        1
    } else {
        0
    };
    let ghost t = without_plus(s@);
    let mut value: u64 = 0;
    let mut i: usize = start;
    assert(t.take(0) =~= seq![]);
    while i < n
        invariant
            cs@ == s@,
            n == s@.len(),
            start <= i <= n,
            t == without_plus(s@),
            t.len() == n - start,
            forall|j: int| 0 <= j < n - start ==> t[j] == s@[start + j],
            value <= max,
            value == digits_value(t.take(i - start)),
            forall|j: int| 0 <= j < i - start ==> is_digit(#[trigger] t[j]),
        decreases n - i,
    {
        assert(t[i - start] == s@[i as int]);
        if !is_ascii_digit(cs[i]) {
            return None;
        }
        let d: u64 = (cs[i] as u8 - 48) as u64;
        let next: u128 = value as u128 * 10 + d as u128;
        assert(t.take(i - start + 1).drop_last() =~= t.take(i - start));
        assert(next == digits_value(t.take(i - start + 1)));
        if next > max as u128 {
            proof {
                if all_digits(t) {
                    lemma_digits_value_grows(t, i - start + 1);
                }
            }
            return None;
        }
        value = next as u64;
        i += 1;
    }
    assert(t.take(n - start) =~= t);
    if n == start {
        None
    } else {
        Some(value)
    }
}

// ---------------------------------------------------------------------------
// Sizes and replacement
// ---------------------------------------------------------------------------

/// How many bytes `s` takes in UTF-8.
pub open spec fn byte_len(s: Seq<char>) -> nat {
    vstd::utf8::encode_utf8(s).len()
}

pub fn byte_len_of(s: &str) -> (r: usize)
    ensures
        r == byte_len(s@),
{
    s.as_bytes().len()
}

/// `s` with the first `old` in it replaced.
pub open spec fn replace_first(s: Seq<char>, old: Seq<char>, new: Seq<char>) -> Seq<char> {
    match find(s, old) {
        Some(i) => s.take(i) + new + s.skip(i + old.len()),
        None => s,
    }
}

pub fn replaced_first(s: &str, from: &str, to: &str) -> (r: String)
    ensures
        r@ == replace_first(s@, from@, to@),
{
    match split_at_first(s, from) {
        Some((head, tail)) => {
            let mut out: String = head.to_owned();
            out.append(to);
            out.append(tail);
            out
        },
        None => s.to_owned(),
    }
}

/// How often `piece` stands in `s`, counting from the left and without overlap.
/// An empty piece stands before every character and at the end.
pub open spec fn occurrences(s: Seq<char>, piece: Seq<char>) -> nat
    decreases s.len(),
{
    if piece.len() == 0 {
        s.len() + 1
    } else {
        match find(s, piece) {
            Some(i) => if 0 <= i && i + piece.len() <= s.len() {
                1 + occurrences(s.skip(i + piece.len()), piece)
            } else {
                0
            },
            None => 0,
        }
    }
}

proof fn lemma_occurrences_bound(s: Seq<char>, piece: Seq<char>)
    requires
        piece.len() > 0,
    ensures
        occurrences(s, piece) <= s.len(),
    decreases s.len(),
{
    lemma_find_from(s, piece, 0);
    if find(s, piece) is Some {
        lemma_occurrences_bound(s.skip(find(s, piece)->0 + piece.len()), piece);
    }
}

pub fn count_of(s: &str, piece: &str) -> (r: u128)
    ensures
        r == occurrences(s@, piece@),
{
    let n: usize = s.unicode_len();
    let k: usize = piece.unicode_len();
    if k == 0 {
        return n as u128 + 1;
    }
    let mut rest: &str = s;
    let mut count: u128 = 0;
    proof {
        lemma_occurrences_bound(s@, piece@);
    }
    loop
        invariant
            k == piece@.len(),
            k > 0,
            n == s@.len(),
            occurrences(s@, piece@) == count + occurrences(rest@, piece@),
            occurrences(s@, piece@) <= s@.len(),
        decreases rest@.len(),
    {
        proof {
            lemma_find_from(rest@, piece@, 0);
        }
        match split_at_first(rest, piece) {
            Some((_, tail)) => {
                count += 1;
                rest = tail;
            },
            None => {
                return count;
            },
        }
    }
}

/// A number in decimal reads back as itself.
pub proof fn decimal_reads_back(n: nat, max: nat)
    requires
        n <= max,
    ensures
        number(decimal(n), max) == Some(n),
{
    lemma_decimal_value(n);
    assert(without_plus(decimal(n)) == decimal(n));
}

/// What the digits of a number in decimal are worth.
pub proof fn lemma_decimal_value(n: nat)
    ensures
        decimal(n).len() > 0,
        all_digits(decimal(n)),
        digits_value(decimal(n)) == n,
    decreases n,
{
    let d = decimal(n);
    if n < 10 {
        assert(d.drop_last() =~= seq![]);
        assert(digits_value(d.drop_last()) == 0);
    } else {
        lemma_decimal_value(n / 10);
        assert(d.drop_last() =~= decimal(n / 10));
        assert(d.last() == digit(n % 10));
    }
}

// ---------------------------------------------------------------------------
// Laws
// ---------------------------------------------------------------------------

/// A piece stands in every text that has it between two others, and a text in which it
/// stands is such a text.
pub proof fn piece_stands_between(s: Seq<char>, a: Seq<char>, piece: Seq<char>, b: Seq<char>)
    ensures
        contains(a + piece + b, piece),
        contains(s, piece) ==> exists|x: Seq<char>, y: Seq<char>| s == #[trigger] (x + piece + y),
{
    let whole = a + piece + b;
    assert(whole.subrange(a.len() as int, (a.len() + piece.len()) as int) =~= piece);
    assert(occurs_at(whole, piece, a.len() as int));
    if contains(s, piece) {
        let i = choose|i: int| occurs_at(s, piece, i);
        let (x, y) = (s.take(i), s.skip(i + piece.len()));
        assert(s =~= x + s.subrange(i, i + piece.len()) + y);
        assert(s == x + piece + y);
    }
}

/// Whether `piece` first stands in `a + piece` behind all of `a`.
pub open spec fn stands_first_behind(a: Seq<char>, piece: Seq<char>) -> bool {
    forall|i: int| 0 <= i < a.len() ==> (#[trigger] (a + piece).skip(i)).take(piece.len() as int)
        != piece
}

proof fn lemma_first_place(a: Seq<char>, piece: Seq<char>, b: Seq<char>)
    requires
        piece.len() > 0,
        stands_first_behind(a, piece),
    ensures
        find(a + piece + b, piece) == Some(a.len() as int),
{
    let s = a + piece + b;
    let n = a.len() as int;
    lemma_find_from(s, piece, 0);
    assert(s.subrange(n, n + piece.len()) =~= piece);
    assert(occurs_at(s, piece, n));
    let k = find(s, piece)->0;
    if k < n {
        assert((a + piece).skip(k).take(piece.len() as int) =~= s.subrange(k, k + piece.len()));
    }
}

/// A text is parted at the first place of a piece: what stands before and behind it is
/// kept as it is, and a text without the piece is not parted.
pub proof fn text_is_parted(s: Seq<char>, a: Seq<char>, piece: Seq<char>, b: Seq<char>)
    requires
        piece.len() > 0,
    ensures
        stands_first_behind(a, piece) ==> split_once(a + piece + b, piece) == Some((a, b)),
        split_once(s, piece) matches Some(parts) ==> s == parts.0 + piece + parts.1,
        split_once(s, piece) is None ==> forall|x: Seq<char>, y: Seq<char>|
            s != #[trigger] (x + piece + y),
{
    if stands_first_behind(a, piece) {
        lemma_parted(a, piece, b);
    }
    lemma_parts_are_kept(s, piece);
    if split_once(s, piece) is None {
        assert forall|x: Seq<char>, y: Seq<char>| s != #[trigger] (x + piece + y) by {
            if s == x + piece + y {
                lemma_is_parted(x, piece, y);
            }
        }
    }
}

proof fn lemma_parted(a: Seq<char>, piece: Seq<char>, b: Seq<char>)
    requires
        piece.len() > 0,
        stands_first_behind(a, piece),
    ensures
        split_once(a + piece + b, piece) == Some((a, b)),
{
    lemma_first_place(a, piece, b);
    let s = a + piece + b;
    assert(s.take(a.len() as int) =~= a);
    assert(s.skip((a.len() + piece.len()) as int) =~= b);
}

proof fn lemma_parts_are_kept(s: Seq<char>, piece: Seq<char>)
    ensures
        split_once(s, piece) matches Some(parts) ==> s == parts.0 + piece + parts.1,
{
    lemma_find_from(s, piece, 0);
    if split_once(s, piece) is Some {
        let k = find(s, piece)->0;
        assert(s =~= s.take(k) + s.subrange(k, k + piece.len()) + s.skip(k + piece.len()));
    }
}

proof fn lemma_is_parted(x: Seq<char>, piece: Seq<char>, y: Seq<char>)
    ensures
        split_once(x + piece + y, piece) is Some,
{
    let s = x + piece + y;
    lemma_find_from(s, piece, 0);
    assert(s.subrange(x.len() as int, (x.len() + piece.len()) as int) =~= piece);
    assert(occurs_at(s, piece, x.len() as int));
}

/// Replacing puts the new text where the old one first stands, keeps what is round it,
/// and counts the old one with those behind it.
pub proof fn first_place_is_replaced(
    a: Seq<char>,
    old_text: Seq<char>,
    b: Seq<char>,
    new_text: Seq<char>,
)
    requires
        old_text.len() > 0,
        stands_first_behind(a, old_text),
    ensures
        replace_first(a + old_text + b, old_text, new_text) == a + new_text + b,
        occurrences(a + old_text + b, old_text) == 1 + occurrences(b, old_text),
{
    lemma_first_place(a, old_text, b);
    let s = a + old_text + b;
    assert(s.take(a.len() as int) =~= a);
    assert(s.skip((a.len() + old_text.len()) as int) =~= b);
}

/// A text in which the old one does not stand is left as it is, and nothing is counted.
pub proof fn absent_text_is_not_replaced(s: Seq<char>, old_text: Seq<char>, new_text: Seq<char>)
    requires
        old_text.len() > 0,
        forall|a: Seq<char>, b: Seq<char>| s != #[trigger] (a + old_text + b),
    ensures
        replace_first(s, old_text, new_text) == s,
        occurrences(s, old_text) == 0,
{
    lemma_find_from(s, old_text, 0);
    if find(s, old_text) is Some {
        let k = find(s, old_text)->0;
        let (a, b) = (s.take(k), s.skip(k + old_text.len()));
        assert(s =~= a + s.subrange(k, k + old_text.len()) + b);
        assert(s == a + old_text + b);
    }
}

/// What follows a prefix, and what stands before a suffix, is all the rest.
pub proof fn rest_is_kept(s: Seq<char>, end: Seq<char>)
    ensures
        after_prefix(end + s, end) == Some(s),
        before_suffix(s + end, end) == Some(s),
{
    assert((end + s).skip(end.len() as int) =~= s);
    assert((s + end).take(s.len() as int) =~= s);
    assert((s + end).skip(s.len() as int) =~= end);
    assert(end.is_prefix_of(end + s));
    assert(end.is_suffix_of(s + end));
}

/// Whether every character of a text is white space.
pub open spec fn all_space(s: Seq<char>) -> bool {
    forall|i: int| 0 <= i < s.len() ==> is_space(#[trigger] s[i])
}

/// Whether a text is there and has no white space at its ends.
pub open spec fn is_bare(s: Seq<char>) -> bool {
    s.len() > 0 && !is_space(s[0]) && !is_space(s.last())
}

proof fn lemma_trim_end_space(b: Seq<char>)
    requires
        all_space(b),
    ensures
        trim_end(b).len() == 0,
    decreases b.len(),
{
    if b.len() > 0 {
        assert(is_space(b[b.len() - 1]));
        assert forall|i: int| 0 <= i < b.drop_last().len() implies is_space(
            #[trigger] b.drop_last()[i],
        ) by {
            assert(is_space(b[i]));
        }
        lemma_trim_end_space(b.drop_last());
    }
}

proof fn lemma_trim_start_space(a: Seq<char>, s: Seq<char>)
    requires
        all_space(a),
    ensures
        trim_start(a + s) == trim_start(s),
    decreases a.len(),
{
    if a.len() == 0 {
        assert(a + s =~= s);
    } else {
        assert(is_space(a[0]) && (a + s)[0] == a[0]);
        assert((a + s).skip(1) =~= a.skip(1) + s);
        assert forall|i: int| 0 <= i < a.skip(1).len() implies is_space(#[trigger] a.skip(1)[i]) by {
            assert(is_space(a[i + 1]));
        }
        lemma_trim_start_space(a.skip(1), s);
    }
}

/// Trimming takes the white space at both ends, and not a character more.
pub proof fn trimming_keeps_the_rest(a: Seq<char>, s: Seq<char>, b: Seq<char>)
    requires
        all_space(a),
        all_space(b),
    ensures
        is_bare(s) ==> trim(a + s + b) == s,
        trim(a + b).len() == 0,
{
    lemma_trim_end_space(b);
    if is_bare(s) {
        assert(a + s + b =~= a + (s + b));
        lemma_trim_start_space(a, s + b);
        assert((s + b)[0] == s[0]);
        lemma_trim_end_join(s, b);
        assert(trim_end(s) == s);
    }
    lemma_trim_start_space(a, b);
    lemma_trim_start_space(b, seq![]);
    assert(b + seq![] =~= b);
    assert(trim_start(Seq::<char>::empty()) =~= seq![]);
}

/// White space is what separates words, and no letter, digit or sign of ASCII is.
pub proof fn white_space_is_known(c: char)
    ensures
        is_space(' ') && is_space('\t') && is_space('\n') && is_space('\r'),
        '!' <= c <= '~' ==> !is_space(c),
        '\u{4e00}' <= c <= '\u{9fff}' ==> !is_space(c),
{
}

/// Whether a text stands on one line, and reads the same with a line feed behind it.
pub open spec fn is_line(s: Seq<char>) -> bool {
    !s.contains('\n') && (s.len() > 0 ==> s.last() != '\r')
}

/// The lines of a text are what stands between the line feeds, character by character.
pub proof fn first_line_is_read(line: Seq<char>, rest: Seq<char>)
    requires
        is_line(line),
    ensures
        lines(line + seq!['\n'] + rest) == seq![line] + lines(rest),
        line.len() > 0 ==> lines(line) == seq![line],
        lines(Seq::<char>::empty()).len() == 0,
{
    let s = line + seq!['\n'] + rest;
    let n = line.len() as int;
    let stop = seq!['\n'];
    assert forall|j: int| 0 <= j < n implies !stop.contains(#[trigger] s[j]) by {
        assert(s[j] == line[j]);
        assert(line.contains(line[j]));
    }
    assert(s[n] == '\n');
    assert(stop[0] == '\n');
    assert(stop.contains(s[n]));
    lemma_run_len_unique(s, stop, n);
    assert(s.take(n) =~= line);
    assert(s.skip(n + 1) =~= rest);
    if n > 0 {
        assert forall|j: int| 0 <= j < n implies !stop.contains(#[trigger] line[j]) by {
            assert(line.contains(line[j]));
        }
        lemma_run_len_unique(line, stop, n);
    }
}

/// One more line behind a text is one more line.
pub proof fn last_line_is_read(s: Seq<char>, line: Seq<char>)
    requires
        s.len() > 0,
        s.last() != '\n',
        s.last() != '\r',
        is_line(line),
        line.len() > 0,
    ensures
        lines(s + seq!['\n'] + line) == lines(s).push(line),
    decreases s.len(),
{
    let stop = seq!['\n'];
    lemma_run_len(s, stop);
    let k = run_len(s, stop) as int;
    assert(stop[0] == '\n');
    first_line_is_read(line, seq![]);
    if k >= s.len() {
        assert(is_line(s)) by {
            if s.contains('\n') {
                let j = choose|j: int| 0 <= j < s.len() && s[j] == '\n';
                assert(stop.contains(s[j]));
            }
        }
        first_line_is_read(s, line);
        assert(seq![s] + seq![line] =~= seq![s].push(line));
    } else {
        let whole = s + seq!['\n'] + line;
        assert forall|j: int| 0 <= j < k implies !stop.contains(#[trigger] whole[j]) by {
            assert(whole[j] == s[j]);
        }
        assert(whole[k] == s[k]);
        lemma_run_len_unique(whole, stop, k);
        assert(whole.take(k) =~= s.take(k));
        let rest = s.skip(k + 1);
        assert(s[k] == '\n');
        assert(rest.len() > 0);
        assert(rest.last() == s.last());
        assert(whole.skip(k + 1) =~= rest + seq!['\n'] + line);
        last_line_is_read(rest, line);
        let head = seq![without_cr(s.take(k))];
        assert(head + lines(rest).push(line) =~= (head + lines(rest)).push(line));
    }
}

/// Words are what stands between white space, character by character.
pub proof fn first_word_is_read(word: Seq<char>, gap: char, rest: Seq<char>)
    requires
        word.len() > 0,
        forall|i: int| 0 <= i < word.len() ==> !is_space(#[trigger] word[i]),
        is_space(gap),
    ensures
        words(word + seq![gap] + rest) == seq![word] + words(rest),
        words(word) == seq![word],
        words(seq![gap] + rest) == words(rest),
{
    let s = word + seq![gap] + rest;
    let n = word.len() as int;
    assert(s[n] == gap);
    lemma_word_len_is(s, n);
    assert(s.take(n) =~= word);
    assert(s.skip(n) =~= seq![gap] + rest);
    assert(s[0] == word[0]);
    assert((seq![gap] + rest)[0] == gap);
    assert((seq![gap] + rest).skip(1) =~= rest);
    assert(words(seq![gap] + rest) == words(rest));
    assert(words(s) == seq![word] + words(s.skip(n)));
    lemma_word_len_is(word, n);
    assert(word.take(n) =~= word);
    assert(word.skip(n) =~= seq![]);
    assert(seq![word] + words(seq![]) =~= seq![word]);
}

proof fn lemma_word_len_is(s: Seq<char>, n: int)
    requires
        0 <= n <= s.len(),
        forall|i: int| 0 <= i < n ==> !is_space(#[trigger] s[i]),
        n < s.len() ==> is_space(s[n]),
    ensures
        word_len(s) == n,
    decreases n,
{
    if n > 0 {
        assert forall|i: int| 0 <= i < n - 1 implies !is_space(#[trigger] s.skip(1)[i]) by {
            assert(s.skip(1)[i] == s[i + 1]);
        }
        lemma_word_len_is(s.skip(1), n - 1);
    }
}

/// A text is cut into what stands between the separators, character by character.
pub proof fn first_piece_is_read(piece: Seq<char>, stop: Seq<char>, sep: char, rest: Seq<char>)
    requires
        forall|i: int| 0 <= i < piece.len() ==> !stop.contains(#[trigger] piece[i]),
        stop.contains(sep),
    ensures
        split_set(piece + seq![sep] + rest, stop) == seq![piece] + split_set(rest, stop),
        split_set(piece, stop) == seq![piece],
{
    let s = piece + seq![sep] + rest;
    let n = piece.len() as int;
    assert forall|j: int| 0 <= j < n implies !stop.contains(#[trigger] s[j]) by {
        assert(s[j] == piece[j]);
    }
    assert(s[n] == sep);
    lemma_run_len_unique(s, stop, n);
    lemma_run_len_unique(piece, stop, n);
    assert(s.take(n) =~= piece);
    assert(s.skip(n + 1) =~= rest);
}

/// Every part stands whole in what they are joined to: the first in front, the last at
/// the end, and between any two the separator.
pub proof fn part_stands_in_join(parts: Seq<Seq<char>>, sep: Seq<char>, i: int)
    requires
        0 <= i < parts.len(),
    ensures
        exists|a: Seq<char>, b: Seq<char>|
            {
                &&& join(parts, sep) == #[trigger] (a + parts[i] + b)
                &&& if i == 0 {
                    a.len() == 0
                } else {
                    sep.is_suffix_of(a)
                }
                &&& if i == parts.len() - 1 {
                    b.len() == 0
                } else {
                    sep.is_prefix_of(b)
                }
            },
    decreases parts.len(),
{
    let whole = join(parts, sep);
    if parts.len() == 1 {
        let none = Seq::<char>::empty();
        assert(whole =~= none + parts[0] + none);
    } else if i == parts.len() - 1 {
        let (a, none) = (join(parts.drop_last(), sep) + sep, Seq::<char>::empty());
        assert(whole =~= a + parts[i] + none);
        assert(a.skip(a.len() - sep.len()) =~= sep);
    } else {
        part_stands_in_join(parts.drop_last(), sep, i);
        let before = join(parts.drop_last(), sep);
        let last = parts.len() - 2;
        let (a, b) = choose|a: Seq<char>, b: Seq<char>|
            {
                &&& before == #[trigger] (a + parts.drop_last()[i] + b)
                &&& if i == 0 {
                    a.len() == 0
                } else {
                    sep.is_suffix_of(a)
                }
                &&& if i == last {
                    b.len() == 0
                } else {
                    sep.is_prefix_of(b)
                }
            };
        let more = b + sep + parts.last();
        assert(whole =~= a + parts[i] + more);
        if i == last {
            assert(more.take(sep.len() as int) =~= sep);
        } else {
            assert(more.take(sep.len() as int) =~= b.take(sep.len() as int));
        }
    }
}

/// Lines that are joined read back as those lines.
pub proof fn joined_lines_read_back(parts: Seq<Seq<char>>)
    requires
        parts.len() > 0,
        forall|i: int|
            0 <= i < parts.len() ==> is_line(#[trigger] parts[i]) && parts[i].len() > 0,
    ensures
        lines(join(parts, "\n"@)) == parts,
        join(parts, "\n"@).len() > 0,
        join(parts, "\n"@).last() == parts.last().last(),
    decreases parts.len(),
{
    reveal_strlit("\n");
    assert("\n"@ =~= seq!['\n']);
    assert(is_line(parts[parts.len() - 1]));
    if parts.len() == 1 {
        first_line_is_read(parts[0], seq![]);
        assert(parts =~= seq![parts[0]]);
    } else {
        let init = parts.drop_last();
        assert forall|i: int| 0 <= i < init.len() implies is_line(#[trigger] init[i]) && init[i].len()
            > 0 by {
            assert(init[i] == parts[i]);
        }
        joined_lines_read_back(init);
        let s = join(init, "\n"@);
        assert(is_line(init[init.len() - 1]));
        assert(init.last().contains(init.last().last()));
        last_line_is_read(s, parts.last());
        assert(init.push(parts.last()) =~= parts);
    }
}

/// A number is written with its digits, the last one last.
pub proof fn decimal_is_written_out(n: nat, d: nat)
    requires
        d < 10,
    ensures
        decimal(d) == seq![('0' as u32 + d) as char],
        n > 0 ==> decimal(10 * n + d) == decimal(n).push(('0' as u32 + d) as char),
{
    if n > 0 {
        assert((10 * n + d) / 10 == n && (10 * n + d) % 10 == d);
    }
}

/// One more part is joined behind the rest, with the separator between.
pub proof fn join_grows_at_the_end(parts: Seq<Seq<char>>, last: Seq<char>, sep: Seq<char>)
    ensures
        join(seq![last], sep) == last,
        parts.len() > 0 ==> join(parts.push(last), sep) == join(parts, sep) + sep + last,
{
    assert(parts.push(last).drop_last() =~= parts);
}

/// Taking characters from the end takes those of the set, and not a character more.
pub proof fn trimming_a_set_keeps_the_rest(s: Seq<char>, ends: Seq<char>, set: Seq<char>)
    requires
        s.len() == 0 || !set.contains(s.last()),
        forall|i: int| 0 <= i < ends.len() ==> set.contains(#[trigger] ends[i]),
    ensures
        trim_end_set(s + ends, set) == s,
    decreases ends.len(),
{
    if ends.len() == 0 {
        assert(s + ends =~= s);
    } else {
        assert(set.contains(ends[ends.len() - 1]));
        assert((s + ends).last() == ends.last());
        assert((s + ends).drop_last() =~= s + ends.drop_last());
        assert forall|i: int| 0 <= i < ends.drop_last().len() implies set.contains(
            #[trigger] ends.drop_last()[i],
        ) by {
            assert(set.contains(ends[i]));
        }
        trimming_a_set_keeps_the_rest(s, ends.drop_last(), set);
    }
}

/// Whether a piece stands nowhere in a text.
pub open spec fn is_without(s: Seq<char>, piece: Seq<char>) -> bool {
    forall|x: Seq<char>, y: Seq<char>| s != #[trigger] (x + piece + y)
}

/// A text is without a piece exactly if the piece is not found in it.
pub proof fn absent_piece_is_not_found(s: Seq<char>, piece: Seq<char>)
    ensures
        is_without(s, piece) == !contains(s, piece),
{
    piece_stands_between(s, seq![], piece, seq![]);
    if !is_without(s, piece) {
        let (x, y) = choose|x: Seq<char>, y: Seq<char>| s == #[trigger] (x + piece + y);
        piece_stands_between(s, x, piece, y);
    }
}

/// The same at both ends.
pub proof fn trimming_a_set_keeps_the_middle(
    starts: Seq<char>,
    s: Seq<char>,
    ends: Seq<char>,
    set: Seq<char>,
)
    requires
        s.len() > 0,
        !set.contains(s[0]),
        !set.contains(s.last()),
        forall|i: int| 0 <= i < starts.len() ==> set.contains(#[trigger] starts[i]),
        forall|i: int| 0 <= i < ends.len() ==> set.contains(#[trigger] ends[i]),
    ensures
        trim_set(starts + s + ends, set) == s,
    decreases starts.len(),
{
    let whole = starts + s + ends;
    if starts.len() == 0 {
        assert(whole =~= s + ends);
        assert(whole[0] == s[0]);
        trimming_a_set_keeps_the_rest(s, ends, set);
    } else {
        assert(set.contains(starts[0]));
        assert(whole[0] == starts[0]);
        assert(whole.skip(1) =~= starts.skip(1) + s + ends);
        assert forall|i: int| 0 <= i < starts.skip(1).len() implies set.contains(
            #[trigger] starts.skip(1)[i],
        ) by {
            assert(set.contains(starts[i + 1]));
        }
        trimming_a_set_keeps_the_middle(starts.skip(1), s, ends, set);
        assert(trim_start_set(whole, set) == trim_start_set(whole.skip(1), set));
    }
}

} // verus!
