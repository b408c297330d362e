//! The two questions about characters that only the Unicode tables answer.
//!
//! The tables are those of the standard library, so the functions that read them
//! are trusted. What can be said without the tables is said without them: each
//! result is named only where it rests on them.

use crate::text::ascii_lower;
use vstd::prelude::*;

verus! {

/// ASCII characters, and the CJK unified ideographs, which have no case.
pub open spec fn is_plain(c: char) -> bool {
    c <= '\u{7f}' || '\u{4e00}' <= c <= '\u{9fff}'
}

/// Whether every character of `s` is ASCII or an ideograph.
pub open spec fn all_plain(s: Seq<char>) -> bool {
    forall|i: int| 0 <= i < s.len() ==> is_plain(#[trigger] s[i])
}

/// The capital sigma. Its lower-case form is the only one that depends on where it
/// stands.
pub const SIGMA: char = '\u{3a3}';

/// The two lower-case forms of sigma.
pub open spec fn is_small_sigma(c: char) -> bool {
    c == '\u{3c3}' || c == '\u{3c2}'
}

/// What the character `i` of a text becomes in lower case, by the Unicode tables.
pub uninterp spec fn table_lower(text: Seq<char>, i: int) -> Seq<char>;

/// What the character `i` of a text becomes in lower case. An ASCII letter is lowered,
/// and no other plain character changes. A sigma becomes the final one or the other.
/// Any other character becomes the same wherever it stands.
pub open spec fn lower_at(text: Seq<char>, i: int) -> Seq<char> {
    if is_plain(text[i]) {
        seq![ascii_lower(text[i])]
    } else if text[i] == SIGMA {
        if table_lower(text, i) == seq!['\u{3c2}'] {
            seq!['\u{3c2}']
        } else {
            seq!['\u{3c3}']
        }
    } else {
        table_lower(seq![text[i]], 0)
    }
}

/// The lower-case form of the first `n` characters of a text, as they stand in it.
pub open spec fn lower_first(text: Seq<char>, n: nat) -> Seq<char>
    decreases n,
{
    if n == 0 {
        seq![]
    } else {
        lower_first(text, (n - 1) as nat) + lower_at(text, n - 1)
    }
}

/// The lower-case form of a text.
pub open spec fn lower(s: Seq<char>) -> Seq<char> {
    lower_first(s, s.len())
}

/// `str::to_lowercase`: the result depends on the text alone, and is what the characters
/// become, one after the other. ASCII letters are lowered, other ASCII characters and
/// ideographs stay. The capital sigma becomes the final sigma or the other one, by where
/// it stands; any other character becomes what it becomes alone.
#[verifier::external_body]
pub(crate) fn to_lower(s: &str) -> (r: String)
    ensures
        r@ == lower(s@),
        s@.len() == 1 && !is_plain(s@[0]) && s@[0] != SIGMA ==> r@ == table_lower(s@, 0),
{
    s.to_lowercase()
}

/// In a plain text the ASCII letters are lowered and nothing else changes.
pub proof fn plain_text_is_lowered(s: Seq<char>)
    requires
        all_plain(s),
    ensures
        lower(s) == s.map_values(|c: char| ascii_lower(c)),
{
    lemma_plain_first(s, s.len());
    assert(s.take(s.len() as int) =~= s);
}

/// The same of the plain characters in front of a text.
pub proof fn lemma_plain_first(s: Seq<char>, n: nat)
    requires
        n <= s.len(),
        all_plain(s.take(n as int)),
    ensures
        lower_first(s, n) == s.take(n as int).map_values(|c: char| ascii_lower(c)),
    decreases n,
{
    if n > 0 {
        let m = (n - 1) as nat;
        assert(s.take(n as int)[n - 1] == s[n - 1]);
        assert forall|i: int| 0 <= i < m implies is_plain(#[trigger] s.take(m as int)[i]) by {
            assert(s.take(n as int)[i] == s[i]);
        }
        lemma_plain_first(s, m);
        assert(lower_first(s, n) =~= s.take(n as int).map_values(|c: char| ascii_lower(c)));
    } else {
        assert(lower_first(s, n) =~= s.take(n as int).map_values(|c: char| ascii_lower(c)));
    }
}

/// What the first characters become stands in front of what all become.
pub proof fn lemma_lower_prefix(s: Seq<char>, k: nat, n: nat)
    requires
        k <= n,
    ensures
        lower_first(s, k).is_prefix_of(lower_first(s, n)),
    decreases n,
{
    if k < n {
        lemma_lower_prefix(s, k, (n - 1) as nat);
        assert(lower_first(s, k) =~= lower_first(s, n).take(lower_first(s, k).len() as int));
    }
}

/// A plain beginning of a text, in any case, is the beginning of its lower-case form.
pub proof fn lower_keeps_plain_start(s: Seq<char>, head: Seq<char>)
    requires
        head.len() <= s.len(),
        all_plain(head),
        forall|i: int|
            0 <= i < head.len() ==> is_plain(#[trigger] s[i]) && ascii_lower(s[i]) == ascii_lower(
                head[i],
            ),
    ensures
        lower(head).is_prefix_of(lower(s)),
        lower(head).len() == head.len(),
{
    let n = head.len();
    assert forall|i: int| 0 <= i < n implies is_plain(#[trigger] s.take(n as int)[i]) by {
        assert(is_plain(s[i]));
    }
    lemma_plain_first(s, n);
    plain_text_is_lowered(head);
    lemma_lower_prefix(s, n, s.len());
    assert(lower(head) =~= lower_first(s, n)) by {
        assert forall|i: int| 0 <= i < n implies lower(head)[i] == lower_first(s, n)[i] by {
            assert(is_plain(s[i]));
        }
    }
}

/// Whether two texts are the same but for the two forms of sigma.
pub open spec fn alike(a: Seq<char>, b: Seq<char>) -> bool {
    &&& a.len() == b.len()
    &&& forall|i: int|
        0 <= i < a.len() ==> #[trigger] a[i] == b[i] || is_small_sigma(a[i]) && is_small_sigma(b[i])
}

/// Whether two characters are the same but for the case of ASCII letters.
pub open spec fn same_letter(a: char, b: char) -> bool {
    a == b || is_plain(a) && is_plain(b) && ascii_lower(a) == ascii_lower(b)
}

/// Characters that stand somewhere in a text become there what they become alone, but
/// for the two forms of sigma; the case of ASCII letters does not count.
pub proof fn lower_of_part(s: Seq<char>, k: nat, part: Seq<char>, n: nat)
    requires
        k + n <= s.len(),
        n <= part.len(),
        forall|i: int| 0 <= i < n ==> same_letter(s[k + i], #[trigger] part[i]),
    ensures
        alike(lower_first(s, k + n), lower_first(s, k) + lower_first(part, n)),
    decreases n,
{
    if n > 0 {
        let m = (n - 1) as nat;
        lower_of_part(s, k, part, m);
        assert(same_letter(s[(k + m) as int], part[m as int]));
        assert(alike(lower_at(s, (k + m) as int), lower_at(part, m as int)));
        let x = lower_first(s, k + m);
        let y = lower_first(s, k) + lower_first(part, m);
        let u = lower_at(s, (k + m) as int);
        let v = lower_at(part, m as int);
        assert(lower_first(s, k + n) == x + u);
        assert(lower_first(s, k) + lower_first(part, n) =~= y + v);
        assert forall|i: int| 0 <= i < (x + u).len() implies #[trigger] (x + u)[i] == (y + v)[i]
            || is_small_sigma((x + u)[i]) && is_small_sigma((y + v)[i]) by {
            if i < x.len() {
                assert(x[i] == y[i] || is_small_sigma(x[i]) && is_small_sigma(y[i]));
            } else {
                let j = i - x.len();
                assert(u[j] == v[j] || is_small_sigma(u[j]) && is_small_sigma(v[j]));
            }
        }
    }
}

/// Whether a character is a letter or a number, by the Unicode tables.
pub uninterp spec fn table_alphanumeric(c: char) -> bool;

/// Whether a character is a letter or a number.
pub open spec fn alphanumeric(c: char) -> bool {
    if c <= '\u{7f}' {
        '0' <= c <= '9' || 'A' <= c <= 'Z' || 'a' <= c <= 'z'
    } else {
        table_alphanumeric(c)
    }
}

/// `char::is_alphanumeric`: the result depends on the character alone. Of the
/// ASCII characters, the letters and the digits are alphanumeric.
#[verifier::external_body]
pub(crate) fn is_alphanumeric(c: char) -> (r: bool)
    ensures
        r == alphanumeric(c),
        c > '\u{7f}' ==> r == table_alphanumeric(c),
{
    c.is_alphanumeric()
}

} // verus!
