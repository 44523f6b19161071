//! Small executable helpers for character-level work on strings.

use vstd::prelude::*;
use vstd::string::StrSliceExecFns;

verus! {

/// True when a character counts as whitespace, as `char::is_whitespace`
/// reports it (the Unicode `White_Space` property). Contracts speak of this
/// name; the character table itself is not restated.
pub uninterp spec fn is_space(c: char) -> bool;

/// Relies on char::is_whitespace: true exactly for characters with the
/// Unicode White_Space property, a pure function of the character.
pub assume_specification[ char::is_whitespace ](c: char) -> (r: bool)
    ensures
        r == is_space(c),
;

/// Relies on String::push: appends exactly the given character.
pub assume_specification[ String::push ](s: &mut String, c: char)
    ensures
        final(s)@ == old(s)@.push(c),
;

/// The characters of `s`, one vector element per character.
pub fn chars_of(s: &str) -> (r: Vec<char>)
    ensures
        r@ == s@,
{
    let n = s.unicode_len();
    let mut r: Vec<char> = Vec::new();
    let mut i: usize = 0;
    while i < n
        invariant
            i <= n,
            n == s@.len(),
            r@ == s@.take(i as int),
        decreases n - i,
    {
        let c = s.get_char(i);
        r.push(c);
        i = i + 1;
        proof {
            assert(r@ =~= s@.take(i as int));
        }
    }
    proof {
        assert(s@.take(n as int) =~= s@);
    }
    r
}

/// Strict lexicographic order on character sequences: by the first differing
/// character's scalar value, a proper prefix coming first.
pub open spec fn chars_lt(a: Seq<char>, b: Seq<char>) -> bool
    decreases a.len(),
{
    if b.len() == 0 {
        false
    } else if a.len() == 0 {
        true
    } else if a[0] != b[0] {
        (a[0] as u32) < (b[0] as u32)
    } else {
        chars_lt(a.drop_first(), b.drop_first())
    }
}

/// The lexicographic order is a strict total order: asymmetric, and two
/// sequences that neither precede one another are equal.
pub proof fn lemma_chars_lt_total(a: Seq<char>, b: Seq<char>)
    ensures
        !chars_lt(a, b) && !chars_lt(b, a) ==> a == b,
        !(chars_lt(a, b) && chars_lt(b, a)),
    decreases a.len(),
{
    if a.len() == 0 && b.len() == 0 {
        assert(a =~= b);
    } else if a.len() == 0 {
        assert(chars_lt(a, b));
    } else if b.len() == 0 {
        assert(chars_lt(b, a));
    } else if a[0] != b[0] {
        if !chars_lt(a, b) && !chars_lt(b, a) {
            assert(a[0] as u32 == b[0] as u32);
            vstd::utf8::char_u32_cast(a[0], a[0] as u32);
            vstd::utf8::char_u32_cast(b[0], b[0] as u32);
            assert(false);
        }
    } else if a.len() > 0 && b.len() > 0 && a[0] == b[0] {
        lemma_chars_lt_total(a.drop_first(), b.drop_first());
        if !chars_lt(a, b) && !chars_lt(b, a) {
            assert(a.drop_first() == b.drop_first());
            assert forall|i: int| 0 <= i < a.len() implies a[i] == b[i] by {
                if i > 0 {
                    assert(a[i] == a.drop_first()[i - 1]);
                    assert(b[i] == b.drop_first()[i - 1]);
                }
            }
            assert(a =~= b);
        }
    }
}

/// The lexicographic order is transitive.
pub proof fn lemma_chars_lt_trans(a: Seq<char>, b: Seq<char>, c: Seq<char>)
    requires
        chars_lt(a, b),
        chars_lt(b, c),
    ensures
        chars_lt(a, c),
    decreases a.len(),
{
    if a.len() > 0 && b.len() > 0 && c.len() > 0 && a[0] == b[0] && b[0] == c[0] {
        lemma_chars_lt_trans(a.drop_first(), b.drop_first(), c.drop_first());
    }
}

/// Sequences that agree on their first `i` characters compare as their
/// remainders do.
pub proof fn lemma_chars_lt_common_prefix(a: Seq<char>, b: Seq<char>, i: int)
    requires
        0 <= i <= a.len(),
        i <= b.len(),
        forall|k: int| 0 <= k < i ==> a[k] == b[k],
    ensures
        chars_lt(a, b) == chars_lt(a.skip(i), b.skip(i)),
    decreases i,
{
    if i == 0 {
        assert(a.skip(0) =~= a);
        assert(b.skip(0) =~= b);
    } else {
        assert(a.len() > 0 && b.len() > 0 && a[0] == b[0]);
        lemma_chars_lt_common_prefix(a.drop_first(), b.drop_first(), i - 1);
        assert(a.drop_first().skip(i - 1) =~= a.skip(i));
        assert(b.drop_first().skip(i - 1) =~= b.skip(i));
    }
}

/// The character sequences of a sequence of strings.
pub open spec fn views_of(s: Seq<String>) -> Seq<Seq<char>> {
    s.map_values(|l: String| l@)
}

/// Whether `n` occurs in `h` as a contiguous run of characters.
pub open spec fn contains_seq(h: Seq<char>, n: Seq<char>) -> bool {
    exists|i: int| 0 <= i <= h.len() - n.len() && #[trigger] h.subrange(i, i + n.len()) == n
}

/// Whether the characters of `h` starting at `i` spell out `n`.
pub(crate) fn matches_at(h: &str, i: usize, n: &str) -> (r: bool)
    requires
        i + n@.len() <= h@.len(),
        h@.len() <= usize::MAX,
    ensures
        r == (h@.subrange(i as int, i + n@.len()) == n@),
{
    let nn = n.unicode_len();
    let mut j: usize = 0;
    while j < nn
        invariant
            j <= nn,
            nn == n@.len(),
            i + nn <= h@.len(),
            h@.len() <= usize::MAX,
            forall|m: int| 0 <= m < j ==> h@[i + m] == n@[m],
        decreases nn - j,
    {
        if h.get_char(i + j) != n.get_char(j) {
            proof {
                assert(h@.subrange(i as int, i + nn)[j as int] == h@[i + j]);
            }
            return false;
        }
        j = j + 1;
    }
    proof {
        assert(h@.subrange(i as int, i + nn) =~= n@);
    }
    true
}

/// Substring search.
pub fn str_contains(h: &str, n: &str) -> (r: bool)
    ensures
        r == contains_seq(h@, n@),
{
    let hn = h.unicode_len();
    let nn = n.unicode_len();
    if nn > hn {
        return false;
    }
    if nn == 0 {
        proof {
            assert(h@.subrange(0, 0 + n@.len() as int) =~= n@);
        }
        return true;
    }
    let mut i: usize = 0;
    while i <= hn - nn
        invariant
            0 < nn <= hn,
            i <= hn - nn + 1,
            hn == h@.len(),
            nn == n@.len(),
            forall|k: int| 0 <= k < i ==> #[trigger] h@.subrange(k, k + nn) != n@,
        decreases hn - nn - i + 1,
    {
        if matches_at(h, i, n) {
            return true;
        }
        i = i + 1;
    }
    false
}

/// The position of the last occurrence of `n` in `h` at or below `k`.
pub open spec fn rfind_below(h: Seq<char>, n: Seq<char>, k: int) -> Option<int>
    decreases k,
{
    if k < 0 || k + n.len() > h.len() {
        None
    } else if h.subrange(k, k + n.len() as int) == n {
        Some(k)
    } else if k == 0 {
        None
    } else {
        rfind_below(h, n, k - 1)
    }
}

/// The part of `h` after the last occurrence of `n`: all of `h` when `n`
/// never occurs.
pub open spec fn after_last_occurrence(h: Seq<char>, n: Seq<char>) -> Seq<char> {
    match rfind_below(h, n, h.len() - n.len()) {
        Some(k) => h.skip(k + n.len() as int),
        None => h,
    }
}

/// A scan downward from `hi` that saw no occurrence above `k` pins down
/// `rfind_below`.
proof fn lemma_rfind_below(h: Seq<char>, n: Seq<char>, hi: int, k: int)
    requires
        k <= hi,
        hi + n.len() <= h.len(),
        forall|m: int| k < m <= hi ==> #[trigger] h.subrange(m, m + n.len() as int) != n,
    ensures
        k >= 0 && h.subrange(k, k + n.len() as int) == n ==> rfind_below(h, n, hi) == Some(k),
        k < 0 ==> rfind_below(h, n, hi) is None,
    decreases hi - k,
{
    if k < hi {
        lemma_rfind_below(h, n, hi - 1, k);
    }
}

/// The suffix of `h` after the last occurrence of `n`.
pub fn str_after_last(h: &str, n: &str) -> (r: String)
    ensures
        r@ == after_last_occurrence(h@, n@),
{
    let hn = h.unicode_len();
    let nn = n.unicode_len();
    if nn > hn || nn == 0 {
        proof {
            if nn == 0 && hn >= nn {
                assert(h@.subrange(hn as int, hn as int) =~= n@);
                lemma_rfind_below(h@, n@, hn as int, hn as int);
            }
        }
        if nn == 0 {
            // the empty marker "occurs" at the very end: nothing follows it
            proof {
                assert(h@.skip(hn as int) =~= Seq::<char>::empty());
            }
            return String::new();
        }
        return h.to_owned();
    }
    let mut k: usize = hn - nn;
    loop
        invariant
            k <= hn - nn,
            nn <= hn,
            0 < nn,
            hn == h@.len(),
            nn == n@.len(),
            forall|m: int| k < m <= hn - nn ==> #[trigger] h@.subrange(m, m + nn) != n@,
        decreases k,
    {
        if matches_at(h, k, n) {
            proof {
                lemma_rfind_below(h@, n@, hn - nn, k as int);
            }
            return h.substring_char(k + nn, hn).to_owned();
        }
        if k == 0 {
            proof {
                lemma_rfind_below(h@, n@, hn - nn, -1);
            }
            return h.to_owned();
        }
        k = k - 1;
    }
}

/// `s` without its leading whitespace.
pub open spec fn trim_front(s: Seq<char>) -> Seq<char>
    decreases s.len(),
{
    if s.len() > 0 && is_space(s[0]) {
        trim_front(s.drop_first())
    } else {
        s
    }
}

/// `s` without its trailing whitespace.
pub open spec fn trim_back(s: Seq<char>) -> Seq<char>
    decreases s.len(),
{
    if s.len() > 0 && is_space(s.last()) {
        trim_back(s.drop_last())
    } else {
        s
    }
}

/// `s` without surrounding whitespace.
pub open spec fn spec_trim(s: Seq<char>) -> Seq<char> {
    trim_back(trim_front(s))
}

/// When the first `i` characters are whitespace and the next one (if any) is
/// not, trimming the front removes exactly those `i`.
pub proof fn lemma_trim_front_at(s: Seq<char>, i: int)
    requires
        0 <= i <= s.len(),
        forall|k: int| 0 <= k < i ==> is_space(s[k]),
        i < s.len() ==> !is_space(s[i]),
    ensures
        trim_front(s) == s.skip(i),
    decreases i,
{
    if i == 0 {
        assert(s.skip(0) =~= s);
    } else {
        lemma_trim_front_at(s.drop_first(), i - 1);
        assert(s.drop_first().skip(i - 1) =~= s.skip(i));
    }
}

/// When every character from `e` on is whitespace and the one before `e`
/// (if any) is not, trimming the back keeps exactly the first `e`.
pub proof fn lemma_trim_back_at(s: Seq<char>, e: int)
    requires
        0 <= e <= s.len(),
        forall|k: int| e <= k < s.len() ==> is_space(s[k]),
        e > 0 ==> !is_space(s[e - 1]),
    ensures
        trim_back(s) == s.take(e),
    decreases s.len() - e,
{
    if e == s.len() {
        if s.len() > 0 {
            assert(!is_space(s.last()));
        }
        assert(s.take(e) =~= s);
    } else {
        assert(is_space(s.last()));
        lemma_trim_back_at(s.drop_last(), e);
        assert(s.drop_last().take(e) =~= s.take(e));
    }
}

/// Lexicographic string comparison.
pub fn str_lt(a: &str, b: &str) -> (r: bool)
    ensures
        r == chars_lt(a@, b@),
{
    let na = a.unicode_len();
    let nb = b.unicode_len();
    let mut i: usize = 0;
    loop
        invariant
            i <= na,
            i <= nb,
            na == a@.len(),
            nb == b@.len(),
            forall|k: int| 0 <= k < i ==> a@[k] == b@[k],
        decreases na - i,
    {
        proof {
            lemma_chars_lt_common_prefix(a@, b@, i as int);
        }
        if i >= na || i >= nb {
            return na < nb;
        }
        let ca = a.get_char(i);
        let cb = b.get_char(i);
        if ca != cb {
            return (ca as u32) < (cb as u32);
        }
        i = i + 1;
    }
}

/// Character-for-character string equality.
pub fn str_eq(a: &str, b: &str) -> (r: bool)
    ensures
        r == (a@ == b@),
{
    let na = a.unicode_len();
    let nb = b.unicode_len();
    if na != nb {
        return false;
    }
    let mut i: usize = 0;
    while i < na
        invariant
            i <= na,
            na == a@.len(),
            na == b@.len(),
            forall|k: int| 0 <= k < i ==> a@[k] == b@[k],
        decreases na - i,
    {
        if a.get_char(i) != b.get_char(i) {
            return false;
        }
        i = i + 1;
    }
    proof {
        assert(a@ =~= b@);
    }
    true
}

} // verus!
