//! Log record severities: integers 0 ("emerg", most severe) through
//! 7 ("debug", least severe), written in logs either as a name or a numeral.

use vstd::prelude::*;
use vstd::string::StrSliceExecFns;

use crate::text::chars_of;
use crate::text::is_space;
use crate::text::str_eq;

verus! {

/// A record severity; 0 is the most severe ("emerg"), 7 the least ("debug").
#[derive(PartialEq, Eq, Structural, Clone, Copy, Debug)]
pub struct LogPriority(u8);

impl View for LogPriority {
    type V = u8;

    closed spec fn view(&self) -> u8 {
        self.0
    }
}

/// The severity value a token denotes: a severity name or its numeral, or
/// nothing for any other token.
pub open spec fn spec_priority_value(s: Seq<char>) -> Option<u8> {
    if s == "0"@ || s == "emerg"@ {
        Some(0u8)
    } else if s == "1"@ || s == "alert"@ {
        Some(1u8)
    } else if s == "2"@ || s == "crit"@ {
        Some(2u8)
    } else if s == "3"@ || s == "err"@ {
        Some(3u8)
    } else if s == "4"@ || s == "warn"@ {
        Some(4u8)
    } else if s == "5"@ || s == "notice"@ {
        Some(5u8)
    } else if s == "6"@ || s == "info"@ {
        Some(6u8)
    } else if s == "7"@ || s == "debug"@ {
        Some(7u8)
    } else {
        None
    }
}

/// The severity value a token denotes, if any.
pub fn priority_value(s: &str) -> (r: Option<u8>)
    ensures
        r == spec_priority_value(s@),
{
    if str_eq(s, "0") || str_eq(s, "emerg") {
        Some(0)
    } else if str_eq(s, "1") || str_eq(s, "alert") {
        Some(1)
    } else if str_eq(s, "2") || str_eq(s, "crit") {
        Some(2)
    } else if str_eq(s, "3") || str_eq(s, "err") {
        Some(3)
    } else if str_eq(s, "4") || str_eq(s, "warn") {
        Some(4)
    } else if str_eq(s, "5") || str_eq(s, "notice") {
        Some(5)
    } else if str_eq(s, "6") || str_eq(s, "info") {
        Some(6)
    } else if str_eq(s, "7") || str_eq(s, "debug") {
        Some(7)
    } else {
        None
    }
}

/// Whether a ".." range separator stands at position `m`.
pub open spec fn sep_at(s: Seq<char>, m: int) -> bool {
    m + 2 <= s.len() && s[m] == '.' && s[m + 1] == '.'
}

/// The position of the first ".." separator at or after `from`, if any.
pub open spec fn find_sep(s: Seq<char>, from: nat) -> Option<nat>
    decreases s.len() - from,
{
    if from + 2 > s.len() {
        None
    } else if s[from as int] == '.' && s[from as int + 1] == '.' {
        Some(from)
    } else {
        find_sep(s, from + 1)
    }
}

/// A scan that saw no separator before `k` pins down `find_sep`.
proof fn lemma_find_sep_from(s: Seq<char>, from: nat, k: nat)
    requires
        from <= k,
        forall|m: int| from <= m < k ==> !sep_at(s, m),
    ensures
        sep_at(s, k as int) ==> find_sep(s, from) == Some(k),
        k + 2 > s.len() ==> find_sep(s, from) is None,
    decreases k - from,
{
    if from + 2 > s.len() {
    } else if from == k {
    } else {
        assert(!sep_at(s, from as int));
        lemma_find_sep_from(s, from + 1, k);
    }
}

/// The position of the first ".." separator at or after `from`, if any.
fn find_sep_exec(v: &Vec<char>, from: usize) -> (r: Option<usize>)
    ensures
        match r {
            Some(d) => find_sep(v@, from as nat) == Some(d as nat) && d + 2 <= v@.len(),
            None => find_sep(v@, from as nat) is None,
        },
{
    let n = v.len();
    if n < 2 || from >= n - 1 {
        proof {
            lemma_find_sep_from(v@, from as nat, from as nat);
        }
        return None;
    }
    let mut k = from;
    while k < n - 1
        invariant
            from <= k <= n - 1,
            2 <= n == v@.len(),
            forall|m: int| from <= m < k ==> !sep_at(v@, m),
        decreases n - k,
    {
        if v[k] == '.' && v[k + 1] == '.' {
            proof {
                lemma_find_sep_from(v@, from as nat, k as nat);
            }
            return Some(k);
        }
        k = k + 1;
    }
    proof {
        assert forall|m: int| from <= m < n implies !sep_at(v@, m) by {
            if m + 2 <= n {
                assert(m < k);
            }
        }
        lemma_find_sep_from(v@, from as nat, n as nat);
    }
    None
}

/// What parsing a priority range argument yields: a single severity means a
/// one-point range; `lo..hi` bounds the range, an empty side meaning the
/// extreme on that side; anything else (a third part, or an unknown name)
/// yields nothing.
pub open spec fn spec_parse_priorities(s: Seq<char>) -> Option<(u8, u8)> {
    match find_sep(s, 0) {
        None => match spec_priority_value(s) {
            Some(p) => Some((p, p)),
            None => None,
        },
        Some(d) => match find_sep(s, d + 2) {
            Some(_) => None,
            None => {
                let s1 = s.take(d as int);
                let s2 = s.skip(d + 2 as int);
                let p1 = if s1.len() == 0 {
                    Some(0u8)
                } else {
                    spec_priority_value(s1)
                };
                let p2 = if s2.len() == 0 {
                    Some(7u8)
                } else {
                    spec_priority_value(s2)
                };
                match (p1, p2) {
                    (Some(a), Some(b)) => Some((a, b)),
                    _ => None,
                }
            },
        },
    }
}

/// Parses a priority range argument such as "warn", "alert..err" or "..5".
pub fn parse_priorities(s: &str) -> (r: Option<(LogPriority, LogPriority)>)
    ensures
        match r {
            Some(p) => spec_parse_priorities(s@) == Some((p.0@, p.1@)),
            None => spec_parse_priorities(s@) is None,
        },
{
    let v = chars_of(s);
    let n = v.len();
    match find_sep_exec(&v, 0) {
        None => match LogPriority::from_str(s) {
            Some(p) => Some((p, p)),
            None => None,
        },
        Some(d) => {
            if find_sep_exec(&v, d + 2).is_some() {
                return None;
            }
            let p1 = if d == 0 {
                LogPriority::min()
            } else {
                match LogPriority::from_str(s.substring_char(0, d)) {
                    Some(p) => p,
                    None => { return None },
                }
            };
            let p2 = if d + 2 == n {
                LogPriority::max()
            } else {
                match LogPriority::from_str(s.substring_char(d + 2, n)) {
                    Some(p) => p,
                    None => { return None },
                }
            };
            proof {
                assert(s@.take(d as int) == s@.subrange(0, d as int));
                assert(s@.skip(d + 2) == s@.subrange(d + 2, n as int));
            }
            Some((p1, p2))
        },
    }
}

/// The first whitespace-delimited token of `s`: its longest whitespace-free
/// prefix.
pub open spec fn until_space(s: Seq<char>) -> Seq<char>
    decreases s.len(),
{
    if s.len() > 0 && !is_space(s[0]) {
        seq![s[0]] + until_space(s.drop_first())
    } else {
        Seq::empty()
    }
}

/// The part of `s` after its last '.': all of `s` when it holds none.
pub open spec fn after_last_dot(s: Seq<char>) -> Seq<char>
    decreases s.len(),
{
    if s.len() == 0 {
        s
    } else if s.last() == '.' {
        Seq::empty()
    } else {
        after_last_dot(s.drop_last()).push(s.last())
    }
}

/// `s` without one trailing ':' when it ends in one.
pub open spec fn strip_trailing_colon(s: Seq<char>) -> Seq<char> {
    if s.len() > 0 && s.last() == ':' {
        s.drop_last()
    } else {
        s
    }
}

/// The token that carries a record's severity: the first whitespace-delimited
/// token of the content, after its last '.', one trailing ':' stripped.
pub open spec fn priority_token(content: Seq<char>) -> Seq<char> {
    strip_trailing_colon(after_last_dot(until_space(content)))
}

/// The severity a record's content encodes: what its priority token names,
/// or 7 ("debug") when it names none — an unknown severity must never be
/// narrowed away by a priority filter.
pub open spec fn spec_read_priority(content: Seq<char>) -> u8 {
    match spec_priority_value(priority_token(content)) {
        Some(v) => v,
        None => 7u8,
    }
}

/// When the first `i` characters are no whitespace and the next one (if any)
/// is, the first token is exactly those `i`.
pub proof fn lemma_until_space_at(s: Seq<char>, i: int)
    requires
        0 <= i <= s.len(),
        forall|k: int| 0 <= k < i ==> !is_space(s[k]),
        i < s.len() ==> is_space(s[i]),
    ensures
        until_space(s) == s.take(i),
    decreases i,
{
    if i == 0 {
        assert(s.take(0) =~= Seq::<char>::empty());
    } else {
        lemma_until_space_at(s.drop_first(), i - 1);
        assert(seq![s[0]] + s.drop_first().take(i - 1) =~= s.take(i));
    }
}

/// A sequence without a '.' is untouched by taking what follows the last '.'.
pub proof fn lemma_after_last_dot_none(s: Seq<char>)
    requires
        forall|k: int| 0 <= k < s.len() ==> s[k] != '.',
    ensures
        after_last_dot(s) == s,
    decreases s.len(),
{
    if s.len() > 0 {
        lemma_after_last_dot_none(s.drop_last());
        assert(s.drop_last().push(s.last()) =~= s);
    }
}

/// When the last '.' stands at `d`, what follows it is the rest.
pub proof fn lemma_after_last_dot_at(s: Seq<char>, d: int)
    requires
        0 <= d < s.len(),
        s[d] == '.',
        forall|k: int| d < k < s.len() ==> s[k] != '.',
    ensures
        after_last_dot(s) == s.skip(d + 1),
    decreases s.len(),
{
    if d == s.len() - 1 {
        assert(s.skip(d + 1) =~= Seq::<char>::empty());
    } else {
        lemma_after_last_dot_at(s.drop_last(), d);
        assert(s.drop_last().skip(d + 1).push(s.last()) =~= s.skip(d + 1));
    }
}

/// The severity a record's content encodes (see `spec_read_priority`).
pub fn read_priority(content: &str) -> (r: LogPriority)
    ensures
        r@ == spec_read_priority(content@),
{
    let n = content.unicode_len();
    let mut i: usize = 0;
    while i < n && !content.get_char(i).is_whitespace()
        invariant
            i <= n,
            n == content@.len(),
            forall|k: int| 0 <= k < i ==> !is_space(content@[k]),
        decreases n - i,
    {
        i = i + 1;
    }
    proof {
        lemma_until_space_at(content@, i as int);
    }
    let ghost t = content@.take(i as int);
    let mut seg_start: usize = 0;
    let mut has_dot = false;
    let mut k: usize = 0;
    while k < i
        invariant
            k <= i <= n,
            n == content@.len(),
            has_dot ==> 1 <= seg_start <= k && content@[seg_start - 1] == '.' && (forall|m: int|
                seg_start <= m < k ==> content@[m] != '.'),
            !has_dot ==> seg_start == 0 && (forall|m: int| 0 <= m < k ==> content@[m] != '.'),
        decreases i - k,
    {
        if content.get_char(k) == '.' {
            has_dot = true;
            seg_start = k + 1;
        }
        k = k + 1;
    }
    proof {
        if has_dot {
            lemma_after_last_dot_at(t, seg_start - 1);
            assert(t.skip(seg_start as int) =~= content@.subrange(seg_start as int, i as int));
        } else {
            lemma_after_last_dot_none(t);
            assert(t =~= content@.subrange(0, i as int));
        }
        assert(after_last_dot(until_space(content@)) == content@.subrange(
            seg_start as int,
            i as int,
        ));
    }
    let end = if seg_start < i && content.get_char(i - 1) == ':' {
        i - 1
    } else {
        i
    };
    proof {
        let seg = content@.subrange(seg_start as int, i as int);
        if seg_start < i && content@[i - 1] == ':' {
            assert(seg.drop_last() =~= content@.subrange(seg_start as int, i - 1));
        }
        assert(strip_trailing_colon(seg) == content@.subrange(seg_start as int, end as int));
    }
    let tok = content.substring_char(seg_start, end);
    LogPriority::from_str_or_max(tok)
}

impl LogPriority {
    /// The severity named by `s`, if `s` is a known severity name or numeral.
    pub fn from_str(s: &str) -> (r: Option<Self>)
        ensures
            r matches Some(p) ==> spec_priority_value(s@) == Some(p@),
            r is None <==> spec_priority_value(s@) is None,
    {
        match priority_value(s) {
            Some(v) => Some(LogPriority(v)),
            None => None,
        }
    }

    /// The severity named by `s`, or the least severe one when `s` names none:
    /// a record whose severity cannot be read must never be narrowed away.
    pub fn from_str_or_max(s: &str) -> (r: Self)
        ensures
            spec_priority_value(s@) matches Some(v) ==> r@ == v,
            spec_priority_value(s@) is None ==> r@ == 7,
    {
        match Self::from_str(s) {
            Some(p) => p,
            None => Self::max(),
        }
    }

    /// The most severe priority, "emerg" (0).
    pub fn min() -> (r: Self)
        ensures
            r@ == 0,
    {
        LogPriority(0)
    }

    /// The least severe priority, "debug" (7).
    pub fn max() -> (r: Self)
        ensures
            r@ == 7,
    {
        LogPriority(7)
    }

    /// The numeric severity.
    pub fn value(&self) -> (r: u8)
        ensures
            r == self@,
    {
        self.0
    }
}

} // verus!
