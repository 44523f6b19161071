//! One tracked log file: its path and the byte offset up to which it has been
//! consumed, plus the batch extraction of its filtered, ordered records.

use vstd::prelude::*;

use crate::logline::LogLine;
use crate::logline::LogLineView;
use crate::logline::lemma_line_order;
use crate::logline::line_key_eq;
use crate::logline::line_lt;
use crate::logline::spec_in_window;
use crate::logline::spec_is_match;
use crate::logline::spec_parse_line;
use crate::settings::LogFilterSettings;

verus! {

/// Whether a record passes every batch filter: the inclusive time window,
/// the content pattern, and the inclusive priority window.
pub open spec fn passes(v: LogLineView, s: &LogFilterSettings) -> bool {
    &&& spec_in_window(v.date, s.since, s.until)
    &&& spec_is_match(s.re, v.content)
    &&& s.min_priority@ <= v.priority <= s.max_priority@
}

/// Whether some element of `s` has the value `x`.
pub open spec fn line_in(s: Seq<LogLine>, x: LogLineView) -> bool {
    exists|i: int| 0 <= i < s.len() && s[i]@ == x
}

/// Strictly ascending in the record order (so also free of duplicates).
pub open spec fn sorted_strict(s: Seq<LogLine>) -> bool {
    forall|i: int, j: int| 0 <= i < j < s.len() ==> line_lt(s[i]@, s[j]@)
}

/// Every element is internally consistent.
pub open spec fn all_wf(s: Seq<LogLine>) -> bool {
    forall|i: int| 0 <= i < s.len() ==> (#[trigger] s[i]@).wf()
}

/// Whether `x` is the value of some line of the file that passes the filters.
pub open spec fn extracted(lines: Seq<String>, s: &LogFilterSettings, x: LogLineView) -> bool {
    &&& exists|i: int| 0 <= i < lines.len() && #[trigger] spec_parse_line(lines[i]@) == Some(x)
    &&& passes(x, s)
}

/// Inserts `x` into a strictly sorted vector, keeping it a sorted set: a
/// record already present (by its order key) is not added again.
pub fn insert_sorted(v: &mut Vec<LogLine>, x: LogLine)
    requires
        sorted_strict(old(v)@),
        all_wf(old(v)@),
        x@.wf(),
    ensures
        sorted_strict(final(v)@),
        all_wf(final(v)@),
        forall|y: LogLineView| line_in(final(v)@, y) <==> line_in(old(v)@, y) || y == x@,
{
    let ghost s0 = v@;
    let mut p: usize = 0;
    while p < v.len() && v[p].lt(&x)
        invariant
            p <= v@.len(),
            v@ == s0,
            forall|k: int| 0 <= k < p ==> line_lt(s0[k]@, x@),
        decreases v@.len() - p,
    {
        p = p + 1;
    }
    if p < v.len() && !x.lt(&v[p]) {
        // neither precedes the other: the same record is already present
        proof {
            lemma_line_order(s0[p as int]@, x@, x@);
            assert(line_key_eq(s0[p as int]@, x@));
            assert(s0[p as int]@ == x@);
            assert forall|y: LogLineView| line_in(v@, y) <==> line_in(s0, y) || y == x@ by {
                if y == x@ {
                    assert(s0[p as int]@ == y);
                }
            }
        }
        return ;
    }
    proof {
        if p < s0.len() {
            assert(line_lt(x@, s0[p as int]@));
        }
    }
    v.insert(p, x);
    proof {
        let s1 = v@;
        assert(s1 == s0.insert(p as int, x));
        assert forall|i: int, j: int| 0 <= i < j < s1.len() implies line_lt(s1[i]@, s1[j]@) by {
            s0.insert_ensures(p as int, x);
            if i == p && j > p + 1 {
                lemma_line_order(x@, s0[p as int]@, s0[j - 1]@);
            }
        }
        assert forall|y: LogLineView| line_in(s1, y) <==> line_in(s0, y) || y == x@ by {
            s0.insert_ensures(p as int, x);
            if line_in(s1, y) {
                let i = choose|i: int| 0 <= i < s1.len() && s1[i]@ == y;
                if i < p {
                    assert(s0[i]@ == y);
                } else if i > p {
                    assert(s0[i - 1]@ == y);
                }
            }
            if line_in(s0, y) {
                let i = choose|i: int| 0 <= i < s0.len() && s0[i]@ == y;
                if i < p {
                    assert(s1[i]@ == y);
                } else {
                    assert(s1[i + 1]@ == y);
                }
            }
            if y == x@ {
                assert(s1[p as int]@ == y);
            }
        }
    }
}

/// One tracked log file.
pub struct LogFile {
    /// The file's path.
    pub name: String,
    /// The byte offset up to which the file has been consumed.
    pub position: u64,
}

impl LogFile {
    /// A cursor at the start of the named file.
    pub fn new(name: String) -> (r: Self)
        ensures
            r.name == name,
            r.position == 0,
    {
        LogFile { name, position: 0 }
    }

    /// Moves the cursor to the observed end of the file without reading.
    pub fn jump_to_end(&mut self, file_length: u64)
        ensures
            final(self).position == file_length,
            final(self).name == old(self).name,
    {
        self.position = file_length;
    }

    /// The batch pass over this file: parses every given line (lines that do
    /// not parse are skipped, never fatal), keeps those passing the filters,
    /// and returns them as an ordered set; the cursor advances to the
    /// observed file length.
    pub fn extract_loglines(
        &mut self,
        lines: &Vec<String>,
        file_length: u64,
        log_settings: &LogFilterSettings,
    ) -> (r: Vec<LogLine>)
        ensures
            final(self).position == file_length,
            final(self).name == old(self).name,
            sorted_strict(r@),
            all_wf(r@),
            forall|x: LogLineView| line_in(r@, x) <==> extracted(lines@, log_settings, x),
    {
        let mut out: Vec<LogLine> = Vec::new();
        let mut i: usize = 0;
        while i < lines.len()
            invariant
                i <= lines@.len(),
                sorted_strict(out@),
                all_wf(out@),
                forall|x: LogLineView|
                    line_in(out@, x) <==> extracted(lines@.take(i as int), log_settings, x),
            decreases lines@.len() - i,
        {
            let ghost prev = out@;
            match LogLine::new(lines[i].clone()) {
                Ok(ll) => {
                    if ll.is_between(&log_settings.since, &log_settings.until) && ll.is_match(
                        &log_settings.re,
                    ) && ll.has_priority(&log_settings.min_priority, &log_settings.max_priority) {
                        let ghost lv = ll@;
                        insert_sorted(&mut out, ll);
                        proof {
                            assert(spec_parse_line(lines@[i as int]@) == Some(lv));
                        }
                    }
                },
                Err(_) => {},
            }
            i = i + 1;
            proof {
                let taken = lines@.take(i as int);
                assert(taken.drop_last() =~= lines@.take(i - 1));
                assert(taken[i - 1] == lines@[i - 1]);
                assert forall|x: LogLineView|
                    line_in(out@, x) <==> extracted(taken, log_settings, x) by {
                    if extracted(taken, log_settings, x) {
                        let k = choose|k: int|
                            0 <= k < taken.len() && #[trigger] spec_parse_line(taken[k]@) == Some(
                                x,
                            );
                        if k < i - 1 {
                            assert(spec_parse_line(lines@.take(i - 1)[k]@) == Some(x));
                        }
                    }
                    if extracted(lines@.take(i - 1), log_settings, x) {
                        let k = choose|k: int|
                            0 <= k < i - 1 && #[trigger] spec_parse_line(
                                lines@.take(i - 1)[k]@,
                            ) == Some(x);
                        assert(spec_parse_line(taken[k]@) == Some(x));
                    }
                }
            }
        }
        proof {
            assert(lines@.take(lines@.len() as int) =~= lines@);
        }
        self.position = file_length;
        out
    }
}

} // verus!
