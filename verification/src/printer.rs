//! The engine: merges the filtered histories of many files into one
//! chronologically ordered stream (batch mode), and drives the sequential
//! event-driven cursor machine of follow mode, with its bounded recency cache
//! suppressing duplicate re-emission under at-least-once file notifications.

use vstd::prelude::*;

use crate::cache::Cache;
use crate::cache::spec_cache_push;
use crate::error::SvLogError;
use crate::logfile::LogFile;
use crate::logfile::all_wf;
use crate::logfile::extracted;
use crate::logfile::line_in;
use crate::logfile::sorted_strict;
use crate::logline::LogLine;
use crate::logline::LogLineView;
use crate::logline::lemma_line_order;
use crate::logline::line_key_eq;
use crate::logline::line_lt;
use crate::logline::spec_is_match;
use crate::logline::spec_parse_line;
use crate::logline::spec_render;
use crate::logline::zone_view;
use crate::settings::LogFilterSettings;
use crate::text::str_eq;
use crate::text::views_of;

verus! {

/// How much of the historical stream to show: everything, nothing (skip
/// straight to the live end of every file), or only the last so many records.
pub enum LineLimit {
    All,
    SkipToEnd,
    Last(usize),
}

/// A sorted set stays sorted when an element above its last is appended.
proof fn lemma_sorted_push(s: Seq<LogLine>, x: LogLine)
    requires
        sorted_strict(s),
        s.len() > 0 ==> line_lt(s.last()@, x@),
    ensures
        sorted_strict(s.push(x)),
{
    let t = s.push(x);
    assert forall|i: int, j: int| 0 <= i < j < t.len() implies line_lt(t[i]@, t[j]@) by {
        if j == s.len() && i < s.len() - 1 {
            lemma_line_order(s[i]@, s[s.len() - 1]@, x@);
        }
    }
}

/// Membership in a pushed sequence.
proof fn lemma_line_in_push(s: Seq<LogLine>, x: LogLine, y: LogLineView)
    ensures
        line_in(s.push(x), y) <==> (line_in(s, y) || x@ == y),
{
    let t = s.push(x);
    if line_in(t, y) {
        let k = choose|k: int| 0 <= k < t.len() && (#[trigger] t[k])@ == y;
        if k < s.len() {
            assert(s[k]@ == y);
        }
    }
    if line_in(s, y) {
        let k = choose|k: int| 0 <= k < s.len() && (#[trigger] s[k])@ == y;
        assert(t[k]@ == y);
    }
    if x@ == y {
        assert(t[s.len() as int]@ == y);
    }
}

/// Membership in one more taken element.
proof fn lemma_line_in_take_step(s: Seq<LogLine>, i: int, y: LogLineView)
    requires
        0 <= i < s.len(),
    ensures
        line_in(s.take(i + 1), y) <==> (line_in(s.take(i), y) || s[i]@ == y),
{
    if line_in(s.take(i + 1), y) {
        let k = choose|k: int| 0 <= k < i + 1 && (#[trigger] s.take(i + 1)[k])@ == y;
        if k < i {
            assert(s.take(i)[k]@ == y);
        }
    }
    if line_in(s.take(i), y) {
        let k = choose|k: int| 0 <= k < i && (#[trigger] s.take(i)[k])@ == y;
        assert(s.take(i + 1)[k]@ == y);
    }
    if s[i]@ == y {
        assert(s.take(i + 1)[i]@ == y);
    }
}

/// The merged stream is determined: two strictly sorted record sets holding
/// the same records are the same stream, record for record. Together with the
/// membership clauses of `extract_loglines` and `merge_lines`, this pins the
/// batch output down completely.
pub proof fn lemma_stream_unique(a: Seq<LogLine>, b: Seq<LogLine>)
    requires
        sorted_strict(a),
        sorted_strict(b),
        forall|x: LogLineView| line_in(a, x) <==> line_in(b, x),
    ensures
        a.len() == b.len(),
        forall|k: int| 0 <= k < a.len() ==> a[k]@ == b[k]@,
    decreases a.len(),
{
    if a.len() == 0 {
        if b.len() > 0 {
            assert(line_in(b, b[0]@));
            assert(false);
        }
    } else if b.len() == 0 {
        assert(line_in(a, a[0]@));
        assert(false);
    } else {
        assert(line_in(a, a[0]@));
        assert(line_in(b, b[0]@));
        if a[0]@ != b[0]@ {
            let j = choose|j: int| 0 <= j < b.len() && (#[trigger] b[j])@ == a[0]@;
            let i = choose|i: int| 0 <= i < a.len() && (#[trigger] a[i])@ == b[0]@;
            assert(i > 0 && j > 0);
            assert(line_lt(b[0]@, b[j]@));
            assert(line_lt(a[0]@, a[i]@));
            lemma_line_order(a[0]@, b[0]@, b[0]@);
            assert(false);
        }
        let a1 = a.drop_first();
        let b1 = b.drop_first();
        assert forall|x: LogLineView| line_in(a1, x) implies line_in(b1, x) by {
            let k = choose|k: int| 0 <= k < a1.len() && (#[trigger] a1[k])@ == x;
            assert(a[k + 1]@ == x);
            assert(line_in(a, x));
            let j = choose|j: int| 0 <= j < b.len() && (#[trigger] b[j])@ == x;
            if j == 0 {
                assert(line_lt(a[0]@, a[k + 1]@));
                lemma_line_order(a[0]@, a[k + 1]@, a[k + 1]@);
                assert(false);
            }
            assert(b1[j - 1]@ == x);
        }
        assert forall|x: LogLineView| line_in(b1, x) implies line_in(a1, x) by {
            let k = choose|k: int| 0 <= k < b1.len() && (#[trigger] b1[k])@ == x;
            assert(b[k + 1]@ == x);
            assert(line_in(b, x));
            let j = choose|j: int| 0 <= j < a.len() && (#[trigger] a[j])@ == x;
            if j == 0 {
                assert(line_lt(b[0]@, b[k + 1]@));
                lemma_line_order(b[0]@, b[k + 1]@, b[k + 1]@);
                assert(false);
            }
            assert(a1[j - 1]@ == x);
        }
        lemma_stream_unique(a1, b1);
        assert forall|k: int| 0 <= k < a.len() implies a[k]@ == b[k]@ by {
            if k > 0 {
                assert(a1[k - 1]@ == b1[k - 1]@);
            }
        }
    }
}

/// Merges two strictly sorted record sets into their strictly sorted union.
/// A record present in both (the same record read from two overlapping file
/// spans) appears once.
pub fn merge_lines(a: Vec<LogLine>, b: Vec<LogLine>) -> (r: Vec<LogLine>)
    requires
        sorted_strict(a@),
        sorted_strict(b@),
        all_wf(a@),
        all_wf(b@),
    ensures
        sorted_strict(r@),
        all_wf(r@),
        forall|x: LogLineView| line_in(r@, x) <==> line_in(a@, x) || line_in(b@, x),
{
    let mut r: Vec<LogLine> = Vec::new();
    let mut i: usize = 0;
    let mut j: usize = 0;
    while i < a.len() || j < b.len()
        invariant
            i <= a@.len(),
            j <= b@.len(),
            sorted_strict(a@),
            sorted_strict(b@),
            all_wf(a@),
            all_wf(b@),
            sorted_strict(r@),
            all_wf(r@),
            forall|x: LogLineView|
                line_in(r@, x) <==> line_in(a@.take(i as int), x) || line_in(b@.take(j as int), x),
            r@.len() > 0 && i < a@.len() ==> line_lt(r@.last()@, a@[i as int]@),
            r@.len() > 0 && j < b@.len() ==> line_lt(r@.last()@, b@[j as int]@),
        decreases a@.len() - i + b@.len() - j,
    {
        let ghost prev = r@;
        if i < a.len() && (j >= b.len() || a[i].lt(&b[j])) {
            let x = a[i].duplicate();
            proof {
                lemma_sorted_push(prev, x);
                assert forall|y: LogLineView|
                    line_in(prev.push(x), y) <==> (line_in(a@.take(i + 1), y) || line_in(
                        b@.take(j as int),
                        y,
                    )) by {
                    lemma_line_in_push(prev, x, y);
                    lemma_line_in_take_step(a@, i as int, y);
                }
            }
            r.push(x);
            i = i + 1;
        } else if j < b.len() && (i >= a.len() || b[j].lt(&a[i])) {
            let x = b[j].duplicate();
            proof {
                lemma_sorted_push(prev, x);
                assert forall|y: LogLineView|
                    line_in(prev.push(x), y) <==> (line_in(a@.take(i as int), y) || line_in(
                        b@.take(j + 1),
                        y,
                    )) by {
                    lemma_line_in_push(prev, x, y);
                    lemma_line_in_take_step(b@, j as int, y);
                }
            }
            r.push(x);
            j = j + 1;
        } else {
            // both next records exist and neither precedes the other: they
            // are the same record; keep one, advance past both
            proof {
                lemma_line_order(a@[i as int]@, b@[j as int]@, b@[j as int]@);
                assert(line_key_eq(a@[i as int]@, b@[j as int]@));
                assert(a@[i as int]@ == b@[j as int]@);
            }
            let x = a[i].duplicate();
            proof {
                lemma_sorted_push(prev, x);
                if j + 1 < b@.len() {
                    assert(line_lt(b@[j as int]@, b@[j + 1]@));
                }
                assert forall|y: LogLineView|
                    line_in(prev.push(x), y) <==> (line_in(a@.take(i + 1), y) || line_in(
                        b@.take(j + 1),
                        y,
                    )) by {
                    lemma_line_in_push(prev, x, y);
                    lemma_line_in_take_step(a@, i as int, y);
                    lemma_line_in_take_step(b@, j as int, y);
                }
            }
            r.push(x);
            i = i + 1;
            j = j + 1;
        }
    }
    proof {
        assert(a@.take(a@.len() as int) =~= a@);
        assert(b@.take(b@.len() as int) =~= b@);
    }
    r
}

/// Keeps the part of the ordered stream the limit asks for: everything, none
/// of it, or exactly its last `n` records (all of them when fewer exist).
pub fn apply_line_limit(v: Vec<LogLine>, limit: &LineLimit) -> (r: Vec<LogLine>)
    ensures
        r@ == limited_of(v@, *limit),
{
    match limit {
        LineLimit::All => v,
        LineLimit::SkipToEnd => Vec::new(),
        LineLimit::Last(n) => {
            if *n >= v.len() {
                v
            } else {
                let start = v.len() - *n;
                let mut out: Vec<LogLine> = Vec::new();
                let mut k = start;
                while k < v.len()
                    invariant
                        start <= k <= v@.len(),
                        start == v@.len() - *n,
                        out@ == v@.subrange(start as int, k as int),
                    decreases v@.len() - k,
                {
                    out.push(v[k].duplicate());
                    k = k + 1;
                    proof {
                        assert(out@ =~= v@.subrange(start as int, k as int));
                    }
                }
                proof {
                    assert(v@.subrange(start as int, v@.len() as int) =~= v@.skip(start as int));
                }
                out
            }
        },
    }
}

/// What a limit keeps of the full ordered stream.
pub open spec fn limited_of(full: Seq<LogLine>, limit: LineLimit) -> Seq<LogLine> {
    match limit {
        LineLimit::All => full,
        LineLimit::SkipToEnd => Seq::empty(),
        LineLimit::Last(n) => if n >= full.len() {
            full
        } else {
            full.skip(full.len() - n as int)
        },
    }
}

/// Whether `x` is extracted from some file's lines under the settings.
pub open spec fn in_any(
    contents: Seq<(Vec<String>, u64)>,
    s: &LogFilterSettings,
    x: LogLineView,
) -> bool {
    exists|f: int| 0 <= f < contents.len() && extracted(#[trigger] contents[f].0@, s, x)
}

/// Whether `full` is the one ordered stream that batch retrieval over
/// `contents` yields: strictly sorted, internally consistent, and holding
/// exactly the passing records of all the files.
pub open spec fn is_full_stream(
    contents: Seq<(Vec<String>, u64)>,
    s: &LogFilterSettings,
    full: Seq<LogLine>,
) -> bool {
    &&& sorted_strict(full)
    &&& all_wf(full)
    &&& forall|x: LogLineView| #[trigger] line_in(full, x) <==> in_any(contents, s, x)
}

/// Whether a record passes the follow-mode filters: the content pattern and
/// the priority window. The time window is deliberately not reapplied: every
/// newly observed line is, by definition, "now".
pub open spec fn follow_passes(v: LogLineView, s: &LogFilterSettings) -> bool {
    &&& spec_is_match(s.re, v.content)
    &&& s.min_priority@ <= v.priority <= s.max_priority@
}

/// The follow-mode step over a batch of newly read raw lines: each line is
/// recorded in the recency cache; a line seen recently is suppressed; a fresh
/// one is parsed (silently skipped when it does not parse), filtered, and
/// rendered. A line whose rendering fails in the zone is skipped like an
/// unparsable one: a long-running tail should survive it. Yields the cache
/// contents after the batch and the rendered lines to emit, in order.
pub open spec fn spec_follow(
    cache: Seq<String>,
    lines: Seq<String>,
    s: &LogFilterSettings,
    cap: nat,
) -> (Seq<String>, Seq<Seq<char>>)
    decreases lines.len(),
{
    if lines.len() == 0 {
        (cache, Seq::empty())
    } else {
        let step = spec_cache_push(cache, lines[0], cap);
        let emitted: Seq<Seq<char>> = if step.1 {
            match spec_parse_line(lines[0]@) {
                Some(v) => if follow_passes(v, s) {
                    match spec_render(v, zone_view(s.tz)) {
                        Some(t) => seq![t],
                        None => Seq::empty(),
                    }
                } else {
                    Seq::empty()
                },
                None => Seq::empty(),
            }
        } else {
            Seq::empty()
        };
        let rest = spec_follow(step.0, lines.drop_first(), s, cap);
        (rest.0, emitted + rest.1)
    }
}

/// The engine: the tracked files, the follow-mode recency cache, and the
/// filter settings.
pub struct LogPrinter {
    /// The root log directory the files live under.
    pub log_dir: String,
    /// The tracked files, each with its read cursor.
    pub log_files: Vec<LogFile>,
    /// The bounded recency cache of follow mode.
    pub cache: Cache<String>,
    /// The filter settings, immutable once built.
    pub log_settings: LogFilterSettings,
}

impl LogPrinter {
    /// The recency cache's contents, most recent first.
    pub open spec fn cache_model(&self) -> Seq<String> {
        self.cache.model()
    }

    /// The recency cache's capacity.
    pub open spec fn cache_capacity(&self) -> nat {
        self.cache.capacity()
    }

    /// The cache never outgrows its capacity.
    pub open spec fn wf(&self) -> bool {
        self.cache_model().len() <= self.cache_capacity()
    }

    /// An engine over the given files and settings, with an empty recency
    /// cache of the observed fixed capacity.
    pub fn new(log_dir: String, log_files: Vec<LogFile>, log_settings: LogFilterSettings) -> (r:
        LogPrinter)
        ensures
            r.log_dir == log_dir,
            r.log_files == log_files,
            r.log_settings == log_settings,
            r.cache_model() == Seq::<String>::empty(),
            r.cache_capacity() == 20,
            r.wf(),
    {
        let cache: Cache<String> = Cache::new(20);
        LogPrinter { log_dir, log_files, cache, log_settings }
    }

    /// Moves every cursor to its file's observed end without reading.
    pub fn jump_to_end(&mut self, lengths: &Vec<u64>)
        requires
            lengths@.len() == old(self).log_files@.len(),
        ensures
            final(self).log_files@.len() == old(self).log_files@.len(),
            forall|k: int|
                0 <= k < final(self).log_files@.len() ==> (#[trigger] final(self).log_files@[k]).position == lengths@[k] && final(self).log_files@[k].name == old(self).log_files@[k].name,
            final(self).cache == old(self).cache,
            final(self).log_settings == old(self).log_settings,
            final(self).log_dir == old(self).log_dir,
    {
        let mut k: usize = 0;
        while k < self.log_files.len()
            invariant
                k <= self.log_files@.len(),
                self.log_files@.len() == old(self).log_files@.len(),
                lengths@.len() == old(self).log_files@.len(),
                forall|m: int|
                    0 <= m < k ==> (#[trigger] self.log_files@[m]).position == lengths@[m]
                        && self.log_files@[m].name == old(self).log_files@[m].name,
                forall|m: int|
                    k <= m < self.log_files@.len() ==> self.log_files@[m] == old(self).log_files@[m],
                self.cache == old(self).cache,
                self.log_settings == old(self).log_settings,
                self.log_dir == old(self).log_dir,
            decreases self.log_files@.len() - k,
        {
            self.log_files[k].position = lengths[k];
            k = k + 1;
        }
    }

    /// Batch retrieval: every file's filtered, ordered records, merged into
    /// one strictly ordered stream; every cursor advances to its file's
    /// observed length. The file contents are supplied as (lines, length)
    /// pairs, one per tracked file.
    pub fn retrieve_log_lines(&mut self, contents: &Vec<(Vec<String>, u64)>) -> (r: Vec<LogLine>)
        requires
            contents@.len() == old(self).log_files@.len(),
        ensures
            final(self).log_files@.len() == old(self).log_files@.len(),
            forall|k: int|
                0 <= k < final(self).log_files@.len() ==> (#[trigger] final(self).log_files@[k]).position == contents@[k].1 && final(self).log_files@[k].name
                    == old(self).log_files@[k].name,
            final(self).cache == old(self).cache,
            final(self).log_settings == old(self).log_settings,
            final(self).log_dir == old(self).log_dir,
            sorted_strict(r@),
            all_wf(r@),
            forall|x: LogLineView|
                line_in(r@, x) <==> in_any(contents@, &final(self).log_settings, x),
    {
        let mut acc: Vec<LogLine> = Vec::new();
        let mut f: usize = 0;
        while f < self.log_files.len()
            invariant
                f <= self.log_files@.len(),
                self.log_files@.len() == old(self).log_files@.len(),
                contents@.len() == old(self).log_files@.len(),
                forall|m: int|
                    0 <= m < f ==> (#[trigger] self.log_files@[m]).position == contents@[m].1
                        && self.log_files@[m].name == old(self).log_files@[m].name,
                forall|m: int|
                    f <= m < self.log_files@.len() ==> self.log_files@[m] == old(self).log_files@[m],
                self.cache == old(self).cache,
                self.log_settings == old(self).log_settings,
                self.log_dir == old(self).log_dir,
                sorted_strict(acc@),
                all_wf(acc@),
                forall|x: LogLineView|
                    line_in(acc@, x) <==> in_any(contents@.take(f as int), &self.log_settings, x),
            decreases self.log_files@.len() - f,
        {
            let file_out = self.log_files[f].extract_loglines(
                &contents[f].0,
                contents[f].1,
                &self.log_settings,
            );
            let ghost acc_prev = acc@;
            acc = merge_lines(acc, file_out);
            f = f + 1;
            proof {
                assert forall|x: LogLineView|
                    line_in(acc@, x) <==> in_any(
                        contents@.take(f as int),
                        &self.log_settings,
                        x,
                    ) by {
                    if line_in(acc@, x) {
                        if line_in(acc_prev, x) {
                            let g = choose|g: int|
                                0 <= g < f - 1 && extracted(
                                    #[trigger] contents@.take(f - 1)[g].0@,
                                    &self.log_settings,
                                    x,
                                );
                            assert(extracted(contents@.take(f as int)[g].0@, &self.log_settings, x));
                        } else {
                            assert(extracted(contents@.take(f as int)[f - 1].0@, &self.log_settings, x));
                        }
                    }
                    if in_any(contents@.take(f as int), &self.log_settings, x) {
                        let g = choose|g: int|
                            0 <= g < f && extracted(
                                #[trigger] contents@.take(f as int)[g].0@,
                                &self.log_settings,
                                x,
                            );
                        if g < f - 1 {
                            assert(extracted(contents@.take(f - 1)[g].0@, &self.log_settings, x));
                        } else {
                            assert(extracted(contents@[f - 1].0@, &self.log_settings, x));
                        }
                    }
                }
            }
        }
        proof {
            assert(contents@.take(contents@.len() as int) =~= contents@);
        }
        acc
    }

    /// Renders every record of the ordered stream with the configured zone.
    /// Fails exactly when some record does not render in it.
    pub fn render_lines(&self, lines: &Vec<LogLine>) -> (r: Result<Vec<String>, SvLogError>)
        requires
            all_wf(lines@),
        ensures
            r matches Ok(out) ==> {
                &&& out@.len() == lines@.len()
                &&& forall|k: int|
                    0 <= k < lines@.len() ==> spec_render(
                        lines@[k]@,
                        zone_view(self.log_settings.tz),
                    ) == Some(#[trigger] out@[k]@)
            },
            r is Ok <==> (forall|k: int|
                0 <= k < lines@.len() ==> (#[trigger] spec_render(
                    lines@[k]@,
                    zone_view(self.log_settings.tz),
                )) is Some),
            r matches Err(e) ==> e matches SvLogError::TimeZoneError { .. },
    {
        let mut out: Vec<String> = Vec::new();
        let mut k: usize = 0;
        while k < lines.len()
            invariant
                k <= lines@.len(),
                all_wf(lines@),
                out@.len() == k,
                forall|m: int|
                    0 <= m < k ==> spec_render(lines@[m]@, zone_view(self.log_settings.tz)) == Some(
                        #[trigger] out@[m]@,
                    ),
            decreases lines@.len() - k,
        {
            match lines[k].format_with_tz(&self.log_settings.tz) {
                Ok(s) => {
                    out.push(s);
                },
                Err(e) => {
                    proof {
                        assert(!((#[trigger] spec_render(
                            lines@[k as int]@,
                            zone_view(self.log_settings.tz),
                        )) is Some));
                    }
                    return Err(e);
                },
            }
            k = k + 1;
        }
        proof {
            assert forall|m: int| 0 <= m < lines@.len() implies (#[trigger] spec_render(
                lines@[m]@,
                zone_view(self.log_settings.tz),
            )) is Some by {
                assert(spec_render(lines@[m]@, zone_view(self.log_settings.tz)) == Some(out@[m]@));
            }
        }
        Ok(out)
    }

    /// The whole batch pass: with `SkipToEnd` every cursor jumps to its
    /// file's end and nothing is printed; otherwise the files' filtered
    /// records are merged, the limit keeps the asked-for tail, and the
    /// survivors are rendered in ascending record order.
    pub fn print_logs(&mut self, contents: &Vec<(Vec<String>, u64)>, limit: &LineLimit) -> (r:
        Result<Vec<String>, SvLogError>)
        requires
            contents@.len() == old(self).log_files@.len(),
        ensures
            final(self).log_files@.len() == old(self).log_files@.len(),
            forall|k: int|
                0 <= k < final(self).log_files@.len() ==> (#[trigger] final(self).log_files@[k]).position == contents@[k].1 && final(self).log_files@[k].name
                    == old(self).log_files@[k].name,
            final(self).cache == old(self).cache,
            final(self).log_settings == old(self).log_settings,
            final(self).log_dir == old(self).log_dir,
            limit is SkipToEnd ==> (r matches Ok(out) && out@ == Seq::<String>::empty()),
            r is Ok <==> (limit is SkipToEnd || (forall|full: Seq<LogLine>|
                #[trigger] is_full_stream(contents@, &final(self).log_settings, full) ==> (
                forall|k: int|
                    0 <= k < limited_of(full, *limit).len() ==> (#[trigger] spec_render(
                        limited_of(full, *limit)[k]@,
                        zone_view(final(self).log_settings.tz),
                    )) is Some))),
            r matches Ok(out) ==> (limit is SkipToEnd || exists|full: Seq<LogLine>|
                {
                    &&& #[trigger] is_full_stream(contents@, &final(self).log_settings, full)
                    &&& out@.len() == limited_of(full, *limit).len()
                    &&& forall|k: int|
                        0 <= k < out@.len() ==> spec_render(
                            limited_of(full, *limit)[k]@,
                            zone_view(final(self).log_settings.tz),
                        ) == Some(#[trigger] out@[k]@)
                }),
            r matches Err(e) ==> e matches SvLogError::TimeZoneError { .. },
    {
        if let LineLimit::SkipToEnd = limit {
            let mut lengths: Vec<u64> = Vec::new();
            let mut k: usize = 0;
            while k < contents.len()
                invariant
                    k <= contents@.len(),
                    lengths@.len() == k,
                    forall|m: int| 0 <= m < k ==> lengths@[m] == contents@[m].1,
                decreases contents@.len() - k,
            {
                lengths.push(contents[k].1);
                k = k + 1;
            }
            self.jump_to_end(&lengths);
            let out: Vec<String> = Vec::new();
            return Ok(out);
        }
        let full = self.retrieve_log_lines(contents);
        let ghost full_seq = full@;
        let limited = apply_line_limit(full, limit);
        match self.render_lines(&limited) {
            Ok(out) => {
                proof {
                    assert(is_full_stream(contents@, &self.log_settings, full_seq));
                    assert(limited@ == limited_of(full_seq, *limit));
                    assert(all_wf(limited@)) by {
                        assert forall|k: int|
                            0 <= k < limited@.len() implies (#[trigger] limited@[k]@).wf() by {
                            match *limit {
                                LineLimit::Last(n) => {
                                    if n < full_seq.len() {
                                        assert(limited@[k] == full_seq[k + full_seq.len() - n]);
                                    }
                                },
                                _ => {},
                            }
                        }
                    }
                    // every full stream is the retrieved one record for
                    // record, so its limited records render as well
                    assert forall|full: Seq<LogLine>|
                        #[trigger] is_full_stream(
                            contents@,
                            &self.log_settings,
                            full,
                        ) implies (forall|k: int|
                        0 <= k < limited_of(full, *limit).len() ==> (#[trigger] spec_render(
                            limited_of(full, *limit)[k]@,
                            zone_view(self.log_settings.tz),
                        )) is Some) by {
                        assert forall|x: LogLineView| line_in(full_seq, x) <==> line_in(
                            full,
                            x,
                        ) by {}
                        lemma_stream_unique(full_seq, full);
                        assert forall|k: int|
                            0 <= k < limited_of(full, *limit).len() implies (
                        #[trigger] spec_render(
                            limited_of(full, *limit)[k]@,
                            zone_view(self.log_settings.tz),
                        )) is Some by {
                            match *limit {
                                LineLimit::Last(n) => {
                                    if n < full.len() {
                                        assert(limited_of(full, *limit)[k] == full[k + full.len()
                                            - n]);
                                        assert(limited@[k] == full_seq[k + full_seq.len() - n]);
                                    }
                                },
                                _ => {},
                            }
                            assert(limited_of(full, *limit)[k]@ == limited@[k]@);
                            assert(spec_render(limited@[k]@, zone_view(self.log_settings.tz))
                                is Some);
                        }
                    }
                }
                Ok(out)
            },
            Err(e) => {
                proof {
                    // the retrieved stream itself witnesses the failure: one
                    // of its limited records does not render in the zone
                    assert(is_full_stream(contents@, &self.log_settings, full_seq));
                    assert(limited@ == limited_of(full_seq, *limit));
                    assert(!(forall|k: int|
                        0 <= k < limited@.len() ==> (#[trigger] spec_render(
                            limited@[k]@,
                            zone_view(self.log_settings.tz),
                        )) is Some));
                }
                Err(e)
            },
        }
    }

    /// The tracked file whose path is exactly `path`, if any: the explicit
    /// "resolve an event path to a cursor" lookup of follow mode; an unknown
    /// path is a first-class "not found" outcome to be ignored.
    pub fn find_log_file(&self, path: &str) -> (r: Option<usize>)
        ensures
            match r {
                Some(i) => i < self.log_files@.len() && self.log_files@[i as int].name@ == path@
                    && forall|k: int| 0 <= k < i ==> self.log_files@[k].name@ != path@,
                None => forall|k: int|
                    0 <= k < self.log_files@.len() ==> self.log_files@[k].name@ != path@,
            },
    {
        let mut i: usize = 0;
        while i < self.log_files.len()
            invariant
                i <= self.log_files@.len(),
                forall|k: int| 0 <= k < i ==> self.log_files@[k].name@ != path@,
            decreases self.log_files@.len() - i,
        {
            if str_eq(self.log_files[i].name.as_str(), path) {
                return Some(i);
            }
            i = i + 1;
        }
        None
    }

    /// Decides where the next incremental read of a tracked file starts,
    /// given the file's currently observed length. A file that has shrunk
    /// below the cursor was truncated or rotated: the cursor resets to zero
    /// for a full re-read instead of seeking to a now-invalid offset.
    pub fn plan_read(&mut self, index: usize, observed_len: u64) -> (start: u64)
        requires
            index < old(self).log_files@.len(),
        ensures
            start == if observed_len < old(self).log_files@[index as int].position {
                0u64
            } else {
                old(self).log_files@[index as int].position
            },
            final(self).log_files@ == old(self).log_files@.update(
                index as int,
                LogFile { position: start, ..old(self).log_files@[index as int] },
            ),
            final(self).cache == old(self).cache,
            final(self).log_settings == old(self).log_settings,
            final(self).log_dir == old(self).log_dir,
    {
        if observed_len < self.log_files[index].position {
            self.log_files[index].position = 0;
        }
        let ghost updated = old(self).log_files@.update(
            index as int,
            LogFile {
                position: if observed_len < old(self).log_files@[index as int].position {
                    0u64
                } else {
                    old(self).log_files@[index as int].position
                },
                ..old(self).log_files@[index as int]
            },
        );
        proof {
            assert(self.log_files@ =~= updated);
        }
        self.log_files[index].position
    }

    /// Follow-mode processing of the lines newly read from one tracked file:
    /// each raw line passes through the recency cache; fresh lines are
    /// parsed (unparsable ones skipped), filtered by pattern and priority —
    /// never by the time window — and rendered for immediate emission. A
    /// line whose rendering fails in the zone is skipped rather than ending
    /// the session. The file's cursor advances to the length observed at the
    /// start of the step.
    pub fn process_new_lines(&mut self, index: usize, lines: &Vec<String>, observed_len: u64) -> (r:
        Vec<String>)
        requires
            index < old(self).log_files@.len(),
            old(self).wf(),
        ensures
            final(self).wf(),
            final(self).cache_capacity() == old(self).cache_capacity(),
            final(self).cache_model() == spec_follow(
                old(self).cache_model(),
                lines@,
                &old(self).log_settings,
                old(self).cache_capacity(),
            ).0,
            views_of(r@) == spec_follow(
                old(self).cache_model(),
                lines@,
                &old(self).log_settings,
                old(self).cache_capacity(),
            ).1,
            final(self).log_files@ == old(self).log_files@.update(
                index as int,
                LogFile { position: observed_len, ..old(self).log_files@[index as int] },
            ),
            final(self).log_settings == old(self).log_settings,
            final(self).log_dir == old(self).log_dir,
    {
        let ghost total = spec_follow(
            old(self).cache_model(),
            lines@,
            &old(self).log_settings,
            old(self).cache_capacity(),
        );
        let mut out: Vec<String> = Vec::new();
        proof {
            assert(lines@.skip(0) =~= lines@);
            assert(views_of(out@) + total.1 =~= total.1);
        }
        let mut i: usize = 0;
        while i < lines.len()
            invariant
                i <= lines@.len(),
                self.wf(),
                self.cache_capacity() == old(self).cache_capacity(),
                self.log_files@ == old(self).log_files@,
                self.log_settings == old(self).log_settings,
                self.log_dir == old(self).log_dir,
                total == spec_follow(
                    old(self).cache_model(),
                    lines@,
                    &old(self).log_settings,
                    old(self).cache_capacity(),
                ),
                total.0 == spec_follow(
                    self.cache_model(),
                    lines@.skip(i as int),
                    &self.log_settings,
                    self.cache_capacity(),
                ).0,
                total.1 == views_of(out@) + spec_follow(
                    self.cache_model(),
                    lines@.skip(i as int),
                    &self.log_settings,
                    self.cache_capacity(),
                ).1,
            decreases lines@.len() - i,
        {
            let ghost rem = lines@.skip(i as int);
            let ghost cache0 = self.cache_model();
            proof {
                assert(rem[0] == lines@[i as int]);
                assert(rem.drop_first() =~= lines@.skip(i + 1));
            }
            let line = lines[i].clone();
            let fresh = self.cache.push(line);
            if fresh {
                match LogLine::new(lines[i].clone()) {
                    Ok(ll) => {
                        if ll.is_match(&self.log_settings.re) && ll.has_priority(
                            &self.log_settings.min_priority,
                            &self.log_settings.max_priority,
                        ) {
                            match ll.format_with_tz(&self.log_settings.tz) {
                                Ok(t) => {
                                    let ghost out_prev = out@;
                                    out.push(t);
                                    proof {
                                        assert(views_of(out@) =~= views_of(out_prev).push(
                                            out@.last()@,
                                        ));
                                    }
                                },
                                Err(_) => {},
                            }
                        }
                    },
                    Err(_) => {},
                }
            }
            i = i + 1;
            proof {
                assert(views_of(out@) + spec_follow(
                    self.cache_model(),
                    lines@.skip(i as int),
                    &self.log_settings,
                    self.cache_capacity(),
                ).1 =~= total.1);
            }
        }
        proof {
            assert(lines@.skip(lines@.len() as int) =~= Seq::<String>::empty());
        }
        self.log_files[index].position = observed_len;
        proof {
            assert(self.log_files@ =~= old(self).log_files@.update(
                index as int,
                LogFile { position: observed_len, ..old(self).log_files@[index as int] },
            ));
        }
        out
    }
}

} // verus!
