//! The record model: one parsed log line, totally ordered and filterable.
//!
//! A line is a 25-character timestamp prefix, one separator character, and
//! free-form content; the content's leading token may carry a severity
//! (`facility.severity[:]`). Ordering is lexicographic over (instant, raw
//! timestamp text, content), the sort key of the merged output stream.

use vstd::prelude::*;
use vstd::string::StrSliceExecFns;
use vstd::string::StringExecFns;

use crate::error::SvLogError;
use crate::pattern::Pattern;
use crate::pattern::regex_match;
use crate::priority::LogPriority;
use crate::priority::read_priority;
use crate::priority::spec_read_priority;
use crate::text::chars_lt;
use crate::text::chars_of;
use crate::text::is_space;
use crate::text::lemma_chars_lt_total;
use crate::text::lemma_chars_lt_trans;
use crate::text::lemma_trim_back_at;
use crate::text::lemma_trim_front_at;
use crate::text::spec_trim;
use crate::text::str_lt;
use crate::timestamp::Timestamp;
use crate::timestamp::five_digits;
use crate::timestamp::lemma_ts_order_total;
use crate::timestamp::offset_text;
use crate::timestamp::parse_ts25;
use crate::timestamp::push_five_digits;
use crate::timestamp::push_offset_text;
use crate::timestamp::spec_add_seconds;
use crate::timestamp::spec_parse_ts25;
use crate::zone::offset_from_utc;
use crate::zone::utc_offset_in_zone;

verus! {

/// One parsed log record.
#[derive(Debug)]
pub struct LogLine {
    /// The instant the timestamp prefix denotes, in UTC.
    pub date: Timestamp,
    /// The original 25-character timestamp text, kept for lossless redisplay.
    pub date_str: String,
    /// Everything after the timestamp prefix, trimmed of whitespace.
    pub content: String,
    /// The severity the content's leading token encodes (7 when none).
    pub priority: LogPriority,
}

/// The mathematical value of a record.
pub ghost struct LogLineView {
    pub date: Timestamp,
    pub date_str: Seq<char>,
    pub content: Seq<char>,
    pub priority: u8,
}

impl View for LogLine {
    type V = LogLineView;

    open spec fn view(&self) -> LogLineView {
        LogLineView {
            date: self.date,
            date_str: self.date_str@,
            content: self.content@,
            priority: self.priority@,
        }
    }
}

impl LogLineView {
    /// Internal consistency: the instant is valid and is what the kept
    /// timestamp text parses to, and the priority is the one the content
    /// encodes.
    pub open spec fn wf(self) -> bool {
        &&& self.date.valid()
        &&& self.date_str.len() == 25
        &&& spec_parse_ts25(self.date_str, 0) == Some(self.date)
        &&& self.priority == spec_read_priority(self.content)
    }
}

/// What parsing a raw line yields: nothing when the line is shorter than the
/// timestamp prefix or the prefix is no timestamp; otherwise the instant, the
/// prefix text, the trimmed remainder, and the severity the remainder encodes.
pub open spec fn spec_parse_line(l: Seq<char>) -> Option<LogLineView> {
    if l.len() < 25 {
        None
    } else {
        match spec_parse_ts25(l, 0) {
            Some(t) => Some(
                LogLineView {
                    date: t,
                    date_str: l.take(25),
                    content: spec_trim(l.skip(25)),
                    priority: spec_read_priority(spec_trim(l.skip(25))),
                },
            ),
            None => None,
        }
    }
}

/// Whether `t` lies in the inclusive window `[since, until]`; an absent bound
/// is unbounded on that side.
pub open spec fn spec_in_window(t: Timestamp, since: Option<Timestamp>, until: Option<
    Timestamp,
>) -> bool {
    &&& match since {
        Some(s) => !t.spec_lt(s),
        None => true,
    }
    &&& match until {
        Some(u) => !u.spec_lt(t),
        None => true,
    }
}

/// Whether content passes the optional pattern; no pattern admits everything.
pub open spec fn spec_is_match(re: Option<Pattern>, content: Seq<char>) -> bool {
    match re {
        Some(p) => regex_match(p.spec_pattern(), p.spec_ci(), content),
        None => true,
    }
}

/// The view of an optional zone name.
pub open spec fn zone_view(z: Option<String>) -> Option<Seq<char>> {
    match z {
        Some(s) => Some(s@),
        None => None,
    }
}

/// A record rendered in a zone: the local date and time, the five fractional
/// digits of the instant, the zone's UTC offset, a space, and the content.
pub open spec fn spec_zone_render(lt: Timestamp, o: int, content: Seq<char>) -> Seq<char> {
    lt.spec_ts_text() + seq!['.'] + five_digits(lt.nanos as int / 10000) + offset_text(o) + seq![
        ' ',
    ] + content
}

/// What rendering a record yields. Without a zone, the original timestamp
/// text with a literal UTC marker and the content (lossless redisplay); with
/// one, the instant converted to the zone with an explicit UTC offset.
/// Nothing when the zone does not resolve or the conversion leaves the era.
pub open spec fn spec_render(v: LogLineView, zone: Option<Seq<char>>) -> Option<Seq<char>> {
    match zone {
        None => Some(v.date_str + "Z "@ + v.content),
        Some(z) => match utc_offset_in_zone(
            z,
            v.date.year as int,
            v.date.month as int,
            v.date.day as int,
            v.date.hour as int,
            v.date.minute as int,
            v.date.second as int,
        ) {
            Some(o) => match spec_add_seconds(v.date, o) {
                Some(lt) => Some(spec_zone_render(lt, o, v.content)),
                None => None,
            },
            None => None,
        },
    }
}

/// The record total order: lexicographic over (instant, timestamp text,
/// content).
pub open spec fn line_lt(a: LogLineView, b: LogLineView) -> bool {
    if a.date != b.date {
        a.date.spec_lt(b.date)
    } else if a.date_str != b.date_str {
        chars_lt(a.date_str, b.date_str)
    } else {
        chars_lt(a.content, b.content)
    }
}

/// Equality of the order key (instant, timestamp text, content).
pub open spec fn line_key_eq(a: LogLineView, b: LogLineView) -> bool {
    a.date == b.date && a.date_str == b.date_str && a.content == b.content
}

/// The record order is a strict total order on keys: asymmetric, transitive,
/// and two records that neither precede one another have equal keys.
pub proof fn lemma_line_order(a: LogLineView, b: LogLineView, c: LogLineView)
    ensures
        !line_lt(a, b) && !line_lt(b, a) ==> line_key_eq(a, b),
        !(line_lt(a, b) && line_lt(b, a)),
        line_lt(a, b) && line_lt(b, c) ==> line_lt(a, c),
{
    lemma_ts_order_total(a.date, b.date, c.date);
    lemma_ts_order_total(a.date, c.date, b.date);
    lemma_chars_lt_total(a.date_str, b.date_str);
    lemma_chars_lt_total(b.date_str, c.date_str);
    lemma_chars_lt_total(a.date_str, c.date_str);
    lemma_chars_lt_total(a.content, b.content);
    lemma_chars_lt_total(b.content, c.content);
    lemma_chars_lt_total(a.content, c.content);
    if chars_lt(a.date_str, b.date_str) && chars_lt(b.date_str, c.date_str) {
        lemma_chars_lt_trans(a.date_str, b.date_str, c.date_str);
    }
    if chars_lt(a.content, b.content) && chars_lt(b.content, c.content) {
        lemma_chars_lt_trans(a.content, b.content, c.content);
    }
}

impl LogLine {
    /// Parses one raw line. Fails exactly when the line is shorter than the
    /// 25-character timestamp prefix, or when that prefix is no timestamp.
    pub fn new(line: String) -> (r: Result<LogLine, SvLogError>)
        ensures
            line@.len() < 25 ==> (r matches Err(SvLogError::ParsingLogLineError { line: l })
                && l@ == line@),
            line@.len() >= 25 && spec_parse_ts25(line@, 0) is None ==> (r matches Err(
                SvLogError::ParsingTimestampError { line: l },
            ) && l@ == line@),
            r matches Ok(ll) ==> spec_parse_line(line@) == Some(ll@) && ll@.wf(),
            r is Ok <==> spec_parse_line(line@) is Some,
    {
        let v = chars_of(line.as_str());
        let n = v.len();
        if n < 25 {
            return Err(SvLogError::ParsingLogLineError { line });
        }
        let date = match parse_ts25(&v, 0) {
            Some(t) => t,
            None => { return Err(SvLogError::ParsingTimestampError { line }) },
        };
        let date_str = line.as_str().substring_char(0, 25).to_owned();
        let mut start: usize = 25;
        while start < n && v[start].is_whitespace()
            invariant
                25 <= start <= n,
                n == v@.len(),
                v@ == line@,
                forall|m: int| 25 <= m < start ==> is_space(line@[m]),
            decreases n - start,
        {
            start = start + 1;
        }
        let mut end: usize = n;
        while end > start && v[end - 1].is_whitespace()
            invariant
                start <= end <= n,
                n == v@.len(),
                v@ == line@,
                forall|m: int| end <= m < n ==> is_space(line@[m]),
            decreases end,
        {
            end = end - 1;
        }
        proof {
            let rest = line@.skip(25);
            assert forall|k: int| 0 <= k < start - 25 implies is_space(rest[k]) by {
                assert(rest[k] == line@[k + 25]);
            }
            if start < n {
                assert(rest[start - 25] == line@[start as int]);
            }
            lemma_trim_front_at(rest, start - 25);
            let mid = line@.subrange(start as int, n as int);
            assert(rest.skip(start - 25) =~= mid);
            assert forall|k: int| end - start <= k < mid.len() implies is_space(mid[k]) by {
                assert(mid[k] == line@[k + start]);
            }
            if end > start {
                assert(mid[end - start - 1] == line@[end - 1]);
            }
            lemma_trim_back_at(mid, end - start as int);
            assert(mid.take(end - start as int) =~= line@.subrange(start as int, end as int));
            assert(spec_trim(line@.skip(25)) == line@.subrange(start as int, end as int));
        }
        let content = line.as_str().substring_char(start, end).to_owned();
        let priority = read_priority(content.as_str());
        let ll = LogLine { date, date_str, content, priority };
        proof {
            assert(line@.take(25) =~= ll.date_str@);
            assert(spec_parse_ts25(line@.take(25), 0) == Some(date)) by {
                assert(forall|j: int| 0 <= j < 25 ==> line@.take(25)[j] == line@[j]);
            }
        }
        Ok(ll)
    }

    /// The severity a content string encodes (see `spec_read_priority`).
    pub fn read_priority(content_str: &str) -> (r: LogPriority)
        ensures
            r@ == spec_read_priority(content_str@),
    {
        read_priority(content_str)
    }

    /// An equal record (the instant is copied; the texts are cloned).
    pub fn duplicate(&self) -> (r: LogLine)
        ensures
            r == *self,
    {
        LogLine {
            date: self.date,
            date_str: self.date_str.clone(),
            content: self.content.clone(),
            priority: self.priority,
        }
    }

    /// Whether the record lies in the inclusive time window `[since, until]`.
    pub fn is_between(&self, since: &Option<Timestamp>, until: &Option<Timestamp>) -> (r: bool)
        ensures
            r == spec_in_window(self@.date, *since, *until),
    {
        if let Some(s) = since {
            if self.date.lt(s) {
                return false;
            }
        }
        if let Some(u) = until {
            if u.lt(&self.date) {
                return false;
            }
        }
        true
    }

    /// Whether the record's severity lies in the inclusive range
    /// `[min_priority, max_priority]`.
    pub fn has_priority(&self, min_priority: &LogPriority, max_priority: &LogPriority) -> (r: bool)
        ensures
            r == (min_priority@ <= self@.priority && self@.priority <= max_priority@),
    {
        min_priority.value() <= self.priority.value() && self.priority.value()
            <= max_priority.value()
    }

    /// Whether the record's content passes the optional pattern; the pattern
    /// is never applied to the timestamp.
    pub fn is_match(&self, re: &Option<Pattern>) -> (r: bool)
        ensures
            r == spec_is_match(*re, self@.content),
    {
        match re {
            Some(p) => p.is_match(self.content.as_str()),
            None => true,
        }
    }

    /// Renders the record for display. Without a zone, the kept timestamp
    /// text is reused with a literal "Z"; with one, the instant is converted
    /// to the zone and shown with its explicit UTC offset. Fails exactly when
    /// the zone does not resolve or the conversion leaves the era.
    pub fn format_with_tz(&self, tz: &Option<String>) -> (r: Result<String, SvLogError>)
        requires
            self@.wf(),
        ensures
            r matches Ok(s) ==> spec_render(self@, zone_view(*tz)) == Some(s@),
            r is Ok <==> spec_render(self@, zone_view(*tz)) is Some,
            r matches Err(e) ==> e matches SvLogError::TimeZoneError { .. },
    {
        match tz {
            None => {
                let s = self.date_str.clone().concat("Z ").concat(self.content.as_str());
                proof {
                    assert(s@ =~= self@.date_str + "Z "@ + self@.content);
                }
                Ok(s)
            },
            Some(z) => {
                let o = match offset_from_utc(z.as_str(), &self.date) {
                    Some(o) => o,
                    None => {
                        return Err(
                            SvLogError::TimeZoneError {
                                message: String::from_str(
                                    "failed to compute an offset for zone ",
                                ).concat(z.as_str()),
                            },
                        );
                    },
                };
                let lt = match self.date.add_seconds(o) {
                    Some(lt) => lt,
                    None => {
                        return Err(
                            SvLogError::TimeZoneError {
                                message: String::from_str(
                                    "the instant cannot be represented in zone ",
                                ).concat(z.as_str()),
                            },
                        );
                    },
                };
                let mut out = String::new();
                lt.push_ts_text(&mut out);
                out.push('.');
                push_five_digits(&mut out, lt.nanos / 10000);
                push_offset_text(&mut out, o);
                out.push(' ');
                let s = out.concat(self.content.as_str());
                proof {
                    assert(s@ =~= spec_zone_render(lt, o as int, self@.content));
                }
                Ok(s)
            },
        }
    }

    /// Strict record order (see `line_lt`).
    pub fn lt(&self, other: &LogLine) -> (r: bool)
        ensures
            r == line_lt(self@, other@),
    {
        if self.date.lt(&other.date) {
            return true;
        }
        if other.date.lt(&self.date) {
            return false;
        }
        proof {
            lemma_ts_order_total(self.date, other.date, other.date);
            lemma_chars_lt_total(self.date_str@, other.date_str@);
        }
        if str_lt(self.date_str.as_str(), other.date_str.as_str()) {
            return true;
        }
        if str_lt(other.date_str.as_str(), self.date_str.as_str()) {
            return false;
        }
        str_lt(self.content.as_str(), other.content.as_str())
    }
}

} // verus!
