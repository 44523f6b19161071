//! Boot-window resolution. The boot-history source (an external command) is
//! consumed as text lines; each "system boot" line carries a start timestamp
//! at a fixed offset and, when the machine shut down cleanly, an end
//! timestamp at another. A boot without a recorded shutdown is bounded by the
//! start of the next boot, one nanosecond before it.

use vstd::prelude::*;
use vstd::string::StrSliceExecFns;

use crate::error::SvLogError;
use crate::text::chars_of;
use crate::text::contains_seq;
use crate::text::str_contains;
use crate::text::views_of;
use crate::timestamp::Timestamp;
use crate::timestamp::parse_ts19;
use crate::timestamp::spec_parse_ts19;

verus! {

/// The start and (optional) end of one boot.
pub type BootSpan = (Option<Timestamp>, Option<Timestamp>);

/// What reading one boot-history line yields: the start timestamp at
/// character offset 22 and, on lines long enough to carry one, the end
/// timestamp at offset 50; nothing when the line is too short or its start
/// timestamp does not parse.
pub open spec fn spec_boot_tuple(l: Seq<char>) -> Option<BootSpan> {
    if l.len() < 41 {
        None
    } else {
        match spec_parse_ts19(l, 22) {
            Some(from) => Some(
                (
                    Some(from),
                    if l.len() >= 69 {
                        spec_parse_ts19(l, 50)
                    } else {
                        None
                    },
                ),
            ),
            None => None,
        }
    }
}

/// Reads the two timestamps of one boot-history line.
pub fn boot_time_tuple(line: &str) -> (r: Result<BootSpan, SvLogError>)
    ensures
        r matches Ok(t) ==> spec_boot_tuple(line@) == Some(t),
        r is Ok <==> spec_boot_tuple(line@) is Some,
        line@.len() < 41 ==> r matches Err(SvLogError::BootTimeNotFound),
        line@.len() >= 41 && spec_parse_ts19(line@, 22) is None ==> (r matches Err(
            SvLogError::ParsingTimestampError { line: l },
        ) && l@ == line@),
{
    let v = chars_of(line);
    let n = v.len();
    if n < 41 {
        return Err(SvLogError::BootTimeNotFound);
    }
    let from = match parse_ts19(&v, 22) {
        Some(t) => t,
        None => { return Err(SvLogError::ParsingTimestampError { line: line.to_owned() }) },
    };
    let until = if n >= 69 {
        parse_ts19(&v, 50)
    } else {
        None
    };
    Ok((Some(from), until))
}

/// Whether a boot-history line marks a boot.
pub open spec fn has_boot_marker(l: Seq<char>) -> bool {
    contains_seq(l, "system boot"@)
}

/// The lines that mark boots, in their original order.
pub open spec fn spec_boot_lines(s: Seq<Seq<char>>) -> Seq<Seq<char>> {
    s.filter(|l: Seq<char>| has_boot_marker(l))
}

/// The boot-history lines: those containing the "system boot" marker, in
/// their original order.
pub fn boot_time_lines(output_lines: &Vec<String>) -> (r: Vec<String>)
    ensures
        views_of(r@) == spec_boot_lines(views_of(output_lines@)),
{
    let ghost all = views_of(output_lines@);
    let mut r: Vec<String> = Vec::new();
    let mut i: usize = 0;
    while i < output_lines.len()
        invariant
            i <= output_lines@.len(),
            all == views_of(output_lines@),
            views_of(r@) == spec_boot_lines(all.take(i as int)),
        decreases output_lines@.len() - i,
    {
        let ghost prev_r = r@;
        if str_contains(output_lines[i].as_str(), "system boot") {
            r.push(output_lines[i].clone());
            proof {
                assert(r@[prev_r.len() as int]@ == all[i as int]);
                assert(views_of(r@) =~= views_of(prev_r).push(all[i as int]));
            }
        }
        i = i + 1;
        proof {
            reveal_with_fuel(Seq::filter, 2);
            assert(all.take(i as int).drop_last() =~= all.take(i - 1));
            assert(all.take(i as int).last() == all[i - 1]);
            if has_boot_marker(all[i - 1]) {
                assert(views_of(r@) == spec_boot_lines(all.take(i as int)));
            } else {
                assert(views_of(r@) =~= views_of(prev_r));
                assert(views_of(r@) == spec_boot_lines(all.take(i as int)));
            }
        }
    }
    proof {
        reveal_with_fuel(Seq::filter, 1);
        assert(all.take(output_lines@.len() as int) =~= all);
    }
    r
}

/// Reads the recorded boot spans off the boot-marker lines, in order; fails
/// on the first line that does not carry a start timestamp.
pub fn boot_spans_of(boot_lines: &Vec<String>) -> (r: Result<Vec<BootSpan>, SvLogError>)
    ensures
        r matches Ok(spans) ==> {
            &&& spans@.len() == boot_lines@.len()
            &&& forall|i: int|
                0 <= i < spans@.len() ==> spec_boot_tuple(boot_lines@[i]@) == Some(
                    #[trigger] spans@[i],
                )
            &&& boots_valid(spans@)
        },
        r is Ok <==> (forall|i: int|
            0 <= i < boot_lines@.len() ==> (#[trigger] spec_boot_tuple(boot_lines@[i]@)) is Some),
{
    let mut spans: Vec<BootSpan> = Vec::new();
    let mut i: usize = 0;
    while i < boot_lines.len()
        invariant
            i <= boot_lines@.len(),
            spans@.len() == i,
            forall|m: int|
                0 <= m < i ==> spec_boot_tuple(boot_lines@[m]@) == Some(#[trigger] spans@[m]),
        decreases boot_lines@.len() - i,
    {
        match boot_time_tuple(boot_lines[i].as_str()) {
            Ok(span) => {
                spans.push(span);
            },
            Err(e) => {
                return Err(e);
            },
        }
        i = i + 1;
    }
    proof {
        assert forall|m: int| 0 <= m < spans@.len() implies match (#[trigger] spans@[m]).0 {
            Some(t) => t.valid(),
            None => true,
        } by {
            assert(spec_boot_tuple(boot_lines@[m]@) == Some(spans@[m]));
        }
        assert forall|m: int| 0 <= m < boot_lines@.len() implies (#[trigger] spec_boot_tuple(
            boot_lines@[m]@,
        )) is Some by {
            assert(spec_boot_tuple(boot_lines@[m]@) == Some(spans@[m]));
        }
    }
    Ok(spans)
}

/// Every start timestamp among the spans is a valid instant.
pub open spec fn boots_valid(boots: Seq<BootSpan>) -> bool {
    forall|i: int|
        0 <= i < boots.len() ==> match #[trigger] boots[i].0 {
            Some(t) => t.valid(),
            None => true,
        }
}

/// What resolving boot `offset` against the recorded spans yields (offset 0
/// is the current boot, 1 the previous, and so on): that boot's span, except
/// that a boot with no recorded shutdown and a recorded successor is bounded
/// by the successor's start time minus one nanosecond. Nothing when the
/// offset lies beyond the history.
pub open spec fn spec_boot_times(boots: Seq<BootSpan>, offset: int) -> Option<BootSpan> {
    if 0 <= offset < boots.len() {
        let span = boots[offset];
        if span.1 is None && offset >= 1 {
            match boots[offset - 1].0 {
                Some(next_start) => Some((span.0, next_start.spec_minus_one_nanosecond())),
                None => Some(span),
            }
        } else {
            Some(span)
        }
    } else {
        None
    }
}

/// Resolves a boot offset to its time window. The spans come newest first,
/// as the boot-history source lists them.
pub fn boot_times(boots: &Vec<BootSpan>, offset: usize) -> (r: Result<BootSpan, SvLogError>)
    requires
        boots_valid(boots@),
    ensures
        r matches Ok(t) ==> spec_boot_times(boots@, offset as int) == Some(t),
        r is Ok <==> spec_boot_times(boots@, offset as int) is Some,
        r matches Err(e) ==> e matches SvLogError::BootTimeNotFound,
{
    if offset >= boots.len() {
        return Err(SvLogError::BootTimeNotFound);
    }
    let span = boots[offset];
    if span.1.is_none() && offset >= 1 {
        match boots[offset - 1].0 {
            Some(next_start) => Ok((span.0, next_start.minus_one_nanosecond())),
            None => Ok(span),
        }
    } else {
        Ok(span)
    }
}

} // verus!
