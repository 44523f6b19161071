//! Wall-clock bounds given on the command line: "today", "yesterday", a date,
//! a time of day, or a date with a time. A bound names a span of the given
//! granularity; the span's first instant serves as a lower bound, its last
//! (one nanosecond before the next span) as an upper bound. The caller
//! supplies what "today" is.

use vstd::prelude::*;

use crate::text::chars_of;
use crate::text::str_eq;
use crate::timestamp::Timestamp;
use crate::timestamp::is_digit;
use crate::timestamp::num2;
use crate::timestamp::num2_of;
use crate::timestamp::num4;
use crate::timestamp::num4_of;

verus! {

/// How much of the clock a time argument spells out.
#[derive(PartialEq, Eq, Structural, Clone, Copy, Debug)]
pub enum Granularity {
    Day,
    Minute,
    Second,
}

/// The characters at `off` have the shape `YYYY-MM-DD`.
pub open spec fn date_shape_at(s: Seq<char>, off: int) -> bool {
    &&& is_digit(s[off]) && is_digit(s[off + 1]) && is_digit(s[off + 2]) && is_digit(s[off + 3])
    &&& s[off + 4] == '-'
    &&& is_digit(s[off + 5]) && is_digit(s[off + 6])
    &&& s[off + 7] == '-'
    &&& is_digit(s[off + 8]) && is_digit(s[off + 9])
}

/// The characters at `off` have the shape `HH:MM`.
pub open spec fn time_min_shape_at(s: Seq<char>, off: int) -> bool {
    &&& is_digit(s[off]) && is_digit(s[off + 1])
    &&& s[off + 2] == ':'
    &&& is_digit(s[off + 3]) && is_digit(s[off + 4])
}

/// The characters at `off` have the shape `HH:MM:SS`.
pub open spec fn time_sec_shape_at(s: Seq<char>, off: int) -> bool {
    &&& time_min_shape_at(s, off)
    &&& s[off + 5] == ':'
    &&& is_digit(s[off + 6]) && is_digit(s[off + 7])
}

/// The date the characters at `off` spell out, at midnight.
pub open spec fn date_value_at(s: Seq<char>, off: int) -> Timestamp {
    Timestamp {
        year: num4(s, off) as u32,
        month: num2(s, off + 5) as u32,
        day: num2(s, off + 8) as u32,
        hour: 0,
        minute: 0,
        second: 0,
        nanos: 0,
    }
}

/// What a wall-clock argument names, given today's date: the span's first
/// instant and its granularity; nothing for any other text, an impossible
/// calendar date, or (for "yesterday") a today at the era's very start.
pub open spec fn spec_parse_time_arg(s: Seq<char>, today: Timestamp) -> Option<
    (Timestamp, Granularity),
> {
    let midnight = Timestamp { hour: 0, minute: 0, second: 0, nanos: 0, ..today };
    if s == "today"@ {
        Some((midnight, Granularity::Day))
    } else if s == "yesterday"@ {
        match crate::timestamp::spec_prev_date(
            today.year as int,
            today.month as int,
            today.day as int,
        ) {
            Some((y, m, d)) => Some(
                (
                    Timestamp {
                        year: y as u32,
                        month: m as u32,
                        day: d as u32,
                        hour: 0,
                        minute: 0,
                        second: 0,
                        nanos: 0,
                    },
                    Granularity::Day,
                ),
            ),
            None => None,
        }
    } else if s.len() == 10 && date_shape_at(s, 0) {
        let t = date_value_at(s, 0);
        if t.valid() {
            Some((t, Granularity::Day))
        } else {
            None
        }
    } else if s.len() == 16 && date_shape_at(s, 0) && s[10] == ' ' && time_min_shape_at(s, 11) {
        let t = Timestamp {
            hour: num2(s, 11) as u32,
            minute: num2(s, 14) as u32,
            ..date_value_at(s, 0)
        };
        if t.valid() {
            Some((t, Granularity::Minute))
        } else {
            None
        }
    } else if s.len() == 19 && date_shape_at(s, 0) && s[10] == ' ' && time_sec_shape_at(s, 11) {
        let t = Timestamp {
            hour: num2(s, 11) as u32,
            minute: num2(s, 14) as u32,
            second: num2(s, 17) as u32,
            ..date_value_at(s, 0)
        };
        if t.valid() {
            Some((t, Granularity::Second))
        } else {
            None
        }
    } else if s.len() == 8 && time_sec_shape_at(s, 0) {
        let t = Timestamp {
            hour: num2(s, 0) as u32,
            minute: num2(s, 3) as u32,
            second: num2(s, 6) as u32,
            ..midnight
        };
        if t.valid() {
            Some((t, Granularity::Second))
        } else {
            None
        }
    } else if s.len() == 5 && time_min_shape_at(s, 0) {
        let t = Timestamp { hour: num2(s, 0) as u32, minute: num2(s, 3) as u32, ..midnight };
        if t.valid() {
            Some((t, Granularity::Minute))
        } else {
            None
        }
    } else {
        None
    }
}

/// The last instant of the span that starts at `t` with the given
/// granularity: one nanosecond before the next day, minute or second. `t`
/// spells out nothing finer than the granularity, so no carry is needed.
pub open spec fn spec_span_end(t: Timestamp, g: Granularity) -> Timestamp {
    match g {
        Granularity::Day => Timestamp {
            hour: 23,
            minute: 59,
            second: 59,
            nanos: 999_999_999,
            ..t
        },
        Granularity::Minute => Timestamp { second: 59, nanos: 999_999_999, ..t },
        Granularity::Second => Timestamp { nanos: 999_999_999, ..t },
    }
}

fn date_value_of(v: &Vec<char>, off: usize) -> (r: Option<Timestamp>)
    requires
        off + 10 <= v.len(),
    ensures
        r matches Some(t) ==> date_shape_at(v@, off as int) && t == date_value_at(v@, off as int),
        r is None ==> !(date_shape_at(v@, off as int) && date_value_at(v@, off as int).valid()),
        r matches Some(t) ==> t.valid(),
{
    if !(v[off + 4] == '-' && v[off + 7] == '-') {
        return None;
    }
    match (num4_of(v, off), num2_of(v, off + 5), num2_of(v, off + 8)) {
        (Some(y), Some(mo), Some(d)) => {
            let t = Timestamp { year: y, month: mo, day: d, hour: 0, minute: 0, second: 0, nanos: 0 };
            if t.check_valid() {
                Some(t)
            } else {
                None
            }
        },
        _ => None,
    }
}

/// Reads a wall-clock argument against the given "today" (whose date fields
/// alone are used).
pub fn parse_time_arg(s: &str, today: &Timestamp) -> (r: Option<(Timestamp, Granularity)>)
    requires
        today.valid(),
    ensures
        r == spec_parse_time_arg(s@, *today),
        r matches Some(p) ==> p.0.valid(),
{
    let midnight = Timestamp { hour: 0, minute: 0, second: 0, nanos: 0, ..*today };
    if str_eq(s, "today") {
        return Some((midnight, Granularity::Day));
    }
    if str_eq(s, "yesterday") {
        let y = midnight.minus_one_nanosecond();
        return match y {
            Some(e) => Some(
                (Timestamp { hour: 0, minute: 0, second: 0, nanos: 0, ..e }, Granularity::Day),
            ),
            None => None,
        };
    }
    let v = chars_of(s);
    let n = v.len();
    if n == 10 {
        return match date_value_of(&v, 0) {
            Some(t) => Some((t, Granularity::Day)),
            None => None,
        };
    }
    if n == 16 {
        let date = match date_value_of(&v, 0) {
            Some(t) => t,
            None => { return None },
        };
        if !(v[10] == ' ' && v[13] == ':') {
            return None;
        }
        return match (num2_of(&v, 11), num2_of(&v, 14)) {
            (Some(h), Some(mi)) => {
                let t = Timestamp { hour: h, minute: mi, ..date };
                if t.check_valid() {
                    Some((t, Granularity::Minute))
                } else {
                    None
                }
            },
            _ => None,
        };
    }
    if n == 19 {
        let date = match date_value_of(&v, 0) {
            Some(t) => t,
            None => { return None },
        };
        if !(v[10] == ' ' && v[13] == ':' && v[16] == ':') {
            return None;
        }
        return match (num2_of(&v, 11), num2_of(&v, 14), num2_of(&v, 17)) {
            (Some(h), Some(mi), Some(sec)) => {
                let t = Timestamp { hour: h, minute: mi, second: sec, ..date };
                if t.check_valid() {
                    Some((t, Granularity::Second))
                } else {
                    None
                }
            },
            _ => None,
        };
    }
    if n == 8 {
        if !(v[2] == ':' && v[5] == ':') {
            return None;
        }
        return match (num2_of(&v, 0), num2_of(&v, 3), num2_of(&v, 6)) {
            (Some(h), Some(mi), Some(sec)) => {
                let t = Timestamp { hour: h, minute: mi, second: sec, ..midnight };
                if t.check_valid() {
                    Some((t, Granularity::Second))
                } else {
                    None
                }
            },
            _ => None,
        };
    }
    if n == 5 {
        if v[2] != ':' {
            return None;
        }
        return match (num2_of(&v, 0), num2_of(&v, 3)) {
            (Some(h), Some(mi)) => {
                let t = Timestamp { hour: h, minute: mi, ..midnight };
                if t.check_valid() {
                    Some((t, Granularity::Minute))
                } else {
                    None
                }
            },
            _ => None,
        };
    }
    None
}

/// A lower time bound: the first instant of the span the argument names.
pub fn parse_ndt_since(s: &str, today: &Timestamp) -> (r: Option<Timestamp>)
    requires
        today.valid(),
    ensures
        r == match spec_parse_time_arg(s@, *today) {
            Some(p) => Some(p.0),
            None => None::<Timestamp>,
        },
        r matches Some(t) ==> t.valid(),
{
    match parse_time_arg(s, today) {
        Some((t, _)) => Some(t),
        None => None,
    }
}

/// An upper time bound: the last instant (one nanosecond before the next
/// span) of the span the argument names.
pub fn parse_ndt_until(s: &str, today: &Timestamp) -> (r: Option<Timestamp>)
    requires
        today.valid(),
    ensures
        r == match spec_parse_time_arg(s@, *today) {
            Some(p) => Some(spec_span_end(p.0, p.1)),
            None => None::<Timestamp>,
        },
        r matches Some(t) ==> t.valid(),
{
    match parse_time_arg(s, today) {
        Some((t, g)) => match g {
            Granularity::Day => Some(
                Timestamp { hour: 23, minute: 59, second: 59, nanos: 999_999_999, ..t },
            ),
            Granularity::Minute => Some(Timestamp { second: 59, nanos: 999_999_999, ..t }),
            Granularity::Second => Some(Timestamp { nanos: 999_999_999, ..t }),
        },
        None => None,
    }
}

} // verus!
