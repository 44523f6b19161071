//! Display time zones. The tz database work — which UTC offset a named zone
//! applies at an instant — is done by the `chrono-tz` crate behind trusted
//! items; everything around those offsets (applying them to an instant,
//! rendering) is verified calendar arithmetic.

use chrono::Offset;
use chrono::TimeZone;
use vstd::prelude::*;

use crate::text::after_last_occurrence;
use crate::text::str_after_last;
use crate::timestamp::Timestamp;
use crate::timestamp::spec_add_seconds;

verus! {

/// The UTC offset (seconds east of UTC) the named zone applies at the given
/// UTC instant, per the tz database this build carries: a pure function of
/// the name and the fields; nothing when the name names no zone or the fields
/// form no representable instant.
pub uninterp spec fn utc_offset_in_zone(
    zone: Seq<char>,
    year: int,
    month: int,
    day: int,
    hour: int,
    minute: int,
    second: int,
) -> Option<int>;

/// The UTC offset the named zone gives the given local wall-clock time, when
/// the zone resolves it to exactly one instant (no fold, no gap); a pure
/// function of the name and the fields.
pub uninterp spec fn local_offset_in_zone(
    zone: Seq<char>,
    year: int,
    month: int,
    day: int,
    hour: int,
    minute: int,
    second: int,
) -> Option<int>;

/// Relies on chrono_tz: `str::parse::<Tz>` resolves the zone name and
/// `TimeZone::offset_from_utc_datetime(..).fix().local_minus_utc()` is the
/// zone's offset at the instant. A `chrono::FixedOffset` is within a day of
/// zero by its documented invariant.
#[verifier::external_body]
pub fn offset_from_utc(zone: &str, t: &Timestamp) -> (r: Option<i32>)
    ensures
        match r {
            Some(o) => utc_offset_in_zone(
                zone@,
                t.year as int,
                t.month as int,
                t.day as int,
                t.hour as int,
                t.minute as int,
                t.second as int,
            ) == Some(o as int) && -86400 < o < 86400,
            None => utc_offset_in_zone(
                zone@,
                t.year as int,
                t.month as int,
                t.day as int,
                t.hour as int,
                t.minute as int,
                t.second as int,
            ) is None,
        },
{
    let tz: chrono_tz::Tz = match zone.parse() {
        Ok(z) => z,
        Err(_) => return None,
    };
    let date = chrono::NaiveDate::from_ymd_opt(t.year as i32, t.month, t.day)?;
    let dt = date.and_hms_opt(t.hour, t.minute, t.second)?;
    Some(tz.offset_from_utc_datetime(&dt).fix().local_minus_utc())
}

/// Relies on chrono_tz: `str::parse::<Tz>` resolves the zone name and
/// `TimeZone::offset_from_local_datetime` gives the offset when the local
/// time resolves uniquely (`LocalResult::Single`); ambiguous or skipped local
/// times yield nothing. A `chrono::FixedOffset` is within a day of zero.
#[verifier::external_body]
pub fn offset_from_local(zone: &str, t: &Timestamp) -> (r: Option<i32>)
    ensures
        match r {
            Some(o) => local_offset_in_zone(
                zone@,
                t.year as int,
                t.month as int,
                t.day as int,
                t.hour as int,
                t.minute as int,
                t.second as int,
            ) == Some(o as int) && -86400 < o < 86400,
            None => local_offset_in_zone(
                zone@,
                t.year as int,
                t.month as int,
                t.day as int,
                t.hour as int,
                t.minute as int,
                t.second as int,
            ) is None,
        },
{
    let tz: chrono_tz::Tz = match zone.parse() {
        Ok(z) => z,
        Err(_) => return None,
    };
    let date = chrono::NaiveDate::from_ymd_opt(t.year as i32, t.month, t.day)?;
    let dt = date.and_hms_opt(t.hour, t.minute, t.second)?;
    match tz.offset_from_local_datetime(&dt) {
        chrono::LocalResult::Single(o) => Some(o.fix().local_minus_utc()),
        _ => None,
    }
}

/// What converting a local wall-clock time in the named zone to UTC yields:
/// the instant minus the zone's unique offset for that local time; nothing
/// when the zone or the local time does not resolve, or the result would
/// fall before the era.
pub open spec fn spec_local_to_utc(zone: Seq<char>, t: Timestamp) -> Option<Timestamp> {
    match local_offset_in_zone(
        zone,
        t.year as int,
        t.month as int,
        t.day as int,
        t.hour as int,
        t.minute as int,
        t.second as int,
    ) {
        Some(o) => spec_add_seconds(t, -o),
        None => None,
    }
}

/// Converts a local wall-clock time in the named zone to UTC.
pub fn local_to_utc(zone: &str, t: &Timestamp) -> (r: Option<Timestamp>)
    requires
        t.valid(),
    ensures
        r == spec_local_to_utc(zone@, *t),
        r matches Some(u) ==> u.valid_carried(),
{
    match offset_from_local(zone, t) {
        Some(o) => t.add_seconds(-o),
        None => None,
    }
}

/// The zone name a localtime symlink target carries: what follows the last
/// "zoneinfo/" in the path, or the whole path when it holds none.
pub fn zone_from_link_path(path: &str) -> (r: String)
    ensures
        r@ == after_last_occurrence(path@, "zoneinfo/"@),
{
    str_after_last(path, "zoneinfo/")
}

} // verus!
