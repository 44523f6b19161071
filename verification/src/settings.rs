//! The immutable filter settings: an optional content pattern, an inclusive
//! UTC time window, an inclusive priority window, and an optional display
//! zone. Built once from external configuration and then only read.

use vstd::prelude::*;

use crate::boottime::BootSpan;
use crate::boottime::boot_times;
use crate::boottime::boots_valid;
use crate::boottime::spec_boot_times;
use crate::error::SvLogError;
use crate::pattern::Pattern;
use crate::priority::LogPriority;
use crate::timestamp::Timestamp;
use crate::zone::local_to_utc;
use crate::zone::spec_local_to_utc;

verus! {

/// Filter criteria, derived once from external configuration.
pub struct LogFilterSettings {
    /// The optional content pattern.
    pub re: Option<Pattern>,
    /// Lower bound of the inclusive time window, in UTC.
    pub since: Option<Timestamp>,
    /// Upper bound of the inclusive time window, in UTC.
    pub until: Option<Timestamp>,
    /// The display zone; absent means display as UTC.
    pub tz: Option<String>,
    /// Lower bound of the inclusive priority window.
    pub min_priority: LogPriority,
    /// Upper bound of the inclusive priority window.
    pub max_priority: LogPriority,
}

/// What converting one optional local wall-clock bound to UTC yields:
/// an absent bound stays absent; a present one must resolve in the zone.
pub open spec fn spec_bound_to_utc(zone: Seq<char>, b: Option<Timestamp>) -> Option<
    Option<Timestamp>,
> {
    match b {
        None => Some(None),
        Some(t) => match spec_local_to_utc(zone, t) {
            Some(u) => Some(Some(u)),
            None => None,
        },
    }
}

/// What the time window of the settings is, given the external configuration:
/// the window of boot 0 when logs since the last boot were asked for; the
/// window of the named boot for a boot offset; otherwise the given bounds,
/// converted from the display zone's wall clock to UTC when a zone is in use.
/// Nothing when the boot offset lies beyond the history or a bound does not
/// resolve in the zone.
pub open spec fn spec_resolve_window(
    boot: bool,
    boot_offset: Option<usize>,
    boots: Seq<BootSpan>,
    zone: Option<Seq<char>>,
    since: Option<Timestamp>,
    until: Option<Timestamp>,
) -> Option<BootSpan> {
    if boot {
        spec_boot_times(boots, 0)
    } else {
        match boot_offset {
            Some(off) => spec_boot_times(boots, off as int),
            None => match zone {
                Some(z) => match (spec_bound_to_utc(z, since), spec_bound_to_utc(z, until)) {
                    (Some(s), Some(u)) => Some((s, u)),
                    _ => None,
                },
                None => Some((since, until)),
            },
        }
    }
}

impl LogFilterSettings {
    /// Builds the settings from externally gathered configuration: the
    /// compiled pattern, the display zone (absent for UTC), the boot
    /// selection with the recorded boot spans, the raw time bounds (wall
    /// clock in the display zone when one is set), and the priority window.
    pub fn from_parts(
        re: Option<Pattern>,
        tz: Option<String>,
        boot: bool,
        boot_offset: Option<usize>,
        boots: &Vec<BootSpan>,
        since: Option<Timestamp>,
        until: Option<Timestamp>,
        min_priority: LogPriority,
        max_priority: LogPriority,
    ) -> (r: Result<LogFilterSettings, SvLogError>)
        requires
            boots_valid(boots@),
            since matches Some(t) ==> t.valid(),
            until matches Some(t) ==> t.valid(),
        ensures
            r matches Ok(s) ==> {
                &&& spec_resolve_window(
                    boot,
                    boot_offset,
                    boots@,
                    crate::logline::zone_view(tz),
                    since,
                    until,
                ) == Some((s.since, s.until))
                &&& s.re == re
                &&& s.tz == tz
                &&& s.min_priority == min_priority
                &&& s.max_priority == max_priority
            },
            r is Ok <==> spec_resolve_window(
                boot,
                boot_offset,
                boots@,
                crate::logline::zone_view(tz),
                since,
                until,
            ) is Some,
            r matches Err(e) ==> (e matches SvLogError::BootTimeNotFound || e matches
                SvLogError::TimeZoneError { .. }),
    {
        let window: (Option<Timestamp>, Option<Timestamp>) = if boot {
            match boot_times(boots, 0) {
                Ok(w) => w,
                Err(e) => { return Err(e) },
            }
        } else if let Some(off) = boot_offset {
            match boot_times(boots, off) {
                Ok(w) => w,
                Err(e) => { return Err(e) },
            }
        } else if let Some(z) = &tz {
            let s = match since {
                None => None,
                Some(t) => match local_to_utc(z.as_str(), &t) {
                    Some(u) => Some(u),
                    None => {
                        return Err(
                            SvLogError::TimeZoneError {
                                message: crate::error::zone_failure_message(z),
                            },
                        );
                    },
                },
            };
            let u = match until {
                None => None,
                Some(t) => match local_to_utc(z.as_str(), &t) {
                    Some(u) => Some(u),
                    None => {
                        return Err(
                            SvLogError::TimeZoneError {
                                message: crate::error::zone_failure_message(z),
                            },
                        );
                    },
                },
            };
            (s, u)
        } else {
            (since, until)
        };
        Ok(
            LogFilterSettings {
                re,
                since: window.0,
                until: window.1,
                tz,
                min_priority,
                max_priority,
            },
        )
    }
}

} // verus!
