//! The library's error values. Per-line parse failures are recovered by the
//! callers that scan whole files; the other kinds propagate.

use vstd::prelude::*;
use vstd::string::StringExecFns;

verus! {

#[derive(Debug)]
pub enum SvLogError {
    /// A record line shorter than the fixed timestamp prefix.
    ParsingLogLineError { line: String },
    /// A record line whose timestamp prefix does not parse.
    ParsingTimestampError { line: String },
    /// A requested boot offset beyond the recorded boot history.
    BootTimeNotFound,
    /// A display time zone that cannot be resolved or applied.
    TimeZoneError { message: String },
    /// A requested service that the log directory does not hold.
    ServiceNotFoundError { service: String },
}

impl SvLogError {
    /// A human-readable description of the error.
    pub fn message(&self) -> (r: String)
        ensures
            match self {
                SvLogError::ParsingLogLineError { line } => r@ == "malformed log line: "@ + line@,
                SvLogError::ParsingTimestampError { line } => r@ == "failed to parse timestamp in: "@
                    + line@,
                SvLogError::BootTimeNotFound => r@ == "boot time not found"@,
                SvLogError::TimeZoneError { message } => r@ == "time zone error: "@ + message@,
                SvLogError::ServiceNotFoundError { service } => r@ == "service not found: "@
                    + service@,
            },
    {
        match self {
            SvLogError::ParsingLogLineError { line } => String::from_str(
                "malformed log line: ",
            ).concat(line.as_str()),
            SvLogError::ParsingTimestampError { line } => String::from_str(
                "failed to parse timestamp in: ",
            ).concat(line.as_str()),
            SvLogError::BootTimeNotFound => String::from_str("boot time not found"),
            SvLogError::TimeZoneError { message } => String::from_str("time zone error: ").concat(
                message.as_str(),
            ),
            SvLogError::ServiceNotFoundError { service } => String::from_str(
                "service not found: ",
            ).concat(service.as_str()),
        }
    }
}

/// The message of a time-zone failure for the named zone.
pub fn zone_failure_message(zone: &String) -> (r: String)
    ensures
        r@ == "cannot resolve a time in zone "@ + zone@,
{
    String::from_str("cannot resolve a time in zone ").concat(zone.as_str())
}

} // verus!
