//! Audit records: where the copy of an inbound document is written, and under
//! which name.

use std::fmt::Write;
use vstd::prelude::*;

verus! {

/// Why an audit record could not be written.
#[derive(Clone, Copy, Debug, PartialEq, Eq, Structural)]
pub enum LogError {
    /// The time of the record could not be written out.
    Timestamp,
    /// The directory for the records could not be made.
    Directory,
    /// The file for the record could not be made.
    File,
    /// The record could not be written into its file.
    Write,
}

/// A point in local time, to the second, as the calendar and the clock show it.
#[derive(Clone, Copy, Debug, PartialEq, Eq, Structural)]
pub struct Timestamp {
    pub year: i32,
    pub month: u32,
    pub day: u32,
    pub hour: u32,
    pub minute: u32,
    pub second: u32,
}

/// What chrono writes for a date and a time of day under `pattern`: nothing
/// where there is no such day or no such time of day, or where chrono cannot
/// write the time under that pattern.
pub uninterp spec fn time_text(
    year: i32,
    month: u32,
    day: u32,
    hour: u32,
    minute: u32,
    second: u32,
    pattern: Seq<char>,
) -> Option<Seq<char>>;

/// `chrono::NaiveDate::from_ymd_opt`, `and_hms_opt` and `NaiveDateTime::format`:
/// the given date and time of day written out under `pattern`. The first two
/// return nothing for a day or a time of day that does not exist, and the
/// `Display` of what `format` returns fails on a pattern that chrono cannot
/// write; each comes back as `None`. The text depends on the arguments alone: a
/// `NaiveDateTime` has no time zone and no locale.
#[verifier::external_body]
fn write_time(
    year: i32,
    month: u32,
    day: u32,
    hour: u32,
    minute: u32,
    second: u32,
    pattern: &str,
) -> (r: Option<String>)
    ensures
        match r {
            Some(text) => time_text(year, month, day, hour, minute, second, pattern@) == Some(
                text@,
            ),
            None => time_text(year, month, day, hour, minute, second, pattern@) is None,
        },
{
    let date = chrono::NaiveDate::from_ymd_opt(year, month, day)?;
    let time = date.and_hms_opt(hour, minute, second)?;
    let mut text = String::new();
    match write!(text, "{}", time.format(pattern)) {
        Ok(()) => Some(text),
        Err(_) => None,
    }
}

/// The stamp of a record taken at `time`: the time written out under the
/// pattern of `AuditRecord::stamp_pattern`.
pub open spec fn stamp_of(time: Timestamp) -> Option<Seq<char>> {
    time_text(
        time.year,
        time.month,
        time.day,
        time.hour,
        time.minute,
        time.second,
        "%Y-%m-%d_%H-%M-%S"@,
    )
}

/// The name of the file for a record with the stamp `stamp`.
pub open spec fn audit_file_name(stamp: Seq<char>) -> Seq<char> {
    "logs/payload_"@ + stamp + ".json"@
}

/// One inbound document as it is kept: the file to write and what to write into
/// it. Two records taken within one second have the same file name, and the
/// later one replaces the earlier.
#[derive(Clone, Debug, PartialEq, Eq)]
pub struct AuditRecord {
    pub file_name: String,
    pub contents: String,
}

impl AuditRecord {
    /// The directory that holds the records.
    pub fn directory() -> (r: &'static str)
        ensures
            r@ == "logs"@,
    {
        "logs"
    }

    /// The pattern under which the time of a record is written into its name:
    /// year, month, day, hour, minute and second, the widest first.
    pub fn stamp_pattern() -> (r: &'static str)
        ensures
            r@ == "%Y-%m-%d_%H-%M-%S"@,
    {
        "%Y-%m-%d_%H-%M-%S"
    }

    /// The record of `contents` with the stamp `stamp`.
    pub fn at(stamp: &str, contents: String) -> (r: AuditRecord)
        ensures
            r.file_name@ == audit_file_name(stamp@),
            r.contents@ == contents@,
    {
        AuditRecord {
            file_name: String::from_str("logs/payload_").concat(stamp).concat(".json"),
            contents,
        }
    }

    /// The record of `contents` taken at `time`: its file is named after the
    /// time as chrono writes it under `stamp_pattern`. Fails with `Timestamp`
    /// exactly where chrono writes nothing for `time`.
    pub fn capture(time: &Timestamp, contents: String) -> (r: Result<AuditRecord, LogError>)
        ensures
            match stamp_of(*time) {
                Some(stamp) => r matches Ok(record) && record.file_name@ == audit_file_name(stamp)
                    && record.contents@ == contents@,
                None => r == Err::<AuditRecord, LogError>(LogError::Timestamp),
            },
    {
        let stamp = write_time(
            time.year,
            time.month,
            time.day,
            time.hour,
            time.minute,
            time.second,
            AuditRecord::stamp_pattern(),
        );
        match stamp {
            Some(stamp) => Ok(AuditRecord::at(stamp.as_str(), contents)),
            None => Err(LogError::Timestamp),
        }
    }
}

} // verus!
