//! The current UTC time, read from the system clock through `chrono`.
use chrono::{Datelike, Timelike};
use vstd::prelude::*;

verus! {

/// A reading of the UTC clock, split into the fields the protocol needs.
#[derive(Debug, Clone, Copy)]
pub struct UtcNow {
    /// milliseconds since the Unix epoch
    pub unix_millis: i64,
    /// milliseconds since the last whole second
    pub subsec_millis: u32,
    pub second: u32,
    pub minute: u32,
    pub hour: u32,
    /// day of the month, from 1
    pub day: u32,
    /// month, from 1
    pub month: u32,
    pub year: i32,
}

/// The proleptic Gregorian date (year, month, day) of the day that lies
/// `days` days after 1970-01-01, for `days >= 0`: days are counted in
/// 400-year eras of 146097 days from 0000-03-01, years within an era from
/// March, and months from March by their 153-day five-month rhythm.
pub open spec fn civil_from_days(days: int) -> (int, int, int) {
    let z = days + 719468;
    let era = z / 146097;
    let doe = z - era * 146097;
    let yoe = (doe - doe / 1460 + doe / 36524 - doe / 146096) / 365;
    let doy = doe - (365 * yoe + yoe / 4 - yoe / 100);
    let mp = (5 * doy + 2) / 153;
    let d = doy - (153 * mp + 2) / 5 + 1;
    let m = if mp < 10 {
        mp + 3
    } else {
        mp - 9
    };
    (yoe + era * 400 + if m <= 2 {
        1int
    } else {
        0
    }, m, d)
}

/// Whether the fields of `t` all describe the instant `t.unix_millis`
/// milliseconds after 1970-01-01 00:00:00 UTC, and lie in their usual ranges.
pub open spec fn describes_instant(t: UtcNow) -> bool {
    let ms = t.unix_millis as int;
    let date = civil_from_days(ms / 86_400_000);
    &&& ms >= 0
    &&& t.subsec_millis == ms % 1000
    &&& t.second == ms / 1000 % 60
    &&& t.minute == ms / 60_000 % 60
    &&& t.hour == ms / 3_600_000 % 24
    &&& t.year as int == date.0
    &&& t.month as int == date.1
    &&& t.day as int == date.2
    &&& 1 <= t.day <= 31
    &&& 1 <= t.month <= 12
}

/// Reads the system clock with `std::time::SystemTime::now` and takes the
/// time since `UNIX_EPOCH` with `duration_since`, as whole seconds
/// (`as_secs`) and nanoseconds (`subsec_nanos`).
///
/// Claimed: the nanoseconds are below one second, as `Duration::subsec_nanos`
/// documents. There is no reading (`None`) when the clock is set before
/// 1970. Which time it is, and whether a reading is had, is left unsaid: both
/// depend on the machine.
#[verifier::external_body]
fn system_time_since_epoch() -> (r: Option<(u64, u32)>)
    ensures
        r matches Some(p) ==> p.1 < 1_000_000_000,
{
    match std::time::SystemTime::now().duration_since(std::time::UNIX_EPOCH) {
        Ok(d) => Some((d.as_secs(), d.subsec_nanos())),
        Err(_) => None,
    }
}

/// Turns a time since the epoch into UTC fields with chrono's
/// `DateTime::from_timestamp`, then `timestamp_millis`,
/// `timestamp_subsec_millis`, `second`, `minute`, `hour`, `day`, `month` and
/// `year`.
///
/// Claimed, as chrono's source shows for a non-negative time with
/// nanoseconds below one second: the time of day is taken from the seconds
/// of the day (`secs` modulo 86400), the milliseconds from the nanoseconds,
/// and the date is the proleptic Gregorian date of day `secs / 86400` after
/// 1970-01-01 (`civil_from_days`), whose month and day lie in their usual
/// ranges. There is a result for every time before the year 255000
/// (`from_timestamp` gives none only past chrono's last year, 262142).
#[verifier::external_body]
fn utc_from_timestamp(secs: i64, nanos: u32) -> (r: Option<UtcNow>)
    requires
        secs >= 0,
        nanos < 1_000_000_000,
    ensures
        r matches Some(t) ==> {
            &&& t.unix_millis == secs * 1000 + nanos / 1_000_000
            &&& t.subsec_millis == nanos / 1_000_000
            &&& t.second == secs % 60
            &&& t.minute == secs / 60 % 60
            &&& t.hour == secs / 3600 % 24
            &&& t.year as int == civil_from_days(secs / 86400).0
            &&& t.month as int == civil_from_days(secs / 86400).1
            &&& t.day as int == civil_from_days(secs / 86400).2
            &&& 1 <= t.day <= 31
            &&& 1 <= t.month <= 12
        },
        secs < 8_000_000_000_000 ==> r is Some,
{
    let now = chrono::DateTime::from_timestamp(secs, nanos)?;
    Some(UtcNow {
        unix_millis: now.timestamp_millis(),
        subsec_millis: now.timestamp_subsec_millis(),
        second: now.second(),
        minute: now.minute(),
        hour: now.hour(),
        day: now.day(),
        month: now.month(),
        year: now.year(),
    })
}

/// The current UTC time, if the system clock gives one that chrono can
/// represent (it does not when the clock is set before 1970). All fields of
/// a reading describe its one instant (no leap second).
pub(crate) fn utc_now() -> (r: Option<UtcNow>)
    ensures
        r matches Some(t) ==> describes_instant(t),
{
    match system_time_since_epoch() {
        Some((secs, nanos)) => {
            if secs <= 0x7fff_ffff_ffff_ffffu64 {
                let r = utc_from_timestamp(secs as i64, nanos);
                proof {
                    if let Some(t) = r {
                        lemma_fields_of_millis(secs as int, nanos as int, t.unix_millis as int);
                    }
                }
                r
            } else {
                None
            }
        },
        None => None,
    }
}

/// Splitting `secs * 1000 + nanos / 10^6` milliseconds gives back the
/// seconds and their divisions.
proof fn lemma_fields_of_millis(secs: int, nanos: int, ms: int)
    requires
        secs >= 0,
        0 <= nanos < 1_000_000_000,
        ms == secs * 1000 + nanos / 1_000_000,
    ensures
        ms % 1000 == nanos / 1_000_000,
        ms / 1000 == secs,
        ms / 60_000 == secs / 60,
        ms / 3_600_000 == secs / 3600,
        ms / 86_400_000 == secs / 86400,
{
    vstd::arithmetic::div_mod::lemma_fundamental_div_mod_converse(ms, 1000, secs, nanos / 1_000_000);
    vstd::arithmetic::div_mod::lemma_div_denominator(ms, 1000, 60);
    vstd::arithmetic::div_mod::lemma_div_denominator(ms, 1000, 3600);
    vstd::arithmetic::div_mod::lemma_div_denominator(ms, 1000, 86400);
}

} // verus!
