//! When to look for an application update, and whether the user asked to
//! be reminded later.
use crate::text;
use vstd::prelude::*;

verus! {

/// An instant in UTC: whole seconds since the Unix epoch and nanoseconds
/// past that second.
#[derive(Debug, Clone, Copy, PartialEq, Eq, Structural)]
pub struct UtcTime {
    pub secs: i64,
    pub nanos: u32,
}

/// A signed span of time: whole seconds and nanoseconds (the span is
/// `secs + nanos / 10^9` seconds).
#[derive(Debug, Clone, Copy, PartialEq, Eq, Structural)]
pub struct TimeSpan {
    pub secs: i64,
    pub nanos: u32,
}

/// The instant in nanoseconds since the epoch.
pub open spec fn instant_nanos(t: UtcTime) -> int {
    t.secs * 1_000_000_000 + t.nanos
}

/// The span in nanoseconds.
pub open spec fn span_nanos(d: TimeSpan) -> int {
    d.secs * 1_000_000_000 + d.nanos
}

/// Whether an update check is due.
pub open spec fn check_due(last_check: Option<UtcTime>, now: UtcTime, throttle: TimeSpan) -> bool {
    match last_check {
        None => true,
        Some(last) => instant_nanos(now) - instant_nanos(last) >= span_nanos(throttle),
    }
}

/// Whether the reminder for `remote` is snoozed.
pub open spec fn snoozed(
    snoozed_version: Option<Seq<char>>,
    snoozed_until: Option<UtcTime>,
    remote: Seq<char>,
    now: UtcTime,
) -> bool {
    match (snoozed_version, snoozed_until) {
        (Some(v), Some(until)) => v == remote && instant_nanos(now) < instant_nanos(until),
        _ => false,
    }
}

fn instant_ns(t: UtcTime) -> (r: i128)
    ensures
        r == instant_nanos(t),
{
    t.secs as i128 * 1_000_000_000 + t.nanos as i128
}

/// Whether an update check is due: never checked, or at least `throttle`
/// has passed since the last check.
pub fn should_check(last_check: Option<UtcTime>, now: UtcTime, throttle: TimeSpan) -> (r: bool)
    ensures
        r == check_due(last_check, now, throttle),
{
    match last_check {
        None => true,
        Some(last) => {
            let elapsed = instant_ns(now) - instant_ns(last);
            let limit = throttle.secs as i128 * 1_000_000_000 + throttle.nanos as i128;
            elapsed >= limit
        },
    }
}

/// Whether the update to `remote_version` is snoozed: the user snoozed that
/// very version and the snooze has not expired.
pub fn is_snoozed(
    snoozed_version: Option<&str>,
    snoozed_until: Option<UtcTime>,
    remote_version: &str,
    now: UtcTime,
) -> (r: bool)
    ensures
        r == snoozed(
            match snoozed_version {
                Some(v) => Some(v@),
                None => None,
            },
            snoozed_until,
            remote_version@,
            now,
        ),
{
    match (snoozed_version, snoozed_until) {
        (Some(v), Some(until)) => text::str_eq(v, remote_version) && instant_ns(now) < instant_ns(
            until,
        ),
        _ => false,
    }
}

/// A check is due when none was made, and once due it stays due as time
/// goes on.
pub proof fn lemma_check_due_monotone(last: Option<UtcTime>, now: UtcTime, later: UtcTime, throttle: TimeSpan)
    requires
        instant_nanos(now) <= instant_nanos(later),
    ensures
        check_due(None, now, throttle),
        check_due(last, now, throttle) ==> check_due(last, later, throttle),
{
}

/// A snooze covers only the version it was made for, ends at its expiry,
/// and needs both a version and an expiry.
pub proof fn lemma_snooze_scope(v: Seq<char>, until: UtcTime, remote: Seq<char>, now: UtcTime)
    ensures
        v != remote ==> !snoozed(Some(v), Some(until), remote, now),
        instant_nanos(now) >= instant_nanos(until) ==> !snoozed(Some(v), Some(until), remote, now),
        !snoozed(None, Some(until), remote, now),
        !snoozed(Some(v), None, remote, now),
{
}

} // verus!
