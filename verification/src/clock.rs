//! Points in UTC time and spans between them, as plain numbers, and the
//! system clock that produces them.

use chrono::DateTime;
use std::time::{Duration, SystemTime, UNIX_EPOCH};
use vstd::prelude::*;

verus! {

/// Nanoseconds in one second.
pub const NANOS_PER_SEC: u32 = 1_000_000_000;

/// A point in UTC time: whole seconds since the Unix epoch and the
/// nanoseconds past that second.
#[derive(Clone, Copy, Debug, PartialEq, Eq, Structural)]
pub struct UtcTime {
    pub secs: i64,
    pub nanos: u32,
}

/// A signed span of time: whole seconds and the nanoseconds added to them.
#[derive(Clone, Copy, Debug, PartialEq, Eq, Structural)]
pub struct TimeSpan {
    pub secs: i64,
    pub nanos: u32,
}

impl UtcTime {
    /// The nanoseconds lie within one second.
    pub open spec fn wf(self) -> bool {
        self.nanos < NANOS_PER_SEC
    }

    /// Nanoseconds since the Unix epoch.
    pub open spec fn total_nanos(self) -> int {
        self.secs * NANOS_PER_SEC + self.nanos
    }

    /// Whether `self` comes strictly before `other`.
    pub fn is_before(&self, other: &UtcTime) -> (r: bool)
        requires
            self.wf(),
            other.wf(),
        ensures
            r == (self.total_nanos() < other.total_nanos()),
    {
        self.secs < other.secs || (self.secs == other.secs && self.nanos < other.nanos)
    }

    /// The point `span` after `self`, with the nanoseconds carried into
    /// the seconds.
    pub open spec fn plus_spec(self, span: TimeSpan) -> UtcTime {
        if self.nanos + span.nanos >= NANOS_PER_SEC {
            UtcTime {
                secs: (self.secs + span.secs + 1) as i64,
                nanos: (self.nanos + span.nanos - NANOS_PER_SEC) as u32,
            }
        } else {
            UtcTime { secs: (self.secs + span.secs) as i64, nanos: (self.nanos + span.nanos) as u32 }
        }
    }

    /// The point `span` after `self` (before it, for a negative span).
    pub fn plus(&self, span: TimeSpan) -> (r: UtcTime)
        requires
            self.wf(),
            span.wf(),
            i64::MIN <= self.secs + span.secs,
            self.secs + span.secs < i64::MAX,
        ensures
            r.wf(),
            r.total_nanos() == self.total_nanos() + span.total_nanos(),
            r == self.plus_spec(span),
    {
        let sum = self.nanos + span.nanos;
        if sum >= NANOS_PER_SEC {
            UtcTime { secs: self.secs + span.secs + 1, nanos: sum - NANOS_PER_SEC }
        } else {
            UtcTime { secs: self.secs + span.secs, nanos: sum }
        }
    }
}

impl TimeSpan {
    /// The nanoseconds lie within one second.
    pub open spec fn wf(self) -> bool {
        self.nanos < NANOS_PER_SEC
    }

    /// The span in nanoseconds.
    pub open spec fn total_nanos(self) -> int {
        self.secs * NANOS_PER_SEC + self.nanos
    }

    /// A span of whole seconds.
    pub fn seconds(secs: i64) -> (r: TimeSpan)
        ensures
            r.wf(),
            r.secs == secs,
            r.total_nanos() == secs * NANOS_PER_SEC,
    {
        TimeSpan { secs, nanos: 0 }
    }

    /// A span given as whole seconds and the nanoseconds past them, where
    /// the nanoseconds carry the sign of the span (as `chrono` reports a
    /// duration with `num_seconds` and `subsec_nanos`).  A negative part is
    /// borrowed from the seconds, so the nanoseconds held are never
    /// negative.
    pub fn from_signed_parts(secs: i64, subsec_nanos: i32) -> (r: TimeSpan)
        requires
            -1_000_000_000 < subsec_nanos < 1_000_000_000,
            subsec_nanos < 0 ==> secs > i64::MIN,
        ensures
            r.wf(),
            r.total_nanos() == secs * NANOS_PER_SEC + subsec_nanos,
    {
        if subsec_nanos < 0 {
            TimeSpan { secs: secs - 1, nanos: (subsec_nanos + 1_000_000_000) as u32 }
        } else {
            TimeSpan { secs, nanos: subsec_nanos as u32 }
        }
    }
}

#[verifier::external_type_specification]
#[verifier::external_body]
pub struct ExSystemTime(SystemTime);

/// The first second that `chrono`'s `DateTime::from_timestamp` accepts, as
/// seconds since the Unix epoch: the start of January 2 of the year
/// -262143 (its day arithmetic refuses January 1, the first day of
/// `NaiveDate`'s range).
pub const MIN_UTC_SECS: i64 = -8_334_601_228_800;

/// The last second `chrono` can represent, as seconds since the Unix epoch:
/// the end of December 31 of the year 262142.
pub const MAX_UTC_SECS: i64 = 8_210_266_876_799;

/// Whether `chrono` can represent the UTC time `secs` seconds and `nanos`
/// nanoseconds after the Unix epoch: it lies from `MIN_UTC_SECS` to
/// `MAX_UTC_SECS`, and `nanos` is a fraction of a second, or, in the
/// last second of a minute, reaches into a leap second.
pub open spec fn chrono_utc_in_range(secs: i64, nanos: u32) -> bool {
    &&& MIN_UTC_SECS <= secs <= MAX_UTC_SECS
    &&& (nanos < NANOS_PER_SEC || (nanos < 2 * NANOS_PER_SEC && (secs as int) % 60 == 59))
}

/// `SystemTime::now`: the current time of the system clock.  Nothing is
/// stated of it.
#[verifier::external_body]
fn system_now() -> SystemTime {
    SystemTime::now()
}

/// `SystemTime::duration_since` from `UNIX_EPOCH`: the time since the Unix
/// epoch, or nothing when the clock is set before it (the error, which
/// says by how much, is dropped).  The time is opaque, so nothing ties the
/// result to it.
#[verifier::external_body]
fn since_unix_epoch(t: &SystemTime) -> Option<Duration> {
    match t.duration_since(UNIX_EPOCH) {
        Ok(d) => Some(d),
        Err(_) => None,
    }
}

/// `Duration::as_secs`: the whole seconds of a duration.  The duration is
/// opaque here, so nothing ties the result to it.
#[verifier::external_body]
pub(crate) fn duration_as_secs(d: &Duration) -> u64 {
    d.as_secs()
}

/// `Duration::subsec_nanos`: the nanoseconds past the whole seconds of a
/// duration, which `std` documents to be below one billion.
#[verifier::external_body]
fn duration_subsec_nanos(d: &Duration) -> (n: u32)
    ensures
        n < NANOS_PER_SEC,
{
    d.subsec_nanos()
}

/// `chrono::DateTime::from_timestamp`, read back with `timestamp` and
/// `timestamp_subsec_nanos`: the UTC time `secs` seconds and `nanos`
/// nanoseconds after the Unix epoch when `chrono` can represent it, which
/// then reads back as the same numbers, and nothing otherwise.  The day
/// must pass `NaiveDate::from_num_days_from_ce_opt` and the time of day
/// `NaiveTime::from_num_seconds_from_midnight_opt`, which is what
/// `chrono_utc_in_range` states.
#[verifier::external_body]
fn utc_from_timestamp(secs: i64, nanos: u32) -> (r: Option<UtcTime>)
    ensures
        r is Some <==> chrono_utc_in_range(secs, nanos),
        r matches Some(t) ==> t.secs == secs && t.nanos == nanos,
{
    match DateTime::from_timestamp(secs, nanos) {
        Some(t) => Some(UtcTime { secs: t.timestamp(), nanos: t.timestamp_subsec_nanos() }),
        None => None,
    }
}

/// Why the current UTC time, or a deadline after it, cannot be had.
#[derive(Debug, Clone, Copy, PartialEq, Eq, Structural)]
pub enum ClockError {
    /// The system clock is set before the Unix epoch.
    BeforeEpoch,
    /// The system clock is set beyond the dates `chrono` can represent.
    OutOfRange,
    /// The deadline falls beyond the dates `chrono` can represent.
    DeadlineOutOfRange,
}

/// The time `t`, when `chrono` can represent it, and `DeadlineOutOfRange`
/// otherwise.
pub fn checked_deadline(t: UtcTime) -> (r: Result<UtcTime, ClockError>)
    ensures
        chrono_utc_in_range(t.secs, t.nanos) ==> r == Ok::<UtcTime, ClockError>(t),
        !chrono_utc_in_range(t.secs, t.nanos) ==> r == Err::<UtcTime, ClockError>(
            ClockError::DeadlineOutOfRange,
        ),
{
    match utc_from_timestamp(t.secs, t.nanos) {
        Some(d) => Ok(d),
        None => Err(ClockError::DeadlineOutOfRange),
    }
}

/// The UTC time `secs` seconds and `nanos` nanoseconds after the Unix
/// epoch, as the system clock reports it: `OutOfRange` when the seconds do
/// not fit in an `i64` or `chrono` cannot represent the time, and the time
/// otherwise.
pub fn utc_from_epoch(secs: u64, nanos: u32) -> (r: Result<UtcTime, ClockError>)
    ensures
        secs > i64::MAX ==> r == Err::<UtcTime, ClockError>(ClockError::OutOfRange),
        secs <= i64::MAX && chrono_utc_in_range(secs as i64, nanos) ==> r == Ok::<
            UtcTime,
            ClockError,
        >(UtcTime { secs: secs as i64, nanos }),
        secs <= i64::MAX && !chrono_utc_in_range(secs as i64, nanos) ==> r == Err::<
            UtcTime,
            ClockError,
        >(ClockError::OutOfRange),
{
    if secs > i64::MAX as u64 {
        return Err(ClockError::OutOfRange);
    }
    match utc_from_timestamp(secs as i64, nanos) {
        Some(t) => Ok(t),
        None => Err(ClockError::OutOfRange),
    }
}

/// Whether `t` is a time the clock can give: well-formed, at or after the
/// Unix epoch, and one `chrono` represents.
pub open spec fn clock_reading(t: UtcTime) -> bool {
    &&& t.wf()
    &&& 0 <= t.secs <= MAX_UTC_SECS
    &&& chrono_utc_in_range(t.secs, t.nanos)
}

/// The current UTC time, as `chrono::Utc::now` reads it from the system
/// clock: `utc_from_epoch` of the seconds and nanoseconds since the Unix
/// epoch.  It fails with `BeforeEpoch` when the clock is set before the
/// epoch and with `OutOfRange` when the time cannot be represented (where
/// `Utc::now` panics).  When it succeeds, the time is a clock reading.
/// What the time is, and so which outcome comes, is the clock's.
pub fn utc_now() -> (r: Result<UtcTime, ClockError>)
    ensures
        r matches Ok(t) ==> clock_reading(t),
        r matches Err(e) ==> e != ClockError::DeadlineOutOfRange,
{
    let now = system_now();
    let since = match since_unix_epoch(&now) {
        Some(d) => d,
        None => return Err(ClockError::BeforeEpoch),
    };
    let secs = duration_as_secs(&since);
    let nanos = duration_subsec_nanos(&since);
    utc_from_epoch(secs, nanos)
}

} // verus!
