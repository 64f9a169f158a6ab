//! Points in time as epoch durations, Unix epoch seconds and `FILETIME`s.

use vstd::prelude::*;

verus! {

/// The number of 100-nanosecond intervals from 1601-01-01 to 1970-01-01 (UTC).
pub const HECTONANOS_1601_TO_1970: i64 = 116444736000000000i64;

/// The number of 100-nanosecond intervals in a second.
pub const HECTONANOS_PER_SEC: i64 = 10000000i64;

/// The latest possible `FILETIME`. See
/// <https://stackoverflow.com/questions/9999393/latest-possible-filetime/18188484#18188484>.
pub const LATEST_FILETIME: i64 = 0x7fff35f4f06c58f0i64;

/// The time elapsed since the Unix epoch (1970-01-01, UTC), as whole seconds and the nanoseconds
/// of the second begun.
#[derive(Clone, Copy, PartialEq, Eq, Structural, Debug)]
pub struct EpochDuration {
    pub secs: u64,
    pub subsec_nanos: u32,
}

impl EpochDuration {
    /// Nanoseconds in a second.
    pub open spec fn wf(self) -> bool {
        self.subsec_nanos < 1_000_000_000
    }

    /// The duration in nanoseconds.
    pub open spec fn nanos(self) -> int {
        self.secs * 1_000_000_000 + self.subsec_nanos
    }

    /// The duration as a `FILETIME`: 100-nanosecond intervals since 1601-01-01 (UTC).
    pub open spec fn filetime(self) -> int {
        self.nanos() / 100 + HECTONANOS_1601_TO_1970
    }

    /// The duration can be stated in 32-bit epoch seconds and as a `FILETIME` in an `i64`.
    pub open spec fn in_range(self) -> bool {
        &&& self.secs <= u32::MAX
        &&& self.filetime() <= i64::MAX
    }
}

#[verifier::external_type_specification]
#[verifier::external_body]
pub struct ExSystemTime(std::time::SystemTime);

/// `SystemTime::now()`: the current time of the system clock. Nothing is stated of the result,
/// which depends on the clock.
#[verifier::external_body]
fn system_time_now() -> std::time::SystemTime {
    std::time::SystemTime::now()
}

/// What `SystemTime::duration_since(UNIX_EPOCH)` gives for `time`: the time elapsed from the
/// Unix epoch to `time`, or `None` if `time` lies before the epoch.
pub uninterp spec fn unix_epoch_duration(time: std::time::SystemTime) -> Option<EpochDuration>;

/// `SystemTime::duration_since(UNIX_EPOCH)`: the time elapsed from the Unix epoch to `time`, or
/// `None` if `time` lies before the epoch. The result is named by [`unix_epoch_duration`], as it
/// depends on `time` alone; beyond that, it is stated only that its nanoseconds stay within a
/// second, as `Duration` guarantees. `SystemTime` is opaque, so which duration a given time
/// gives is left unsaid.
#[verifier::external_body]
fn duration_since_unix_epoch(time: &std::time::SystemTime) -> (r: Option<EpochDuration>)
    ensures
        r == unix_epoch_duration(*time),
        r matches Some(d) ==> d.wf(),
{
    match time.duration_since(std::time::SystemTime::UNIX_EPOCH) {
        Ok(duration) => Some(
            EpochDuration { secs: duration.as_secs(), subsec_nanos: duration.subsec_nanos() },
        ),
        Err(_) => None,
    }
}

/// The time elapsed since the Unix epoch, or 0 where the epoch lies ahead.
pub open spec fn spec_epoch_duration_or_zero(duration: Option<EpochDuration>) -> EpochDuration {
    match duration {
        Some(d) => d,
        None => EpochDuration { secs: 0, subsec_nanos: 0 },
    }
}

/// The time elapsed since the Unix epoch, given the elapsed time if the epoch lies in the past:
/// the earliest time is 1970.
pub fn epoch_duration_or_zero(duration: Option<EpochDuration>) -> (r: EpochDuration)
    ensures
        r == spec_epoch_duration_or_zero(duration),
{
    match duration {
        Some(duration) => duration,
        None => EpochDuration { secs: 0, subsec_nanos: 0 },
    }
}

/// The time elapsed since the Unix epoch. Ceils the result to 0, making 1970 the earliest time.
pub fn system_time_to_epoch_duration(system_time: std::time::SystemTime) -> (r: EpochDuration)
    ensures
        r == spec_epoch_duration_or_zero(unix_epoch_duration(system_time)),
        r.wf(),
{
    epoch_duration_or_zero(duration_since_unix_epoch(&system_time))
}

/// The current time as the time elapsed since the Unix epoch (at least 0). Which time that is
/// depends on the system clock: it is the one of some point in time.
pub fn now_as_epoch_duration() -> (r: EpochDuration)
    ensures
        r.wf(),
        exists|time: std::time::SystemTime|
            r == spec_epoch_duration_or_zero(#[trigger] unix_epoch_duration(time)),
{
    system_time_to_epoch_duration(system_time_now())
}

/// Whether the duration can be stated in 32-bit epoch seconds and as a `FILETIME` in an `i64`.
pub fn epoch_duration_in_range(duration: EpochDuration) -> (r: bool)
    ensures
        r == duration.in_range(),
{
    let nanos: u128 = duration.secs as u128 * 1_000_000_000u128 + duration.subsec_nanos as u128;
    duration.secs <= u32::MAX as u64 && nanos / 100 + (HECTONANOS_1601_TO_1970 as u128)
        <= i64::MAX as u128
}

/// The whole seconds of the duration, which must fit in 32 bits (up to the year 2106).
pub fn epoch_duration_to_epoch_secs(duration: EpochDuration) -> (r: u32)
    requires
        duration.secs <= u32::MAX,
    ensures
        r == duration.secs,
{
    duration.secs as u32
}

/// The duration as a `FILETIME` (100-nanosecond intervals since 1601-01-01, UTC).
pub fn epoch_duration_to_filetime(duration: EpochDuration) -> (r: i64)
    requires
        duration.filetime() <= i64::MAX,
    ensures
        r == duration.filetime(),
{
    let nanos: u128 = duration.secs as u128 * 1_000_000_000u128 + duration.subsec_nanos as u128;
    (nanos / 100) as i64 + HECTONANOS_1601_TO_1970
}

} // verus!
