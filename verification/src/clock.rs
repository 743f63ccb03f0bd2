//! Wall-clock time in milliseconds, and ages measured against it.
use std::time::Duration;
use std::time::SystemTime;
use vstd::prelude::*;

verus! {

/// Milliseconds since the Unix epoch.
pub type TimeStamp = u64;

#[verifier::external_type_specification]
#[verifier::external_body]
pub struct ExSystemTime(SystemTime);

/// `SystemTime::now`: the current reading of the system clock. Nothing is
/// claimed of the reading.
#[verifier::external_body]
fn wall_clock() -> (t: SystemTime) {
    SystemTime::now()
}

/// `SystemTime::duration_since` against `UNIX_EPOCH`: the time passed since the
/// epoch, or `None` when the reading lies before it. Nothing is claimed of the
/// value.
#[verifier::external_body]
fn since_epoch(t: &SystemTime) -> (d: Option<Duration>) {
    match t.duration_since(SystemTime::UNIX_EPOCH) {
        Ok(d) => Some(d),
        Err(_) => None,
    }
}

/// `Duration::as_millis`: the whole milliseconds in a duration. Nothing is
/// claimed of the value.
#[verifier::external_body]
fn whole_millis(d: &Duration) -> (ms: u128) {
    d.as_millis()
}

/// The current time in milliseconds since the Unix epoch.
///
/// The clock is read, and [`timestamp_of`] turns the reading into a time
/// stamp, so the call never fails.
pub fn get_timestamp() -> (now: TimeStamp) {
    let reading = wall_clock();
    match since_epoch(&reading) {
        Some(d) => timestamp_of(Some(whole_millis(&d))),
        None => timestamp_of(None),
    }
}

/// The time stamp for a reading of the clock in milliseconds since the epoch,
/// where `None` is a clock that reads before the epoch: such a clock counts
/// as the epoch itself, and a reading too large for 64 bits as the largest
/// time stamp.
pub open spec fn stamp_of(reading: Option<u128>) -> TimeStamp {
    match reading {
        Some(ms) => if ms > u64::MAX {
            u64::MAX
        } else {
            ms as u64
        },
        None => 0,
    }
}

/// Turns a reading of the clock, in milliseconds since the epoch, into a time
/// stamp: 0 for a clock that reads before the epoch, `u64::MAX` for a reading
/// too large for 64 bits, the reading itself otherwise.
pub fn timestamp_of(reading: Option<u128>) -> (now: TimeStamp)
    ensures
        now == stamp_of(reading),
{
    match reading {
        Some(ms) => {
            if ms > 0xffff_ffff_ffff_ffffu128 {
                u64::MAX
            } else {
                ms as u64
            }
        },
        None => 0,
    }
}

/// The time from `then` to `now`, and 0 when `then` lies in the future of `now`.
pub open spec fn age(now: TimeStamp, then: TimeStamp) -> u64 {
    if now >= then {
        (now - then) as u64
    } else {
        0
    }
}

/// Milliseconds elapsed from `then` to `now`; a clock that stepped backwards
/// counts as no time passed.
pub fn elapsed(then: TimeStamp, now: TimeStamp) -> (idle: u64)
    ensures
        idle == age(now, then),
{
    if now >= then {
        now - then
    } else {
        0
    }
}

} // verus!
