//! Timestamps in seconds since the Unix epoch, and the start of the day in
//! UTC+8.
use vstd::prelude::*;

verus! {

/// A reading of the system clock: whole seconds after the Unix epoch, or
/// whole seconds before it when the clock is set earlier.
#[derive(Debug, Clone, Copy, PartialEq, Eq, Structural)]
pub enum ClockReading {
    After(u64),
    Before(u64),
}

/// The system clock, by `SystemTime::now().duration_since(UNIX_EPOCH)`: the
/// whole seconds of the duration, or of the error's duration when the clock
/// reads before the epoch. Nothing is promised of the reading.
#[verifier::external_body]
fn system_seconds() -> (r: ClockReading) {
    match std::time::SystemTime::now().duration_since(std::time::UNIX_EPOCH) {
        Ok(d) => ClockReading::After(d.as_secs()),
        Err(e) => ClockReading::Before(e.duration().as_secs()),
    }
}

/// The timestamp of a clock reading: its whole seconds as a signed number,
/// negative before the epoch (the earliest timestamp for a reading further
/// back than a signed number reaches).
pub open spec fn timestamp_of_spec(reading: ClockReading) -> i64 {
    match reading {
        ClockReading::After(s) => s as i64,
        ClockReading::Before(s) => if s <= i64::MAX as u64 { (-(s as int)) as i64 } else { i64::MIN },
    }
}

/// The timestamp of a clock reading.
pub fn timestamp_of(reading: ClockReading) -> (r: i64)
    ensures
        r == timestamp_of_spec(reading),
{
    match reading {
        ClockReading::After(s) => s as i64,
        ClockReading::Before(s) => if s <= i64::MAX as u64 { -(s as i64) } else { i64::MIN },
    }
}

/// The current timestamp, in seconds since the Unix epoch (negative when
/// the clock reads before it), whatever the clock reads.
pub fn get_current_timestamp() -> (r: i64)
    ensures
        exists|reading: ClockReading| r == #[trigger] timestamp_of_spec(reading),
{
    let reading = system_seconds();
    timestamp_of(reading)
}

/// The seconds of UTC+8 ahead of UTC.
pub open spec fn utc8_offset() -> int {
    28800
}

/// The start, in UTC+8, of the day of timestamp `t`: `t` less the remainder
/// by a day of `t + 8h`, the remainder taking the sign of `t + 8h` (Rust's `%`).
pub open spec fn day_start(t: int) -> int {
    let s = t + utc8_offset();
    if s >= 0 {
        t - s % 86400
    } else {
        t + (-s) % 86400
    }
}

/// The start, in UTC+8, of the day of `t`.
pub fn day_start_of(t: i64) -> (r: i64)
    ensures
        r == day_start(t as int),
{
    let s: i128 = t as i128 + 28800;
    let rem: i128 = s % 86400;
    proof {
        if s >= 0 {
            assert(0 <= rem < 86400);
            assert(t >= -28800);
        } else {
            assert(-86400 < rem <= 0);
            assert(t < -28800);
        }
    }
    (t as i128 - rem) as i64
}

/// The start, in UTC+8, of the current day.
pub fn get_today_start_timestamp_utc8() -> (r: i64)
    ensures
        exists|reading: ClockReading| r == day_start(#[trigger] timestamp_of_spec(reading) as int),
{
    let reading = system_seconds();
    let t = timestamp_of(reading);
    day_start_of(t)
}

/// The UTC+8 start of the day of a timestamp no earlier than eight hours
/// before the epoch is a midnight in UTC+8 (eight hours past a multiple of a
/// day, less), at most the timestamp and less than a day before it.
pub proof fn law_day_start_bounds(t: int)
    requires
        t + utc8_offset() >= 0,
    ensures
        (day_start(t) + utc8_offset()) % 86400 == 0,
        day_start(t) <= t < day_start(t) + 86400,
{
    let s = t + 28800;
    assert((s - s % 86400) % 86400 == 0) by (nonlinear_arith)
        requires
            s >= 0,
    {}
}

} // verus!
