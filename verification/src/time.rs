//! Wall-clock time in milliseconds.

use vstd::prelude::*;

verus! {

/// The 64-bit two's-complement reading of the low 64 bits of `millis`: what
/// a count of milliseconds becomes when it is stored in an `i64`.
pub open spec fn millis_as_i64(millis: int) -> int {
    let low = millis % 0x1_0000_0000_0000_0000;
    if low >= 0x8000_0000_0000_0000 {
        low - 0x1_0000_0000_0000_0000
    } else {
        low
    }
}

/// The clock reading as an `i64`: the time since the Unix epoch if the clock
/// could be read, zero otherwise.
pub open spec fn now_ms_from(since_epoch_millis: Option<u128>) -> int {
    match since_epoch_millis {
        Some(m) => millis_as_i64(m as int),
        None => 0,
    }
}

/// A duration in milliseconds as an `i64`, `i64::MAX` if it does not fit.
pub open spec fn duration_ms_spec(elapsed_millis: u128) -> int {
    if elapsed_millis > i64::MAX {
        i64::MAX as int
    } else {
        elapsed_millis as int
    }
}

/// `std::time::SystemTime`, as an opaque value.
#[verifier::external_type_specification]
#[verifier::external_body]
pub struct ExSystemTime(std::time::SystemTime);

/// `std::time::SystemTime::now`: the system clock's reading. Nothing is
/// promised of it.
#[verifier::external_body]
pub(crate) fn system_time_now() -> std::time::SystemTime {
    std::time::SystemTime::now()
}

/// `std::time::SystemTime::duration_since` with `UNIX_EPOCH`: the time that
/// has passed since the Unix epoch, or `None` for an instant before it.
#[verifier::external_body]
pub(crate) fn since_unix_epoch(instant: &std::time::SystemTime) -> Option<std::time::Duration> {
    match instant.duration_since(std::time::UNIX_EPOCH) {
        Ok(elapsed) => Some(elapsed),
        Err(_) => None,
    }
}

/// `std::time::Duration::as_millis`: the whole milliseconds of a duration.
#[verifier::external_body]
pub(crate) fn whole_millis(duration: &std::time::Duration) -> u128 {
    duration.as_millis()
}

/// The milliseconds since the Unix epoch by the system clock, or `None`
/// when the clock is set before the epoch.
fn unix_time_millis() -> Option<u128> {
    let now = system_time_now();
    match since_unix_epoch(&now) {
        Some(elapsed) => Some(whole_millis(&elapsed)),
        None => None,
    }
}

/// Turns a clock reading into the gateway's timestamp.
pub fn timestamp_ms(since_epoch_millis: Option<u128>) -> (r: i64)
    ensures
        r == now_ms_from(since_epoch_millis),
{
    match since_epoch_millis {
        Some(m) => {
            let low: u128 = m % 0x1_0000_0000_0000_0000;
            if low >= 0x8000_0000_0000_0000 {
                let below: u128 = 0x1_0000_0000_0000_0000 - low;
                if below == 0x8000_0000_0000_0000 {
                    i64::MIN
                } else {
                    -(below as i64)
                }
            } else {
                low as i64
            }
        },
        None => 0,
    }
}

/// The current time in milliseconds since the Unix epoch; zero if the clock
/// is set before the epoch.
pub fn now_ms() -> (r: i64)
    ensures
        exists|since_epoch_millis: Option<u128>| r == #[trigger] now_ms_from(since_epoch_millis),
{
    let reading = unix_time_millis();
    let r = timestamp_ms(reading);
    assert(r == now_ms_from(reading));
    r
}

/// A duration in milliseconds as an `i64`, saturating.
pub fn duration_ms(elapsed_millis: u128) -> (r: i64)
    ensures
        r == duration_ms_spec(elapsed_millis),
{
    if elapsed_millis > 0x7fff_ffff_ffff_ffff {
        i64::MAX
    } else {
        elapsed_millis as i64
    }
}

} // verus!
