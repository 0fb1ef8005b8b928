//! Wall-clock timestamps in microseconds since the Unix epoch.
use std::time::{SystemTime, SystemTimeError, Duration, UNIX_EPOCH};
use vstd::prelude::*;

verus! {

/// The standard library's wall-clock instant.
#[verifier::external_type_specification]
#[verifier::external_body]
pub struct ExSystemTime(SystemTime);

/// The error the standard library reports for an instant before the epoch.
#[verifier::external_type_specification]
#[verifier::external_body]
pub struct ExSystemTimeError(SystemTimeError);

/// The span from the Unix epoch to an instant, when the instant is not
/// before the epoch.
pub uninterp spec fn span_since_epoch(t: SystemTime) -> Option<Duration>;

/// The whole number of microseconds in a span.
pub uninterp spec fn span_micros(d: Duration) -> u128;

/// `SystemTime::now`: the current wall-clock instant. Nothing is claimed of
/// the value: it is whatever the clock reads.
#[verifier::external_body]
fn system_now() -> SystemTime {
    SystemTime::now()
}

/// `SystemTime::duration_since` against `UNIX_EPOCH`: the span since the
/// epoch, or an error when the instant lies before it.
#[verifier::external_body]
fn elapsed_since_epoch(t: &SystemTime) -> (r: Result<Duration, SystemTimeError>)
    ensures
        r is Ok <==> span_since_epoch(*t) is Some,
        r matches Ok(d) ==> span_since_epoch(*t) == Some(d),
{
    t.duration_since(UNIX_EPOCH)
}

/// `Duration::as_micros`: the whole number of microseconds in a span.
#[verifier::external_body]
fn whole_micros(d: &Duration) -> (r: u128)
    ensures
        r == span_micros(*d),
{
    d.as_micros()
}

/// The timestamp an instant gives: its whole microseconds since the epoch,
/// truncated to 64 bits, or `None` for an instant before the epoch.
pub open spec fn timestamp_of(t: SystemTime) -> Option<u64> {
    match span_since_epoch(t) {
        Some(d) => Some(span_micros(d) as u64),
        None => None,
    }
}

/// Turns the microseconds elapsed since the epoch (`None` when the clock
/// reads before it) into a 64-bit timestamp, keeping the low 64 bits.
pub fn micros_from_elapsed(elapsed: Option<u128>) -> (r: Option<u64>)
    ensures
        r == match elapsed {
            Some(m) => Some(m as u64),
            None => None::<u64>,
        },
{
    match elapsed {
        Some(m) => Some(m as u64),
        None => None,
    }
}

/// Microseconds since the Unix epoch, truncated to 64 bits, as the clock
/// reads now; `None` when the clock reads before the epoch. Which instant the
/// clock gives is not stated: it is the clock's reading.
pub fn now_micros() -> (r: Option<u64>)
    ensures
        exists|t: SystemTime| r == timestamp_of(t),
{
    let now = system_now();
    let elapsed = match elapsed_since_epoch(&now) {
        Ok(d) => Some(whole_micros(&d)),
        Err(_) => None,
    };
    let r = micros_from_elapsed(elapsed);
    proof {
        assert(r == timestamp_of(now));
    }
    r
}

} // verus!
