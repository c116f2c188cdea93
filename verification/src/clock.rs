//! The current time and fresh identifiers.

use vstd::prelude::*;

verus! {

#[verifier::external_type_specification]
#[verifier::external_body]
pub struct ExSystemTime(std::time::SystemTime);

#[verifier::external_type_specification]
#[verifier::external_body]
pub struct ExSystemTimeError(std::time::SystemTimeError);

/// `SystemTime::now`: the time of the call, of which nothing is known.
pub assume_specification[ std::time::SystemTime::now ]() -> std::time::SystemTime
;

/// `Duration::as_millis`: the whole milliseconds of a duration, of which
/// nothing is claimed.
pub assume_specification[ core::time::Duration::as_millis ](
    duration: &core::time::Duration,
) -> u128
;

/// `Duration::as_secs`: the whole seconds of a duration, of which nothing is
/// claimed.
pub assume_specification[ core::time::Duration::as_secs ](duration: &core::time::Duration) -> u64
;

/// `SystemTime::duration_since` with the Unix epoch: the time elapsed since
/// then, or an error when the clock stands before it. Nothing is claimed.
#[verifier::external_body]
fn since_epoch(
    time: &std::time::SystemTime,
) -> Result<core::time::Duration, std::time::SystemTimeError> {
    time.duration_since(std::time::UNIX_EPOCH)
}

/// A count of milliseconds held in 64 bits: the largest value stands for
/// every count that does not fit, zero for a clock before the epoch.
pub fn clamp_millis(elapsed: Option<u128>) -> (r: u64)
    ensures
        r == match elapsed {
            Some(millis) => if millis <= u64::MAX {
                millis as u64
            } else {
                u64::MAX
            },
            None => 0,
        },
{
    match elapsed {
        Some(millis) => if millis <= u64::MAX as u128 {
            millis as u64
        } else {
            u64::MAX
        },
        None => 0,
    }
}

/// A count of seconds: zero stands for a clock before the epoch.
pub fn clamp_seconds(elapsed: Option<u64>) -> (r: u64)
    ensures
        r == match elapsed {
            Some(seconds) => seconds,
            None => 0,
        },
{
    match elapsed {
        Some(seconds) => seconds,
        None => 0,
    }
}

/// Milliseconds since the Unix epoch: `clamp_millis` of what the clock says.
/// The value rests on the time of the call, so nothing is promised of it.
pub fn now_millis() -> u64 {
    let now = std::time::SystemTime::now();
    match since_epoch(&now) {
        Ok(elapsed) => clamp_millis(Some(elapsed.as_millis())),
        Err(_) => clamp_millis(None),
    }
}

/// Seconds since the Unix epoch: `clamp_seconds` of what the clock says. The
/// value rests on the time of the call, so nothing is promised of it.
pub fn now_seconds() -> u64 {
    let now = std::time::SystemTime::now();
    match since_epoch(&now) {
        Ok(elapsed) => clamp_seconds(Some(elapsed.as_secs())),
        Err(_) => clamp_seconds(None),
    }
}

/// How many characters an identifier has.
pub const ID_LENGTH: usize = 36;

/// `Uuid::new_v4` with `Uuid::to_string`: a random identifier in hyphenated
/// lower-case form, which has 36 characters. That two calls differ is not
/// claimed. It panics where the system gives no random bytes.
#[verifier::external_body]
pub(crate) fn new_id() -> (id: String)
    ensures
        id@.len() == ID_LENGTH,
{
    uuid::Uuid::new_v4().to_string()
}

/// `chrono::Utc::now` and `DateTime::to_rfc3339_opts`: the current time in UTC
/// with milliseconds, ending in `Z`. Nothing is claimed of the text. It panics
/// where the system clock stands before the Unix epoch.
#[verifier::external_body]
pub(crate) fn utc_text() -> String {
    chrono::Utc::now().to_rfc3339_opts(chrono::SecondsFormat::Millis, true)
}

} // verus!
