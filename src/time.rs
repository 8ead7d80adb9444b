//! Clock readings and expiry times.

use std::time::{SystemTime, UNIX_EPOCH};
use vstd::prelude::*;

verus! {

/// Relies on `SystemTime::now` and `duration_since(UNIX_EPOCH)`: the time since
/// the epoch in whole seconds, `None` when the clock reads before the epoch.
#[verifier::external_body]
fn epoch_secs() -> (r: Option<u64>) {
    SystemTime::now().duration_since(UNIX_EPOCH).ok().map(|d| d.as_secs())
}

/// Relies on `SystemTime::now` and `duration_since(UNIX_EPOCH)`: the time since
/// the epoch in whole milliseconds, `None` when the clock reads before the epoch.
#[verifier::external_body]
fn epoch_millis() -> (r: Option<u128>) {
    SystemTime::now().duration_since(UNIX_EPOCH).ok().map(|d| d.as_millis())
}

/// Seconds since the epoch; 0 if the clock reads before it.
pub fn current_timestamp_secs() -> (r: i64)
    ensures
        r >= 0,
{
    match epoch_secs() {
        Some(s) => if s <= i64::MAX as u64 {
            s as i64
        } else {
            i64::MAX
        },
        None => 0,
    }
}

/// Milliseconds since the epoch; 0 if the clock reads before it.
pub fn current_timestamp_millis() -> (r: u64) {
    match epoch_millis() {
        Some(ms) => if ms <= u64::MAX as u128 {
            ms as u64
        } else {
            u64::MAX
        },
        None => 0,
    }
}

pub open spec fn clamp_i64(x: int) -> int {
    if x > i64::MAX {
        i64::MAX as int
    } else if x < i64::MIN {
        i64::MIN as int
    } else {
        x
    }
}

/// The expiry time `duration_secs` after `now`, held within the range of `i64`.
pub fn ttl_at(now: i64, duration_secs: i64) -> (r: i64)
    ensures
        r as int == clamp_i64(now + duration_secs),
{
    let sum = now as i128 + duration_secs as i128;
    if sum > i64::MAX as i128 {
        i64::MAX
    } else if sum < i64::MIN as i128 {
        i64::MIN
    } else {
        sum as i64
    }
}

/// The expiry time `duration_secs` from now.
pub fn calculate_ttl(duration_secs: i64) -> (r: i64)
    ensures
        exists|now: int| 0 <= now <= i64::MAX && r as int == #[trigger] clamp_i64(now + duration_secs),
        duration_secs >= 0 ==> r >= duration_secs,
{
    let now = current_timestamp_secs();
    let r = ttl_at(now, duration_secs);
    assert(0 <= now as int <= i64::MAX && r as int == clamp_i64(now as int + duration_secs));
    r
}

} // verus!
