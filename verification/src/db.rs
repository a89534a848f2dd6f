//! Staged item and scene records, and the wall clock they are stamped with.

use std::time::{Duration, SystemTime};

use vstd::prelude::*;

verus! {

/// A staged file, folder, shortcut or text, as stored.
pub struct StagedItem {
    pub id: i64,
    pub pod_id: i64,
    pub kind: String,
    pub staging_path: String,
    pub original_path: Option<String>,
    pub name: String,
    pub ext: Option<String>,
    pub size: i64,
    pub created_at: i64,
}

/// A named group of items.
pub struct Scene {
    pub id: i64,
    pub name: String,
    pub sort: i64,
    pub created_at: i64,
}

#[verifier::external_type_specification]
#[verifier::external_body]
pub struct ExSystemTime(SystemTime);

/// `SystemTime::now`.
///
/// Trusted, with nothing stated: the result is the machine's clock.
#[verifier::external_body]
fn system_time_now() -> SystemTime {
    SystemTime::now()
}

/// `SystemTime::duration_since(UNIX_EPOCH)`, with the error (a clock before
/// 1970) turned into `None`.
///
/// Trusted, with nothing stated: the result depends on the clock reading.
#[verifier::external_body]
fn since_unix_epoch(t: &SystemTime) -> Option<Duration> {
    t.duration_since(std::time::UNIX_EPOCH).ok()
}

/// `Duration::as_millis`.
///
/// Trusted, with nothing stated: a `Duration` is opaque here.
#[verifier::external_body]
fn duration_millis(d: &Duration) -> u128 {
    d.as_millis()
}

/// The stamp for a clock reading of `ms` milliseconds after the Unix epoch,
/// truncated to `i64`; 0 for a reading before the epoch (`None`).
pub open spec fn epoch_millis_spec(ms: Option<u128>) -> i64 {
    match ms {
        Some(m) => m as i64,
        None => 0,
    }
}

/// The unsigned stamp for the same reading, truncated to `u64`.
pub open spec fn epoch_millis_unsigned_spec(ms: Option<u128>) -> u64 {
    match ms {
        Some(m) => m as u64,
        None => 0,
    }
}

pub fn epoch_millis(ms: Option<u128>) -> (r: i64)
    ensures
        r == epoch_millis_spec(ms),
{
    match ms {
        Some(m) => m as i64,
        None => 0,
    }
}

pub fn epoch_millis_unsigned(ms: Option<u128>) -> (r: u64)
    ensures
        r == epoch_millis_unsigned_spec(ms),
{
    match ms {
        Some(m) => m as u64,
        None => 0,
    }
}

/// The clock, read once, as milliseconds after the epoch; `None` before it.
fn read_clock_millis() -> Option<u128> {
    let t = system_time_now();
    match since_unix_epoch(&t) {
        Some(d) => Some(duration_millis(&d)),
        None => None,
    }
}

/// Milliseconds since the Unix epoch, truncated to `i64`, or 0 when the clock
/// reads before the epoch.  The reading is the machine's; the stamp made of it
/// is `epoch_millis`.
pub fn now_ms() -> (r: i64)
    ensures
        exists|ms: Option<u128>| r == #[trigger] epoch_millis_spec(ms),
{
    let ms = read_clock_millis();
    epoch_millis(ms)
}

/// The same clock, as the unsigned count the staging guard keeps.
pub fn now_ms_unsigned() -> (r: u64)
    ensures
        exists|ms: Option<u128>| r == #[trigger] epoch_millis_unsigned_spec(ms),
{
    let ms = read_clock_millis();
    epoch_millis_unsigned(ms)
}

} // verus!
