use vstd::prelude::*;

verus! {

/// Relies on chrono's UTC clock: the milliseconds since the Unix epoch.
#[verifier::external_body]
fn utc_millis() -> (r: i64) {
    chrono::Utc::now().timestamp_millis()
}

/// The clock reading a generation is stamped with, clamped to the epoch.
pub fn now_millis() -> (r: u64) {
    let ms = utc_millis();
    if ms < 0 {
        0
    } else {
        ms as u64
    }
}

/// Relies on chrono's UTC clock and date formatting: today's calendar
/// date, written `YYYY-MM-DD`.
#[verifier::external_body]
fn today_utc_raw() -> (r: String) {
    chrono::Utc::now().format("%Y-%m-%d").to_string()
}

/// Today's calendar date in UTC.
pub fn today_utc() -> (r: String) {
    today_utc_raw()
}

/// Relies on chrono's local clock and formatting: a `YYYYMMDD_HHMMSS`
/// stamp for file names.
#[verifier::external_body]
fn file_timestamp_raw() -> (r: String) {
    chrono::Local::now().format("%Y%m%d_%H%M%S").to_string()
}

/// The local-time stamp that makes export file names unique.
pub fn file_timestamp() -> (r: String) {
    file_timestamp_raw()
}

} // verus!
