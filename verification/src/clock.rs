//! The wall clock, in milliseconds since the Unix epoch.
use vstd::prelude::*;

verus! {

/// The current time in milliseconds since the Unix epoch (UTC).
/// Trusted: `chrono::Utc::now().timestamp_millis()`. Nothing is stated of the
/// value, which depends on the machine's clock; chrono's `Utc::now` panics if the
/// system time lies before the Unix epoch.
#[verifier::external_body]
pub fn now_millis() -> (t: i64) {
    chrono::Utc::now().timestamp_millis()
}

/// The current time as an unsigned millisecond count (times before the epoch read as 0).
pub fn now_millis_unsigned() -> (t: u64) {
    let t = now_millis();
    if t < 0 { 0 } else { t as u64 }
}

/// The chrono format patterns this library writes times with.
pub open spec fn known_pattern(p: Seq<char>) -> bool {
    p == "%Y%m%d_%H%M%S"@ || p == "%Y-%m-%d %H:%M:%S"@
}

/// Name for the text chrono writes for the UTC time `ms` (milliseconds since
/// the epoch, read as a signed count) with the format pattern `pattern`, or the
/// empty text when chrono cannot represent that time.
pub uninterp spec fn utc_text(ms: u64, pattern: Seq<char>) -> Seq<char>;

/// The UTC time `ms` written with a chrono format pattern.
/// Trusted: `chrono::DateTime::from_timestamp_millis(ms as i64)` formatted with
/// `pattern` (the empty string when chrono gives no time); the text is a
/// function of `ms` and `pattern` alone and is named `utc_text`. Only patterns
/// that chrono accepts are admitted, since writing an invalid one panics.
#[verifier::external_body]
pub fn format_utc(ms: u64, pattern: &str) -> (s: String)
    requires
        known_pattern(pattern@),
    ensures
        s@ == utc_text(ms, pattern@),
{
    match chrono::DateTime::from_timestamp_millis(ms as i64) {
        Some(t) => t.format(pattern).to_string(),
        None => String::new(),
    }
}

/// Name for the RFC 3339 text chrono writes for the UTC time `ms`
/// (milliseconds since the epoch, read as a signed count), or the empty text
/// when chrono cannot represent that time.
pub uninterp spec fn rfc3339_text(ms: u64) -> Seq<char>;

/// The UTC time `ms` in RFC 3339 form.
/// Trusted: `chrono::DateTime::from_timestamp_millis(ms as i64)` written with
/// `to_rfc3339` (the empty string when chrono gives no time); the text is a
/// function of `ms` alone and is named `rfc3339_text`.
#[verifier::external_body]
pub fn format_rfc3339(ms: u64) -> (s: String)
    ensures
        s@ == rfc3339_text(ms),
{
    match chrono::DateTime::from_timestamp_millis(ms as i64) {
        Some(t) => t.to_rfc3339(),
        None => String::new(),
    }
}

} // verus!
