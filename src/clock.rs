use vstd::prelude::*;

verus! {

/// Relies on chrono's `Utc::now`: the current time, in microseconds since the
/// Unix epoch. Nothing is promised of the value.
#[verifier::external_body]
pub(crate) fn now_micros() -> (r: i64) {
    chrono::Utc::now().timestamp_micros()
}

/// Relies on atrium_api's `Datetime::now`: the current time, written as a
/// Lexicon datetime string. Nothing is promised of the value.
#[verifier::external_body]
pub(crate) fn record_datetime_now() -> (r: String) {
    atrium_api::types::string::Datetime::now().as_str().to_string()
}

} // verus!
