//! Fresh identifiers and the time of day, from the outside world.
use vstd::prelude::*;

verus! {

/// Relies on uuid::Uuid::new_v4: a random identifier in its hyphenated text form.
#[verifier::external_body]
pub(crate) fn fresh_id() -> (r: String) {
    uuid::Uuid::new_v4().to_string()
}

/// Relies on chrono::Utc::now: the current time, in milliseconds since the Unix epoch.
#[verifier::external_body]
pub(crate) fn now_millis() -> (r: i64) {
    chrono::Utc::now().timestamp_millis()
}

} // verus!
