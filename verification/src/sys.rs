//! Process-local sources of identity and time.
//!
//! Both values depend on the machine and the moment of the call, so nothing
//! is promised of them; callers state what holds of every outcome.

use vstd::prelude::*;

verus! {

/// Relies on uuid::Uuid::new_v4 for a fresh random 128-bit identifier.
/// The result is random; no two calls are promised distinct, and callers
/// must not assume anything about the value.
#[verifier::external_body]
pub fn fresh_uuid() -> u128 {
    uuid::Uuid::new_v4().as_u128()
}

/// Relies on time::OffsetDateTime::now_utc for the current UTC time, returned
/// as nanoseconds since the Unix epoch. Nothing is promised of the value.
#[verifier::external_body]
pub fn now_nanos() -> i64 {
    time::OffsetDateTime::now_utc().unix_timestamp_nanos() as i64
}

} // verus!
