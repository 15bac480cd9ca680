//! Identifiers and timestamps that the stores hand out, taken from `uuid` and `chrono`.
use vstd::prelude::*;

use crate::store::Timestamp;

verus! {

/// Calls `uuid::Uuid::new_v4` and gives the value of the UUID. The value is random; what
/// holds of every outcome is what `new_v4` sets: the version nibble (bits 76 to 79) is 4
/// and the variant bits (62 and 63) are `10`. `new_v4` panics when the operating system
/// gives no random bytes, which no argument decides.
#[verifier::external_body]
pub(crate) fn new_event_id() -> (id: u128)
    ensures
        (id >> 76u128) & 0xfu128 == 4,
        (id >> 62u128) & 0x3u128 == 2,
{
    uuid::Uuid::new_v4().as_u128()
}

/// Calls `uuid::Uuid::as_u64_pair` on the UUID whose value is `id`: its most significant
/// 64 bits, then its least significant 64 bits.
#[verifier::external_body]
pub(crate) fn uuid_u64_pair(id: u128) -> (pair: (u64, u64))
    ensures
        pair.0 == (id >> 64u128) as u64,
        pair.1 == id as u64,
{
    uuid::Uuid::from_u128(id).as_u64_pair()
}

/// Calls `chrono::Utc::now` and gives the instant as its seconds since the UNIX epoch
/// (`timestamp`) and the nanoseconds within that second (`timestamp_subsec_nanos`).
/// Nothing is promised of the value: it is the time. `now` panics when the system clock
/// is set before the epoch, which no argument decides.
#[verifier::external_body]
pub(crate) fn now() -> Timestamp {
    let now = chrono::Utc::now();
    Timestamp { secs: now.timestamp(), nanos: now.timestamp_subsec_nanos() }
}

} // verus!
