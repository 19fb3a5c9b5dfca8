//! The wall clock.

use vstd::prelude::*;

verus! {

/// Reads the wall clock through `chrono::Utc::now` and
/// `DateTime::timestamp`: seconds since the Unix epoch. Nothing is claimed
/// of the value; two readings may differ in either direction. `chrono`
/// stops the program if the clock reads earlier than the epoch.
#[verifier::external_body]
pub(crate) fn unix_seconds() -> u64 {
    chrono::Utc::now().timestamp() as u64
}

} // verus!
