//! Wall-clock reader. The store's logic takes the current time as an explicit
//! argument, so everything downstream of this one reading is verified for
//! every value the clock may hand back.

use vstd::prelude::*;

verus! {

/// Relies on `std::time::SystemTime::now`: the seconds elapsed since the Unix
/// epoch, or zero if the system clock reads earlier than the epoch. Nothing
/// can be promised of the value itself.
#[verifier::external_body]
pub(crate) fn now_seconds() -> u64 {
    std::time::SystemTime::now()
        .duration_since(std::time::UNIX_EPOCH)
        .map(|d| d.as_secs())
        .unwrap_or(0)
}

} // verus!
