//! The epoch half of the reset barrier: a reset advances the epoch, and a
//! writer that started under an earlier epoch learns that it was superseded.

use vstd::prelude::*;

verus! {

/// The epoch after a reset, as `AtomicU64::fetch_add(1)` leaves it (wrapping
/// past the largest value).
pub open spec fn bumped_epoch_of(e: u64) -> u64 {
    if e == u64::MAX {
        0
    } else {
        (e + 1) as u64
    }
}

/// The epoch after a reset.
pub fn bumped_epoch(e: u64) -> (r: u64)
    ensures
        r == bumped_epoch_of(e),
{
    if e == u64::MAX {
        0
    } else {
        e + 1
    }
}

/// A writer that started at `start_epoch` has been superseded when the
/// barrier's epoch has moved since.
pub open spec fn superseded_of(current: u64, start_epoch: u64) -> bool {
    current != start_epoch
}

/// Whether a writer that started at `start_epoch` has been superseded by a
/// reset, the barrier's epoch now being `current`.
pub fn superseded(current: u64, start_epoch: u64) -> (r: bool)
    ensures
        r == superseded_of(current, start_epoch),
{
    current != start_epoch
}

/// A reset always supersedes the writers that started before it, and a
/// writer that started after the last reset is never superseded.
pub proof fn law_reset_supersedes(start_epoch: u64)
    ensures
        superseded_of(bumped_epoch_of(start_epoch), start_epoch),
        !superseded_of(start_epoch, start_epoch),
{
}

} // verus!
