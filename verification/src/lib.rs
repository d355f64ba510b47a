//! A stateful sampler that converts raw, monotonically increasing
//! operating-system counters (CPU tick counts, network interface counters,
//! process resource records, memory figures) into point-in-time usage
//! metrics: percentages, rates, and deltas between successive observations.
//!
//! Reading the counters is delegated to an external OS adapter; every
//! `refresh_*` entry point here takes the raw snapshot as a plain value and
//! performs the delta tracking, percentage derivation, and table maintenance.

use vstd::prelude::*;

pub mod disk;
pub mod network;
pub mod process;
pub mod processor;
pub mod system;

verus! {

/// The difference between a cumulative counter's current and previously
/// observed value, clamped to zero when the counter moved backwards
/// (counter reset or wraparound): a rollback is never reported as a
/// negative rate.
pub open spec fn clamped_delta(cur: u64, prev: u64) -> int {
    if cur >= prev {
        cur - prev
    } else {
        0
    }
}

/// Executable counterpart of [`clamped_delta`].
pub fn delta_u64(cur: u64, prev: u64) -> (r: u64)
    ensures
        r == clamped_delta(cur, prev),
{
    if cur >= prev {
        cur - prev
    } else {
        0
    }
}

} // verus!
