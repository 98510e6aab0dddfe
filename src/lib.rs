//! A stake program: stake accounts, their delegation to validators, warmup and
//! cooldown, authorities and lockups, and the instructions that change them.

use vstd::prelude::*;

pub mod state;
pub mod stake_history;
pub mod account;
pub mod error;
pub mod authority;
pub mod merge_kind;
pub mod handlers;
pub mod instruction;
pub mod vote;
pub mod movement;
pub mod sha256;
pub mod entrypoint;

verus! {

/// The minimum number of lamports a delegation must hold.
pub const MINIMUM_DELEGATION: u64 = 1_000_000_000;

/// The epoch up to which warmup and cooldown go at nine hundredths of the
/// cluster's effective stake per epoch; from it on they go at one quarter.
pub const WARMUP_COOLDOWN_RATE_CUTOFF_EPOCH: u64 = u64::MAX;

/// Returns the minimum delegation amount.
pub fn get_minimum_delegation() -> (r: u64)
    ensures
        r == MINIMUM_DELEGATION,
{
    MINIMUM_DELEGATION
}

} // verus!
