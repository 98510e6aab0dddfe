//! Error kinds: the runtime's, and the stake program's own codes.

use vstd::prelude::*;

verus! {

/// Errors shared with the runtime, and the program's own codes under `Custom`.
#[derive(Clone, Copy, Debug, PartialEq, Eq, Structural)]
pub enum ProgramError {
    NotEnoughAccountKeys,
    InvalidAccountData,
    InvalidAccountOwner,
    IncorrectProgramId,
    InvalidInstructionData,
    InvalidArgument,
    MissingRequiredSignature,
    InsufficientFunds,
    ArithmeticOverflow,
    Custom(u32),
}

/// Errors specific to the stake program.
#[derive(Clone, Copy, Debug, PartialEq, Eq, Structural)]
pub enum StakeError {
    AlreadyDeactivated,
    InsufficientDelegation,
    VoteAddressMismatch,
    MergeMismatch,
    LockupInForce,
    InsufficientReferenceVotes,
    MinimumDelinquentEpochsForDeactivationNotMet,
    TooSoonToRedelegate,
    EpochRewardsActive,
    InsufficientStake,
}

/// The stable numeric code of a stake error.
pub open spec fn stake_error_code(e: StakeError) -> u32 {
    match e {
        StakeError::AlreadyDeactivated => 0x11,
        StakeError::InsufficientDelegation => 0x12,
        StakeError::VoteAddressMismatch => 0x13,
        StakeError::MergeMismatch => 0x14,
        StakeError::LockupInForce => 0x15,
        StakeError::InsufficientReferenceVotes => 0x16,
        StakeError::MinimumDelinquentEpochsForDeactivationNotMet => 0x17,
        StakeError::TooSoonToRedelegate => 0x18,
        StakeError::EpochRewardsActive => 0x19,
        StakeError::InsufficientStake => 0x1a,
    }
}

pub open spec fn stake_err(e: StakeError) -> ProgramError {
    ProgramError::Custom(stake_error_code(e))
}

/// Wraps a stake error in the runtime's error type.
pub fn to_program_error(e: StakeError) -> (r: ProgramError)
    ensures
        r == stake_err(e),
{
    let code: u32 = match e {
        StakeError::AlreadyDeactivated => 0x11,
        StakeError::InsufficientDelegation => 0x12,
        StakeError::VoteAddressMismatch => 0x13,
        StakeError::MergeMismatch => 0x14,
        StakeError::LockupInForce => 0x15,
        StakeError::InsufficientReferenceVotes => 0x16,
        StakeError::MinimumDelinquentEpochsForDeactivationNotMet => 0x17,
        StakeError::TooSoonToRedelegate => 0x18,
        StakeError::EpochRewardsActive => 0x19,
        StakeError::InsufficientStake => 0x1a,
    };
    ProgramError::Custom(code)
}

} // verus!
