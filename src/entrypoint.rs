//! Payload decoding and routing of instructions to their handlers.

use vstd::prelude::*;
use vstd::bytes::*;
use vstd::slice::slice_subrange;

use crate::account::{lemma_total_conserved, reserves_kept, total_lamports, spec_stake_program_id, stake_program_id, AccountInfo, InvokeContext};
use crate::error::{stake_err, to_program_error, ProgramError, StakeError};
use crate::handlers::{
    initialize, process_authorize, process_authorize_checked, process_authorize_checked_with_seed,
    process_authorized_with_seeds, process_deactivate, process_deactivate_delinquent, process_delegate,
    process_initialize_checked, process_set_lockup_checked, process_set_lockup_parsed, process_withdraw,
};
use crate::instruction::{
    canonical_shape, compact_lockup, deserialize, encode_instruction, AuthorizeCheckedWithSeedArgs,
    LockupCheckedArgs, StakeInstruction,
};
use crate::handlers::{
    initialize_post, process_authorize_checked_post, process_authorize_checked_with_seed_post,
    process_authorize_post, process_authorized_with_seeds_post, process_deactivate_delinquent_post,
    process_deactivate_post, process_delegate_post, process_initialize_checked_post,
    process_set_lockup_checked_post, process_set_lockup_parsed_post, process_withdraw_post,
};
use crate::instruction::instruction_wf;
use crate::movement::{
    process_merge, process_merge_post, process_move_lamports, process_move_lamports_post, process_move_stake,
    process_move_stake_post, process_split, process_split_post,
};
use crate::state::{keys_eq, StakeAuthorize};
use crate::MINIMUM_DELEGATION;

verus! {

/// The instruction that a short payload (one to three bytes) stands for: its
/// first byte names it; a checked lockup change carries its compact payload (the
/// flag byte and the flagged fields) after it.
pub open spec fn short_form(b: Seq<u8>, ix: StakeInstruction) -> bool {
    let t = b[0];
    let rest = b.subrange(1, b.len() as int);
    if t == 2 {
        ix is DelegateStake
    } else if t == 5 {
        ix is Deactivate
    } else if t == 9 {
        ix is InitializeChecked
    } else if t == 10 {
        ix == StakeInstruction::AuthorizeChecked(StakeAuthorize::Staker)
    } else if t == 11 {
        ix matches StakeInstruction::AuthorizeCheckedWithSeed(a) && a.stake_authorize == StakeAuthorize::Staker
            && a.authority_seed@.len() == 0 && a.authority_owner@ == crate::state::zeros(32)
    } else if t == 12 {
        ix matches StakeInstruction::SetLockupChecked(l) && compact_lockup(rest, false) matches Some(c)
            && l.unix_timestamp == c.unix_timestamp && l.epoch == c.epoch
    } else if t == 13 {
        ix is GetMinimumDelegation
    } else {
        false
    }
}

/// Payloads that decode: the empty payload, a known short form, or the
/// canonical form.
pub open spec fn payload_decodes(b: Seq<u8>) -> bool {
    if b.len() == 0 {
        true
    } else if b.len() < 4 {
        let t = b[0];
        t == 2 || t == 5 || t == 9 || t == 10 || t == 11 || t == 13 || (t == 12
            && compact_lockup(b.subrange(1, b.len() as int), false) is Some)
    } else {
        canonical_shape(b)
    }
}

/// The instruction that a payload stands for: `DeactivateDelinquent` for the
/// empty payload, the short form under four bytes, the canonical form otherwise.
pub open spec fn payload_means(b: Seq<u8>, ix: StakeInstruction) -> bool {
    if b.len() == 0 {
        ix is DeactivateDelinquent
    } else if b.len() < 4 {
        short_form(b, ix)
    } else {
        encode_instruction(ix) == b && instruction_wf(ix)
    }
}

pub open spec fn unit_result(r: Result<Option<Vec<u8>>, ProgramError>) -> Result<(), ProgramError> {
    match r {
        Ok(_) => Ok(()),
        Err(e) => Err(e),
    }
}

/// What running `ix` guarantees, instruction by instruction: the contract of its
/// handler.
pub open spec fn instruction_post(ix: StakeInstruction, o: Seq<AccountInfo>, n: Seq<AccountInfo>, r: Result<(), ProgramError>, ctx: InvokeContext) -> bool {
    match ix {
        StakeInstruction::Initialize(a, l) => initialize_post(o, n, r, a, l, ctx),
        StakeInstruction::Authorize(k, a) => process_authorize_post(o, n, r, k, a, ctx),
        StakeInstruction::DelegateStake => process_delegate_post(o, n, r, ctx),
        StakeInstruction::Split(v) => process_split_post(o, n, r, v, ctx),
        StakeInstruction::Withdraw(v) => process_withdraw_post(o, n, r, v, ctx),
        StakeInstruction::Deactivate => process_deactivate_post(o, n, r, ctx),
        StakeInstruction::SetLockup(args) => process_set_lockup_parsed_post(o, n, r, args, ctx),
        StakeInstruction::Merge => process_merge_post(o, n, r, ctx),
        StakeInstruction::AuthorizeWithSeed(args) => process_authorized_with_seeds_post(o, n, r, args, ctx),
        StakeInstruction::InitializeChecked => process_initialize_checked_post(o, n, r, ctx),
        StakeInstruction::AuthorizeChecked(a) => process_authorize_checked_post(o, n, r, a, ctx),
        StakeInstruction::AuthorizeCheckedWithSeed(args) => process_authorize_checked_with_seed_post(o, n, r, args, ctx),
        StakeInstruction::SetLockupChecked(args) => process_set_lockup_checked_post(o, n, r, args, ctx),
        StakeInstruction::GetMinimumDelegation => r is Ok && n == o,
        StakeInstruction::DeactivateDelinquent => process_deactivate_delinquent_post(o, n, r, ctx),
        StakeInstruction::Redelegate => r == Err::<(), ProgramError>(ProgramError::InvalidInstructionData) && n == o,
        StakeInstruction::MoveStake(v) => process_move_stake_post(o, n, r, v, ctx),
        StakeInstruction::MoveLamports(v) => process_move_lamports_post(o, n, r, v, ctx),
    }
}

/// What `dispatch` guarantees: the handler's contract, return data only for
/// `GetMinimumDelegation`, and on success conserved lamports and kept reserves.
pub open spec fn dispatch_post(ix: StakeInstruction, o: Seq<AccountInfo>, n: Seq<AccountInfo>, r: Result<Option<Vec<u8>>, ProgramError>, ctx: InvokeContext) -> bool {
    &&& instruction_post(ix, o, n, unit_result(r), ctx)
    &&& (r is Err ==> n == o)
    &&& (r is Ok ==> reserves_kept(o, n))
    &&& (r is Ok ==> total_lamports(n) == total_lamports(o))
    &&& (ix is GetMinimumDelegation ==> (r matches Ok(Some(d)) && d@ == spec_u64_to_le_bytes(MINIMUM_DELEGATION)))
    &&& (!(ix is GetMinimumDelegation) ==> r is Err || r == Ok::<Option<Vec<u8>>, ProgramError>(None))
}

/// Decodes an instruction payload: empty means `DeactivateDelinquent`, under four
/// bytes the short form, otherwise the canonical form.
pub fn decode_instruction(data: &[u8]) -> (r: Result<StakeInstruction, ProgramError>)
    ensures
        r is Ok <==> payload_decodes(data@),
        r is Err ==> r == Err::<StakeInstruction, ProgramError>(ProgramError::InvalidInstructionData),
        data@.len() == 0 ==> (r matches Ok(ix) && ix is DeactivateDelinquent),
        r matches Ok(ix) ==> payload_means(data@, ix),
{
    let len = data.len();
    if len == 0 {
        return Ok(StakeInstruction::DeactivateDelinquent);
    }
    if len >= 4 {
        return deserialize(data);
    }
    let t = data[0];
    let rest = slice_subrange(data, 1, len);
    assert(rest@ == data@.subrange(1, data@.len() as int));
    if t == 2 {
        Ok(StakeInstruction::DelegateStake)
    } else if t == 5 {
        Ok(StakeInstruction::Deactivate)
    } else if t == 9 {
        Ok(StakeInstruction::InitializeChecked)
    } else if t == 10 {
        Ok(StakeInstruction::AuthorizeChecked(StakeAuthorize::Staker))
    } else if t == 11 {
        let owner = [0u8; 32];
        assert(owner@ =~= crate::state::zeros(32));
        Ok(StakeInstruction::AuthorizeCheckedWithSeed(AuthorizeCheckedWithSeedArgs {
            stake_authorize: StakeAuthorize::Staker,
            authority_seed: Vec::new(),
            authority_owner: owner,
        }))
    } else if t == 12 {
        let args = LockupCheckedArgs::parse(rest)?;
        Ok(StakeInstruction::SetLockupChecked(args))
    } else if t == 13 {
        Ok(StakeInstruction::GetMinimumDelegation)
    } else {
        Err(ProgramError::InvalidInstructionData)
    }
}

/// Runs a decoded instruction. Returns the data handed back to the caller, if any.
pub fn dispatch(accounts: &mut Vec<AccountInfo>, ix: StakeInstruction, ctx: &InvokeContext) -> (r: Result<Option<Vec<u8>>, ProgramError>)
    ensures
        dispatch_post(ix, old(accounts)@, final(accounts)@, r, *ctx),
{
    let ghost before = accounts@;
    let res = match ix {
        StakeInstruction::Initialize(authorized, lockup) => initialize(accounts, authorized, lockup, ctx),
        StakeInstruction::Authorize(k, a) => process_authorize(accounts, k, a, ctx),
        StakeInstruction::DelegateStake => process_delegate(accounts, ctx),
        StakeInstruction::Split(v) => process_split(accounts, v, ctx),
        StakeInstruction::Withdraw(v) => process_withdraw(accounts, v, ctx),
        StakeInstruction::Deactivate => process_deactivate(accounts, ctx),
        StakeInstruction::SetLockup(args) => process_set_lockup_parsed(accounts, &args, ctx),
        StakeInstruction::Merge => process_merge(accounts, ctx),
        StakeInstruction::AuthorizeWithSeed(args) => process_authorized_with_seeds(accounts, &args, ctx),
        StakeInstruction::InitializeChecked => process_initialize_checked(accounts, ctx),
        StakeInstruction::AuthorizeChecked(a) => process_authorize_checked(accounts, a, ctx),
        StakeInstruction::AuthorizeCheckedWithSeed(args) => process_authorize_checked_with_seed(accounts, &args, ctx),
        StakeInstruction::SetLockupChecked(args) => process_set_lockup_checked(accounts, &args, ctx),
        StakeInstruction::GetMinimumDelegation => {
            return Ok(Some(u64_to_le_bytes(MINIMUM_DELEGATION)));
        },
        StakeInstruction::DeactivateDelinquent => process_deactivate_delinquent(accounts, ctx),
        StakeInstruction::Redelegate => Err(ProgramError::InvalidInstructionData),
        StakeInstruction::MoveStake(v) => process_move_stake(accounts, v, ctx),
        StakeInstruction::MoveLamports(v) => process_move_lamports(accounts, v, ctx),
    };
    proof {
        if res is Ok {
            lemma_total_conserved(before, accounts@);
        }
    }
    match res {
        Ok(()) => Ok(None),
        Err(e) => Err(e),
    }
}

/// The program's entry: checks the program id, decodes the payload, refuses all
/// but `GetMinimumDelegation` while epoch rewards are paid out, and runs the
/// instruction.
pub fn process_instruction(program_id: &crate::state::Pubkey, accounts: &mut Vec<AccountInfo>, instruction_data: &[u8], ctx: &InvokeContext) -> (r: Result<Option<Vec<u8>>, ProgramError>)
    ensures
        r is Err ==> final(accounts)@ == old(accounts)@,
        // an account that held its rent-exempt reserve before still holds it
        r is Ok ==> reserves_kept(old(accounts)@, final(accounts)@),
        // no lamports are created or destroyed
        r is Ok ==> total_lamports(final(accounts)@) == total_lamports(old(accounts)@),
        *program_id != spec_stake_program_id() ==> r == Err::<Option<Vec<u8>>, ProgramError>(ProgramError::IncorrectProgramId),
        *program_id == spec_stake_program_id() && !payload_decodes(instruction_data@)
            ==> r == Err::<Option<Vec<u8>>, ProgramError>(ProgramError::InvalidInstructionData),
        r is Ok && ctx.epoch_rewards_active ==> (r matches Ok(Some(d)) && d@ == spec_u64_to_le_bytes(MINIMUM_DELEGATION)),
        r matches Ok(Some(d)) ==> d@ == spec_u64_to_le_bytes(MINIMUM_DELEGATION) && final(accounts)@ == old(accounts)@,
        // a decodable payload for this program: the outcome of the instruction it stands for
        *program_id == spec_stake_program_id() && payload_decodes(instruction_data@) ==> exists|ix: StakeInstruction|
            #[trigger] payload_means(instruction_data@, ix) && if ctx.epoch_rewards_active && !(ix is GetMinimumDelegation) {
                r == Err::<Option<Vec<u8>>, ProgramError>(stake_err(StakeError::EpochRewardsActive))
                    && final(accounts)@ == old(accounts)@
            } else {
                dispatch_post(ix, old(accounts)@, final(accounts)@, r, *ctx)
            },
{
    let id = stake_program_id();
    if !keys_eq(program_id, &id) {
        return Err(ProgramError::IncorrectProgramId);
    }
    let ix = decode_instruction(instruction_data)?;
    let ghost decoded = ix;
    if ctx.epoch_rewards_active {
        match ix {
            StakeInstruction::GetMinimumDelegation => {},
            _ => {
                let r = Err(to_program_error(StakeError::EpochRewardsActive));
                assert(payload_means(instruction_data@, decoded));
                return r;
            },
        }
    }
    let r = dispatch(accounts, ix, ctx);
    assert(payload_means(instruction_data@, decoded));
    r
}

/// Canonical payloads are unique: two canonical payloads that stand for the same
/// instruction are the same bytes.
pub proof fn lemma_canonical_payload_unique(d1: Seq<u8>, d2: Seq<u8>, ix: StakeInstruction)
    requires
        d1.len() >= 4,
        d2.len() >= 4,
        payload_means(d1, ix),
        payload_means(d2, ix),
    ensures
        d1 == d2,
{
}

} // verus!
