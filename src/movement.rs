//! Instructions that move lamports or stake between two stake accounts:
//! split, merge, move stake and move lamports.

use vstd::prelude::*;

use crate::account::{
    meta_of, reserves_kept,
    spec_clock_id, spec_stake_history_id, spec_stake_program_id, clock_id, collect_signers, get_stake_state, holds_state, only_touched, relocate_lamports,
    reserve_ok, set_stake_state, signed_in, stake_history_id, stake_program_id, stored, AccountInfo,
    InvokeContext,
};
use crate::authority::signed_by;
use crate::error::{stake_err, to_program_error, ProgramError, StakeError};
use crate::merge_kind::{classify, kind_meta, merge_result, metas_mergeable, MergeKind};
use crate::stake_history::activation_status;
use crate::state::{keys_eq, Meta, Stake, StakeStateV2, STAKE_STATE_SIZE};
use crate::{MINIMUM_DELEGATION, WARMUP_COOLDOWN_RATE_CUTOFF_EPOCH};

verus! {

pub open spec fn sat_sub(a: int, b: int) -> int {
    if a >= b {
        a - b
    } else {
        0
    }
}

/// The split's stake amounts: what leaves the source's delegation and what the
/// destination's delegation holds. A split of the whole balance moves all
/// lamports above the source's reserve; otherwise the destination's missing
/// reserve is kept back from the moved lamports.
pub open spec fn split_amounts(source_meta: Meta, source_lamports: u64, destination_lamports: u64, split_lamports: u64, destination_reserve: u64) -> (int, int) {
    if source_lamports == split_lamports {
        let d = sat_sub(split_lamports as int, source_meta.rent_exempt_reserve as int);
        (d, d)
    } else {
        let d = sat_sub(split_lamports as int, sat_sub(destination_reserve as int, destination_lamports as int));
        (d, d)
    }
}

/// The balance checks of a split: the source keeps its reserve (plus
/// `additional` lamports, the minimum delegation for active stake) unless it is
/// emptied, and the destination reaches its reserve (plus `additional`).
pub open spec fn split_amount_valid(source_lamports: u64, destination_lamports: u64, split_lamports: u64, source_reserve: u64, additional: u64, destination_reserve: u64) -> bool {
    let remaining = source_lamports - split_lamports;
    &&& split_lamports <= source_lamports
    &&& (remaining == 0 || remaining >= source_reserve + additional)
    &&& split_lamports >= sat_sub(destination_reserve + additional, destination_lamports as int)
}

fn validate_split_amount(
    source_lamports: u64,
    destination_lamports: u64,
    split_lamports: u64,
    source_reserve: u64,
    additional: u64,
    destination_reserve: u64,
) -> (r: Result<(), ProgramError>)
    ensures
        r is Ok <==> split_amount_valid(source_lamports, destination_lamports, split_lamports, source_reserve, additional, destination_reserve),
        r is Err ==> r == Err::<(), ProgramError>(ProgramError::InsufficientFunds),
{
    if split_lamports > source_lamports {
        return Err(ProgramError::InsufficientFunds);
    }
    let remaining = source_lamports - split_lamports;
    if remaining != 0 && (remaining as u128) < source_reserve as u128 + additional as u128 {
        return Err(ProgramError::InsufficientFunds);
    }
    let needed: u128 = destination_reserve as u128 + additional as u128;
    if needed > destination_lamports as u128 && (split_lamports as u128) < needed - destination_lamports as u128 {
        return Err(ProgramError::InsufficientFunds);
    }
    Ok(())
}

/// The states of source and destination after a successful split.
pub open spec fn split_states(s: StakeStateV2, source_lamports: u64, destination_lamports: u64, split_lamports: u64, destination_reserve: u64) -> (StakeStateV2, StakeStateV2) {
    let emptied = source_lamports == split_lamports;
    match s {
        StakeStateV2::Stake(m, st, f) => {
            let (delta, amount) = split_amounts(m, source_lamports, destination_lamports, split_lamports, destination_reserve);
            let source_after = if emptied {
                StakeStateV2::Uninitialized
            } else {
                StakeStateV2::Stake(m, Stake { delegation: crate::state::Delegation { stake: (st.delegation.stake - delta) as u64, ..st.delegation }, ..st }, f)
            };
            (source_after, StakeStateV2::Stake(Meta { rent_exempt_reserve: destination_reserve, ..m }, Stake { delegation: crate::state::Delegation { stake: amount as u64, ..st.delegation }, ..st }, f))
        },
        StakeStateV2::Initialized(m) => (
            if emptied { StakeStateV2::Uninitialized } else { s },
            StakeStateV2::Initialized(Meta { rent_exempt_reserve: destination_reserve, ..m }),
        ),
        _ => (StakeStateV2::Uninitialized, StakeStateV2::Uninitialized),
    }
}

/// Whether splitting `split_lamports` off `o[0]` into `o[1]` succeeds.
pub open spec fn split_allowed(o: Seq<AccountInfo>, split_lamports: u64, ctx: InvokeContext) -> bool {
    let src = o[0];
    let dst = o[1];
    let reserve = ctx.minimum_balance;
    &&& o.len() >= 3
    &&& src.is_writable && dst.is_writable
    &&& o[2].is_signer
    &&& src.owner == spec_stake_program_id() && dst.owner == spec_stake_program_id()
    &&& split_lamports <= src.lamports
    &&& dst.data@.len() == STAKE_STATE_SIZE && holds_state(dst) && stored(dst) is Uninitialized
    &&& dst.lamports + split_lamports <= u64::MAX
    &&& holds_state(src)
    &&& match stored(src) {
        StakeStateV2::Stake(m, st, _) => {
            let active = activation_status(st.delegation, ctx.clock.epoch, ctx.stake_history@, WARMUP_COOLDOWN_RATE_CUTOFF_EPOCH).effective > 0;
            let additional: u64 = if active { MINIMUM_DELEGATION } else { 0 };
            let (delta, amount) = split_amounts(m, src.lamports, dst.lamports, split_lamports, reserve);
            &&& src.key != dst.key
            &&& m.authorized.staker == o[2].key
            &&& split_amount_valid(src.lamports, dst.lamports, split_lamports, m.rent_exempt_reserve, additional, reserve)
            &&& (src.lamports != split_lamports ==> st.delegation.stake >= amount && st.delegation.stake - amount >= MINIMUM_DELEGATION)
            &&& amount >= MINIMUM_DELEGATION
            &&& delta <= st.delegation.stake
        },
        StakeStateV2::Initialized(m) => src.key != dst.key && m.authorized.staker == o[2].key
            && split_amount_valid(src.lamports, dst.lamports, split_lamports, m.rent_exempt_reserve, 0, reserve),
        StakeStateV2::Uninitialized => src.is_signer,
        StakeStateV2::RewardsPool => false,
    }
}

/// What `process_split` guarantees: when it succeeds, what it writes, and which
/// error it returns where that is fixed.
pub open spec fn process_split_post(o: Seq<AccountInfo>, n: Seq<AccountInfo>, r: Result<(), ProgramError>, split_lamports: u64, ctx: InvokeContext) -> bool {
    &&& (r is Ok <==> split_allowed(o, split_lamports, ctx))
    &&& (r is Err ==> n == o)
    &&& (r is Ok ==> reserves_kept(o, n))
    &&& (r is Ok ==> {
        let o = o;
        let n = n;
        &&& o.len() >= 3
        &&& only_touched(o, n, set![0, 1])
        &&& n[0].lamports == o[0].lamports - split_lamports
        &&& n[1].lamports == o[1].lamports + split_lamports
        &&& n[0].lamports + n[1].lamports == o[0].lamports + o[1].lamports
        &&& reserve_ok(n[0]) && reserve_ok(n[1])
        &&& stored(o[1]) is Uninitialized
        &&& o[2].is_signer
        &&& (stored(o[0]) is Uninitialized ==> o[0].is_signer && stored(n[0]) is Uninitialized && stored(n[1]) is Uninitialized)
        &&& (!(stored(o[0]) is Uninitialized) ==> (stored(n[0]), stored(n[1])) == split_states(
            stored(o[0]),
            o[0].lamports,
            o[1].lamports,
            split_lamports,
            ctx.minimum_balance,
        ))
    })
    // a delegated source keeps at least the minimum, and the destination gets it
    &&& (r is Ok && (stored(o[0]) is Stake) && stored(n[0]) is Stake ==> (
        stored(n[0]) matches StakeStateV2::Stake(_, a, _) && a.delegation.stake >= MINIMUM_DELEGATION))
    &&& (r is Ok && (stored(o[0]) is Stake) ==> (
        stored(n[1]) matches StakeStateV2::Stake(_, b, _) && b.delegation.stake >= MINIMUM_DELEGATION))
    &&& (o.len() < 3 ==> r == Err::<(), ProgramError>(ProgramError::NotEnoughAccountKeys))
}

/// `Split`: accounts are the source, an uninitialized destination of the exact
/// size, and the staker (signing). Moves `split_lamports` and the matching part
/// of the delegation.
pub fn process_split(accounts: &mut Vec<AccountInfo>, split_lamports: u64, ctx: &InvokeContext) -> (r: Result<(), ProgramError>)
    ensures
        process_split_post(old(accounts)@, final(accounts)@, r, split_lamports, *ctx),
{
    if accounts.len() < 3 {
        return Err(ProgramError::NotEnoughAccountKeys);
    }
    if !accounts[0].is_writable || !accounts[1].is_writable {
        return Err(ProgramError::InvalidInstructionData);
    }
    if !accounts[2].is_signer {
        return Err(ProgramError::MissingRequiredSignature);
    }
    let id = stake_program_id();
    if !keys_eq(&accounts[0].owner, &id) || !keys_eq(&accounts[1].owner, &id) {
        return Err(ProgramError::InvalidAccountOwner);
    }
    let source_lamports = accounts[0].lamports;
    let destination_lamports = accounts[1].lamports;
    if split_lamports > source_lamports {
        return Err(ProgramError::InsufficientFunds);
    }
    if accounts[1].data.len() != STAKE_STATE_SIZE {
        return Err(ProgramError::InvalidAccountData);
    }
    match get_stake_state(accounts, 1)? {
        StakeStateV2::Uninitialized => {},
        _ => {
            return Err(ProgramError::InvalidAccountData);
        },
    }
    if destination_lamports > u64::MAX - split_lamports {
        return Err(ProgramError::InsufficientFunds);
    }
    let destination_reserve = ctx.minimum_balance;
    let emptied = split_lamports == source_lamports;
    let state = get_stake_state(accounts, 0)?;
    match state {
        StakeStateV2::Stake(meta, stake, flags) => {
            if keys_eq(&accounts[0].key, &accounts[1].key) {
                return Err(ProgramError::InvalidArgument);
            }
            if !keys_eq(&meta.authorized.staker, &accounts[2].key) {
                return Err(ProgramError::MissingRequiredSignature);
            }
            let status = stake.delegation.stake_activating_and_deactivating(ctx.clock.epoch, &ctx.stake_history, WARMUP_COOLDOWN_RATE_CUTOFF_EPOCH);
            let is_active = status.effective > 0;
            let additional = if is_active {
                MINIMUM_DELEGATION
            } else {
                0
            };
            validate_split_amount(source_lamports, destination_lamports, split_lamports, meta.rent_exempt_reserve, additional, destination_reserve)?;
            let (delta, amount): (u64, u64) = if emptied {
                let d = if split_lamports >= meta.rent_exempt_reserve { split_lamports - meta.rent_exempt_reserve } else { 0 };
                (d, d)
            } else {
                let deficit = if destination_reserve >= destination_lamports { destination_reserve - destination_lamports } else { 0 };
                let d = if split_lamports >= deficit { split_lamports - deficit } else { 0 };
                if stake.delegation.stake < d || stake.delegation.stake - d < MINIMUM_DELEGATION {
                    return Err(to_program_error(StakeError::InsufficientDelegation));
                }
                (d, d)
            };
            if amount < MINIMUM_DELEGATION {
                return Err(to_program_error(StakeError::InsufficientDelegation));
            }
            if delta > stake.delegation.stake {
                return Err(to_program_error(StakeError::InsufficientStake));
            }
            let mut source_stake = stake;
            source_stake.delegation.stake = stake.delegation.stake - delta;
            let mut destination_stake = stake;
            destination_stake.delegation.stake = amount;
            let mut destination_meta = meta;
            destination_meta.rent_exempt_reserve = destination_reserve;
            if emptied {
                set_stake_state(accounts, 0, &StakeStateV2::Uninitialized);
            } else {
                set_stake_state(accounts, 0, &StakeStateV2::Stake(meta, source_stake, flags));
            }
            set_stake_state(accounts, 1, &StakeStateV2::Stake(destination_meta, destination_stake, flags));
        },
        StakeStateV2::Initialized(meta) => {
            if keys_eq(&accounts[0].key, &accounts[1].key) {
                return Err(ProgramError::InvalidArgument);
            }
            if !keys_eq(&meta.authorized.staker, &accounts[2].key) {
                return Err(ProgramError::MissingRequiredSignature);
            }
            validate_split_amount(source_lamports, destination_lamports, split_lamports, meta.rent_exempt_reserve, 0, destination_reserve)?;
            let mut destination_meta = meta;
            destination_meta.rent_exempt_reserve = destination_reserve;
            if emptied {
                set_stake_state(accounts, 0, &StakeStateV2::Uninitialized);
            }
            set_stake_state(accounts, 1, &StakeStateV2::Initialized(destination_meta));
        },
        StakeStateV2::Uninitialized => {
            if !accounts[0].is_signer {
                return Err(ProgramError::MissingRequiredSignature);
            }
        },
        StakeStateV2::RewardsPool => {
            return Err(ProgramError::InvalidAccountData);
        },
    }
    let moved = relocate_lamports(accounts, 0, 1, split_lamports);
    assert(moved is Ok);
    Ok(())
}

/// The account checks of a merge, before the two accounts are classified.
pub open spec fn merge_ready(o: Seq<AccountInfo>) -> bool {
    &&& o.len() >= 4
    &&& o[0].key != o[1].key
    &&& o[0].owner == spec_stake_program_id() && o[1].owner == spec_stake_program_id()
    &&& o[0].is_writable && o[1].is_writable
    &&& o[3].key == spec_stake_history_id()
    &&& o[2].key == spec_clock_id()
    &&& holds_state(o[0]) && holds_state(o[1])
}

/// Whether merging `o[1]` into `o[0]` succeeds.
pub open spec fn merge_allowed(o: Seq<AccountInfo>, ctx: InvokeContext) -> bool {
    &&& o.len() >= 4
    &&& o[0].key != o[1].key
    &&& o[0].owner == spec_stake_program_id() && o[1].owner == spec_stake_program_id()
    &&& o[0].is_writable && o[1].is_writable
    &&& o[3].key == spec_stake_history_id()
    &&& o[2].key == spec_clock_id()
    &&& o[0].data@.len() == STAKE_STATE_SIZE && o[1].data@.len() == STAKE_STATE_SIZE
    &&& holds_state(o[0])
    &&& kind_of(o[0], ctx) is Ok
    &&& signed_in(o, kind_meta(kind_of(o[0], ctx).unwrap()).authorized.staker)
    &&& holds_state(o[1])
    &&& kind_of(o[1], ctx) is Ok
    &&& metas_mergeable(kind_meta(kind_of(o[0], ctx).unwrap()), kind_meta(kind_of(o[1], ctx).unwrap()), ctx.clock)
    &&& o[0].lamports + o[1].lamports <= u64::MAX
    &&& merge_result(kind_of(o[0], ctx).unwrap(), kind_of(o[1], ctx).unwrap(), o[1].lamports) is Ok
}

/// What `process_merge` guarantees: when it succeeds, what it writes, and which
/// error it returns where that is fixed.
pub open spec fn process_merge_post(o: Seq<AccountInfo>, n: Seq<AccountInfo>, r: Result<(), ProgramError>, ctx: InvokeContext) -> bool {
    &&& (r is Ok <==> merge_allowed(o, ctx))
    &&& (r is Err ==> n == o)
    &&& (r is Ok ==> reserves_kept(o, n))
    &&& (r is Ok ==> {
        let o = o;
        let n = n;
        let dk = classify(stored(o[0]), o[0].lamports, ctx.clock, ctx.stake_history@, WARMUP_COOLDOWN_RATE_CUTOFF_EPOCH);
        let sk = classify(stored(o[1]), o[1].lamports, ctx.clock, ctx.stake_history@, WARMUP_COOLDOWN_RATE_CUTOFF_EPOCH);
        &&& o.len() >= 4
        &&& only_touched(o, n, set![0, 1])
        &&& o[0].key != o[1].key
        &&& n[0].lamports == o[0].lamports + o[1].lamports
        &&& n[1].lamports == 0
        &&& n[0].lamports + n[1].lamports == o[0].lamports + o[1].lamports
        &&& stored(n[1]) is Uninitialized
        &&& (dk matches Ok(d) && sk matches Ok(s) && signed_in(o, kind_meta(d).authorized.staker)
            && metas_mergeable(kind_meta(d), kind_meta(s), ctx.clock)
            && (merge_result(d, s, o[1].lamports) matches Ok(res) && match res {
                Some(ns) => stored(n[0]) == ns,
                None => n[0].data == o[0].data,
            }))
        &&& (reserve_ok(o[0]) ==> reserve_ok(n[0]))
    })
    &&& (o.len() < 4 ==> r == Err::<(), ProgramError>(ProgramError::NotEnoughAccountKeys))
    &&& (o.len() >= 4 && o[0].key == o[1].key
        ==> r == Err::<(), ProgramError>(ProgramError::InvalidArgument))
    &&& (merge_ready(o) && kind_of(o[0], ctx) is Err
        ==> r == Err::<(), ProgramError>(stake_err(StakeError::MergeMismatch)))
    &&& (merge_ready(o) && kind_of(o[0], ctx) is Ok
        && !signed_in(o, kind_meta(kind_of(o[0], ctx).unwrap()).authorized.staker)
        ==> r == Err::<(), ProgramError>(ProgramError::MissingRequiredSignature))
    &&& (merge_ready(o) && kind_of(o[0], ctx) is Ok
        && signed_in(o, kind_meta(kind_of(o[0], ctx).unwrap()).authorized.staker)
        && (kind_of(o[1], ctx) is Err || !metas_mergeable(
            kind_meta(kind_of(o[0], ctx).unwrap()),
            kind_meta(kind_of(o[1], ctx).unwrap()),
            ctx.clock,
        )) ==> r == Err::<(), ProgramError>(stake_err(StakeError::MergeMismatch)))
}

/// `Merge`: accounts are the destination, the source, the clock and the stake
/// history sysvars; the destination's staker must sign. On success the source
/// is emptied into the destination and left uninitialized.
pub fn process_merge(accounts: &mut Vec<AccountInfo>, ctx: &InvokeContext) -> (r: Result<(), ProgramError>)
    ensures
        process_merge_post(old(accounts)@, final(accounts)@, r, *ctx),
{
    if accounts.len() < 4 {
        return Err(ProgramError::NotEnoughAccountKeys);
    }
    if keys_eq(&accounts[0].key, &accounts[1].key) {
        return Err(ProgramError::InvalidArgument);
    }
    let id = stake_program_id();
    if !keys_eq(&accounts[0].owner, &id) || !keys_eq(&accounts[1].owner, &id) {
        return Err(ProgramError::InvalidAccountOwner);
    }
    if !accounts[0].is_writable || !accounts[1].is_writable {
        return Err(ProgramError::InvalidInstructionData);
    }
    let history_key = stake_history_id();
    if !keys_eq(&accounts[3].key, &history_key) {
        return Err(ProgramError::InvalidInstructionData);
    }
    let clock_key = clock_id();
    if !keys_eq(&accounts[2].key, &clock_key) {
        return Err(ProgramError::InvalidArgument);
    }
    if accounts[0].data.len() != STAKE_STATE_SIZE || accounts[1].data.len() != STAKE_STATE_SIZE {
        return Err(ProgramError::InvalidAccountData);
    }
    let signers = collect_signers(accounts);
    let dst_state = get_stake_state(accounts, 0)?;
    let dst_kind = MergeKind::get_if_mergeable(&dst_state, accounts[0].lamports, &ctx.clock, &ctx.stake_history, WARMUP_COOLDOWN_RATE_CUTOFF_EPOCH)?;
    let dst_meta = dst_kind.meta();
    if !signed_by(signers.as_slice(), &dst_meta.authorized.staker) {
        return Err(ProgramError::MissingRequiredSignature);
    }
    let src_state = get_stake_state(accounts, 1)?;
    let src_lamports = accounts[1].lamports;
    let src_kind = MergeKind::get_if_mergeable(&src_state, src_lamports, &ctx.clock, &ctx.stake_history, WARMUP_COOLDOWN_RATE_CUTOFF_EPOCH)?;
    let src_meta = src_kind.meta();
    MergeKind::metas_can_merge(&dst_meta, &src_meta, &ctx.clock)?;
    if accounts[0].lamports > u64::MAX - src_lamports {
        return Err(ProgramError::ArithmeticOverflow);
    }
    let merged = dst_kind.merge(src_kind, src_lamports)?;
    if let Some(new_state) = merged {
        set_stake_state(accounts, 0, &new_state);
    }
    set_stake_state(accounts, 1, &StakeStateV2::Uninitialized);
    let moved = relocate_lamports(accounts, 1, 0, src_lamports);
    assert(moved is Ok);
    Ok(())
}

/// The classification of an account's stored state.
pub open spec fn kind_of(a: AccountInfo, ctx: InvokeContext) -> Result<MergeKind, ProgramError> {
    classify(stored(a), a.lamports, ctx.clock, ctx.stake_history@, WARMUP_COOLDOWN_RATE_CUTOFF_EPOCH)
}

/// The conditions that moving stake or lamports share.
pub open spec fn move_checks_pass(a: Seq<AccountInfo>, lamports: u64, ctx: InvokeContext) -> bool {
    &&& a.len() == 3
    &&& holds_state(a[0])
    &&& (meta_of(stored(a[0])) matches Some(m) && a[2].key == m.authorized.staker)
    &&& a[2].is_signer
    &&& a[0].key != a[1].key
    &&& a[0].is_writable && a[1].is_writable
    &&& lamports != 0
    &&& a[0].data@.len() == STAKE_STATE_SIZE && a[1].data@.len() == STAKE_STATE_SIZE
    &&& kind_of(a[0], ctx) is Ok
    &&& holds_state(a[1])
    &&& kind_of(a[1], ctx) is Ok
    &&& metas_mergeable(kind_meta(kind_of(a[0], ctx).unwrap()), kind_meta(kind_of(a[1], ctx).unwrap()), ctx.clock)
}

/// The checks that moving stake or lamports share: exactly three accounts, the
/// third the source's staker and signing, two distinct writable accounts of this
/// program, a non-zero amount, and mergeable metas. Returns both classifications.
fn move_shared_checks(accounts: &Vec<AccountInfo>, lamports: u64, ctx: &InvokeContext) -> (r: Result<(MergeKind, MergeKind), ProgramError>)
    ensures
        r is Ok <==> move_checks_pass(accounts@, lamports, *ctx),
        r matches Ok((sk, dk)) ==> kind_of(accounts@[0], *ctx) == Ok::<MergeKind, ProgramError>(sk)
            && kind_of(accounts@[1], *ctx) == Ok::<MergeKind, ProgramError>(dk),
{
    if accounts.len() != 3 {
        return Err(ProgramError::InvalidInstructionData);
    }
    let src_state = get_stake_state(accounts, 0)?;
    let expected_staker = match src_state {
        StakeStateV2::Initialized(m) => m.authorized.staker,
        StakeStateV2::Stake(m, _, _) => m.authorized.staker,
        _ => {
            return Err(ProgramError::InvalidAccountData);
        },
    };
    if !accounts[2].is_signer || !keys_eq(&accounts[2].key, &expected_staker) {
        return Err(ProgramError::MissingRequiredSignature);
    }
    if keys_eq(&accounts[0].key, &accounts[1].key) {
        return Err(ProgramError::InvalidInstructionData);
    }
    if !accounts[0].is_writable || !accounts[1].is_writable {
        return Err(ProgramError::InvalidInstructionData);
    }
    if lamports == 0 {
        return Err(ProgramError::InvalidArgument);
    }
    if accounts[0].data.len() != STAKE_STATE_SIZE || accounts[1].data.len() != STAKE_STATE_SIZE {
        return Err(ProgramError::InvalidAccountData);
    }
    let source_kind = MergeKind::get_if_mergeable(&src_state, accounts[0].lamports, &ctx.clock, &ctx.stake_history, WARMUP_COOLDOWN_RATE_CUTOFF_EPOCH)?;
    let dst_state = get_stake_state(accounts, 1)?;
    let dest_kind = MergeKind::get_if_mergeable(&dst_state, accounts[1].lamports, &ctx.clock, &ctx.stake_history, WARMUP_COOLDOWN_RATE_CUTOFF_EPOCH)?;
    let source_meta = source_kind.meta();
    let dest_meta = dest_kind.meta();
    MergeKind::metas_can_merge(&source_meta, &dest_meta, &ctx.clock)?;
    Ok((source_kind, dest_kind))
}

/// Lamports that may leave an account of the given kind: all above the reserve
/// for an inactive one, all above reserve and delegation for a fully active one.
pub open spec fn free_lamports(k: MergeKind, lamports: u64) -> Option<int> {
    match k {
        MergeKind::Inactive(m, _, _) => Some(sat_sub(lamports as int, m.rent_exempt_reserve as int)),
        MergeKind::FullyActive(m, st) => Some(sat_sub(sat_sub(lamports as int, m.rent_exempt_reserve as int), st.delegation.stake as int)),
        MergeKind::ActivationEpoch(_, _, _) => None,
    }
}

/// What `process_move_lamports` guarantees: when it succeeds, what it writes, and which
/// error it returns where that is fixed.
pub open spec fn process_move_lamports_post(o: Seq<AccountInfo>, n: Seq<AccountInfo>, r: Result<(), ProgramError>, lamports: u64, ctx: InvokeContext) -> bool {
    &&& (r is Ok <==> {
        let o = o;
        &&& move_checks_pass(o, lamports, ctx)
        &&& (free_lamports(kind_of(o[0], ctx).unwrap(), o[0].lamports) matches Some(free) && lamports <= free)
        &&& o[1].lamports + lamports <= u64::MAX
        &&& o[1].lamports + lamports >= kind_meta(kind_of(o[1], ctx).unwrap()).rent_exempt_reserve
        &&& o[0].lamports - lamports >= kind_meta(kind_of(o[0], ctx).unwrap()).rent_exempt_reserve
    })
    &&& (r is Err ==> n == o)
    &&& (r is Ok ==> reserves_kept(o, n))
    &&& (r is Ok ==> {
        let o = o;
        let n = n;
        let sk = classify(stored(o[0]), o[0].lamports, ctx.clock, ctx.stake_history@, WARMUP_COOLDOWN_RATE_CUTOFF_EPOCH);
        &&& o.len() == 3
        &&& o[2].is_signer
        &&& only_touched(o, n, set![0, 1])
        &&& n[0].data == o[0].data && n[1].data == o[1].data
        &&& n[0].lamports == o[0].lamports - lamports
        &&& n[1].lamports == o[1].lamports + lamports
        &&& n[0].lamports + n[1].lamports == o[0].lamports + o[1].lamports
        &&& (sk matches Ok(k) && free_lamports(k, o[0].lamports) matches Some(free) && lamports <= free)
        &&& reserve_ok(n[0]) && reserve_ok(n[1])
    })
    &&& (move_checks_pass(o, lamports, ctx) && (kind_of(o[0], ctx) matches Ok(
        MergeKind::ActivationEpoch(_, _, _),
    )) ==> r == Err::<(), ProgramError>(stake_err(StakeError::MergeMismatch)))
}

/// `MoveLamports`: accounts are the source, the destination and the source's
/// staker (signing). Moves lamports that are neither reserve nor delegated.
pub fn process_move_lamports(accounts: &mut Vec<AccountInfo>, lamports: u64, ctx: &InvokeContext) -> (r: Result<(), ProgramError>)
    ensures
        process_move_lamports_post(old(accounts)@, final(accounts)@, r, lamports, *ctx),
{
    let (source_kind, dest_kind) = move_shared_checks(accounts, lamports, ctx)?;
    let total = accounts[0].lamports;
    let free: u64 = match source_kind {
        MergeKind::Inactive(meta, _, _) => {
            if total >= meta.rent_exempt_reserve { total - meta.rent_exempt_reserve } else { 0 }
        },
        MergeKind::FullyActive(meta, stake) => {
            let above = if total >= meta.rent_exempt_reserve { total - meta.rent_exempt_reserve } else { 0 };
            if above >= stake.delegation.stake { above - stake.delegation.stake } else { 0 }
        },
        MergeKind::ActivationEpoch(_, _, _) => {
            return Err(to_program_error(StakeError::MergeMismatch));
        },
    };
    if lamports > free {
        return Err(ProgramError::InvalidArgument);
    }
    let source_reserve = source_kind.meta().rent_exempt_reserve;
    let dest_reserve = dest_kind.meta().rent_exempt_reserve;
    if accounts[1].lamports > u64::MAX - lamports || accounts[1].lamports + lamports < dest_reserve
        || accounts[0].lamports - lamports < source_reserve {
        return Err(ProgramError::InvalidArgument);
    }
    let moved = relocate_lamports(accounts, 0, 1, lamports);
    assert(moved is Ok);
    Ok(())
}

/// The conditions of moving `lamports` of stake between accounts of the given
/// kinds and balances: a fully active source keeps none or at least the minimum;
/// a fully active destination (same voter) or an inactive one ends with at least
/// the minimum; both keep their reserves.
pub open spec fn move_stake_allowed(sk: MergeKind, dk: MergeKind, source_lamports: u64, destination_lamports: u64, lamports: u64) -> bool {
    match sk {
        MergeKind::FullyActive(sm, ss) => {
            let rest = ss.delegation.stake - lamports;
            &&& ss.delegation.stake >= lamports
            &&& (rest == 0 || rest >= MINIMUM_DELEGATION)
            &&& match dk {
                MergeKind::FullyActive(_, ds) => ss.delegation.voter_pubkey == ds.delegation.voter_pubkey
                    && ds.delegation.stake + lamports <= u64::MAX && ds.delegation.stake + lamports >= MINIMUM_DELEGATION
                    && crate::merge_kind::can_absorb(ds, lamports, ss.credits_observed),
                MergeKind::Inactive(_, _, _) => lamports >= MINIMUM_DELEGATION,
                MergeKind::ActivationEpoch(_, _, _) => false,
            }
            &&& destination_lamports + lamports <= u64::MAX
            &&& source_lamports >= lamports
            &&& source_lamports - lamports >= sm.rent_exempt_reserve
            &&& destination_lamports + lamports >= kind_meta(dk).rent_exempt_reserve
        },
        _ => false,
    }
}

/// The states after moving `lamports` of stake: the source keeps the rest of its
/// delegation (or becomes initialized when none is left); the destination
/// absorbs the stake, or starts a delegation like the source's when inactive.
pub open spec fn moved_stake_states(sk: MergeKind, dk: MergeKind, lamports: u64) -> (StakeStateV2, StakeStateV2) {
    match (sk, dk) {
        (MergeKind::FullyActive(sm, ss), MergeKind::FullyActive(dm, ds)) => (
            source_after_move(sm, ss, lamports),
            StakeStateV2::Stake(dm, crate::merge_kind::merged_stake(ds, lamports, ss.credits_observed), crate::state::StakeFlags { bits: 0 }),
        ),
        (MergeKind::FullyActive(sm, ss), MergeKind::Inactive(dm, _, _)) => (
            source_after_move(sm, ss, lamports),
            StakeStateV2::Stake(dm, crate::merge_kind::with_stake_amount(ss, lamports), crate::state::StakeFlags { bits: 0 }),
        ),
        _ => (StakeStateV2::Uninitialized, StakeStateV2::Uninitialized),
    }
}

pub open spec fn source_after_move(m: Meta, s: Stake, lamports: u64) -> StakeStateV2 {
    if s.delegation.stake == lamports {
        StakeStateV2::Initialized(m)
    } else {
        StakeStateV2::Stake(m, crate::merge_kind::with_stake_amount(s, (s.delegation.stake - lamports) as u64), crate::state::StakeFlags { bits: 0 })
    }
}

/// What `process_move_stake` guarantees: when it succeeds, what it writes, and which
/// error it returns where that is fixed.
pub open spec fn process_move_stake_post(o: Seq<AccountInfo>, n: Seq<AccountInfo>, r: Result<(), ProgramError>, lamports: u64, ctx: InvokeContext) -> bool {
    &&& (r is Ok <==> move_checks_pass(o, lamports, ctx) && move_stake_allowed(
        kind_of(o[0], ctx).unwrap(),
        kind_of(o[1], ctx).unwrap(),
        o[0].lamports,
        o[1].lamports,
        lamports,
    ))
    &&& (r is Err ==> n == o)
    &&& (r is Ok ==> reserves_kept(o, n))
    &&& (r is Ok ==> {
        let o = o;
        let n = n;
        let sk = classify(stored(o[0]), o[0].lamports, ctx.clock, ctx.stake_history@, WARMUP_COOLDOWN_RATE_CUTOFF_EPOCH);
        let dk = classify(stored(o[1]), o[1].lamports, ctx.clock, ctx.stake_history@, WARMUP_COOLDOWN_RATE_CUTOFF_EPOCH);
        &&& o.len() == 3
        &&& o[2].is_signer
        &&& only_touched(o, n, set![0, 1])
        &&& n[0].lamports == o[0].lamports - lamports
        &&& n[1].lamports == o[1].lamports + lamports
        &&& n[0].lamports + n[1].lamports == o[0].lamports + o[1].lamports
        &&& (sk matches Ok(s) && dk matches Ok(d) && (stored(n[0]), stored(n[1])) == moved_stake_states(s, d, lamports))
        &&& reserve_ok(n[0]) && reserve_ok(n[1])
        &&& (stored(n[0]) matches StakeStateV2::Stake(_, a, _) ==> a.delegation.stake >= MINIMUM_DELEGATION)
        &&& (stored(n[1]) matches StakeStateV2::Stake(_, b, _) && b.delegation.stake >= MINIMUM_DELEGATION)
    })
}

/// `MoveStake`: accounts are a fully active source, a fully active (same voter)
/// or inactive destination, and the source's staker (signing). Moves `lamports`
/// of active stake together with the lamports that back it.
pub fn process_move_stake(accounts: &mut Vec<AccountInfo>, lamports: u64, ctx: &InvokeContext) -> (r: Result<(), ProgramError>)
    ensures
        process_move_stake_post(old(accounts)@, final(accounts)@, r, lamports, *ctx),
{
    let (source_kind, dest_kind) = move_shared_checks(accounts, lamports, ctx)?;
    let (source_meta, source_stake) = match source_kind {
        MergeKind::FullyActive(m, s) => (m, s),
        _ => {
            return Err(ProgramError::InvalidAccountData);
        },
    };
    if source_stake.delegation.stake < lamports {
        return Err(ProgramError::InvalidArgument);
    }
    let source_final = source_stake.delegation.stake - lamports;
    if source_final != 0 && source_final < MINIMUM_DELEGATION {
        return Err(ProgramError::InvalidArgument);
    }
    let (dest_meta, dest_state) = match dest_kind {
        MergeKind::FullyActive(dm, ds) => {
            if !keys_eq(&source_stake.delegation.voter_pubkey, &ds.delegation.voter_pubkey) {
                return Err(to_program_error(StakeError::VoteAddressMismatch));
            }
            if ds.delegation.stake > u64::MAX - lamports {
                return Err(ProgramError::ArithmeticOverflow);
            }
            if ds.delegation.stake + lamports < MINIMUM_DELEGATION {
                return Err(ProgramError::InvalidArgument);
            }
            let mut merged = ds;
            crate::merge_kind::merge_delegation_stake_and_credits_observed(&mut merged, lamports, source_stake.credits_observed)?;
            (dm, StakeStateV2::Stake(dm, merged, crate::state::StakeFlags::empty()))
        },
        MergeKind::Inactive(dm, _, _) => {
            if lamports < MINIMUM_DELEGATION {
                return Err(ProgramError::InvalidArgument);
            }
            let mut fresh = source_stake;
            fresh.delegation.stake = lamports;
            (dm, StakeStateV2::Stake(dm, fresh, crate::state::StakeFlags::empty()))
        },
        MergeKind::ActivationEpoch(_, _, _) => {
            return Err(ProgramError::InvalidAccountData);
        },
    };
    if accounts[1].lamports > u64::MAX - lamports || accounts[0].lamports < lamports
        || accounts[0].lamports - lamports < source_meta.rent_exempt_reserve
        || accounts[1].lamports + lamports < dest_meta.rent_exempt_reserve {
        return Err(ProgramError::InvalidArgument);
    }
    let source_state = if source_final == 0 {
        StakeStateV2::Initialized(source_meta)
    } else {
        let mut rest = source_stake;
        rest.delegation.stake = source_final;
        StakeStateV2::Stake(source_meta, rest, crate::state::StakeFlags::empty())
    };
    set_stake_state(accounts, 1, &dest_state);
    set_stake_state(accounts, 0, &source_state);
    let moved = relocate_lamports(accounts, 0, 1, lamports);
    assert(moved is Ok);
    Ok(())
}

} // verus!
