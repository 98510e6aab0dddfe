//! Instruction handlers for one stake account: initialize, authorize, delegate,
//! deactivate, lockups, withdraw and delinquent deactivation.

use vstd::prelude::*;

use crate::account::{
    reserves_kept,
    clock_id, collect_signers, find_signer, get_stake_state, holds_state, meta_of, only_touched,
    relocate_lamports, set_stake_state, signed_in, spec_clock_id, spec_stake_history_id,
    spec_vote_program_id, stake_history_id, stake_program_id, stored, vote_program_id, with_meta,
    AccountInfo, InvokeContext,
};
use crate::authority::{authorize_update, lockup_in_force, may_authorize, signed_by, with_authority};
use crate::error::{stake_err, to_program_error, ProgramError, StakeError};
use crate::instruction::{
    compact_lockup, lockup_updated, parse_set_lockup_bytes, AuthorizeCheckedWithSeedArgs,
    AuthorizeWithSeedArgs, LockupArgs, LockupCheckedArgs,
};
use crate::sha256::{hash, sha256};
use crate::stake_history::activation_status;
use crate::state::{
    keys_eq, Authorized, Delegation, Lockup, Meta, Pubkey, Stake, StakeAuthorize, StakeFlags,
    StakeStateV2, STAKE_STATE_SIZE,
};
use crate::vote::{
    acceptable_reference_epoch_credits_bytes, get_vote_credits, has_consecutive_epochs, last_vote_epoch,
    last_vote_epoch_bytes, latest_credits, MINIMUM_DELINQUENT_EPOCHS_FOR_DEACTIVATION,
};
use crate::{MINIMUM_DELEGATION, WARMUP_COOLDOWN_RATE_CUTOFF_EPOCH};

verus! {

/// The state that a successful initialization writes.
pub open spec fn initialized_state(reserve: u64, authorized: Authorized, lockup: Lockup) -> StakeStateV2 {
    StakeStateV2::Initialized(Meta { rent_exempt_reserve: reserve, authorized, lockup })
}

/// An uninitialized, writable stake account of the exact size that holds at least
/// the rent-exempt minimum.
pub open spec fn initializable(a: AccountInfo, minimum_balance: u64) -> bool {
    &&& a.data@.len() == STAKE_STATE_SIZE
    &&& holds_state(a)
    &&& a.is_writable
    &&& stored(a) is Uninitialized
    &&& a.lamports >= minimum_balance
}

/// Writes `Initialized` into an uninitialized stake account of the exact size that
/// holds at least the rent-exempt minimum.
pub fn do_initialize(
    accounts: &mut Vec<AccountInfo>,
    authorized: Authorized,
    lockup: Lockup,
    minimum_balance: u64,
) -> (r: Result<(), ProgramError>)
    requires
        old(accounts)@.len() >= 1,
    ensures
        r is Ok <==> initializable(old(accounts)@[0], minimum_balance),
        r is Err ==> final(accounts)@ == old(accounts)@,
        r is Ok ==> reserves_kept(old(accounts)@, final(accounts)@),
        r is Ok ==> only_touched(old(accounts)@, final(accounts)@, set![0])
            && final(accounts)@[0].lamports == old(accounts)@[0].lamports
            && stored(final(accounts)@[0]) == initialized_state(minimum_balance, authorized, lockup),
        old(accounts)@[0].lamports < minimum_balance && holds_state(old(accounts)@[0])
            && old(accounts)@[0].is_writable && stored(old(accounts)@[0]) is Uninitialized
            ==> r == Err::<(), ProgramError>(ProgramError::InsufficientFunds),
        old(accounts)@[0].data@.len() != STAKE_STATE_SIZE ==> r == Err::<(), ProgramError>(ProgramError::InvalidAccountData),
        holds_state(old(accounts)@[0]) && !(stored(old(accounts)@[0]) is Uninitialized)
            ==> r == Err::<(), ProgramError>(ProgramError::InvalidAccountData),
{
    if accounts[0].data.len() != STAKE_STATE_SIZE {
        return Err(ProgramError::InvalidAccountData);
    }
    let state = get_stake_state(accounts, 0)?;
    if !accounts[0].is_writable {
        return Err(ProgramError::InvalidAccountData);
    }
    match state {
        StakeStateV2::Uninitialized => {
            if accounts[0].lamports >= minimum_balance {
                let s = StakeStateV2::Initialized(
                    Meta { rent_exempt_reserve: minimum_balance, authorized, lockup },
                );
                set_stake_state(accounts, 0, &s);
                Ok(())
            } else {
                Err(ProgramError::InsufficientFunds)
            }
        },
        _ => Err(ProgramError::InvalidAccountData),
    }
}

/// What `initialize` guarantees: when it succeeds, what it writes, and which
/// error it returns where that is fixed.
pub open spec fn initialize_post(o: Seq<AccountInfo>, n: Seq<AccountInfo>, r: Result<(), ProgramError>, authorized: Authorized, lockup: Lockup, ctx: InvokeContext) -> bool {
    &&& (r is Ok <==> o.len() >= 2 && initializable(o[0], ctx.minimum_balance))
    &&& (o.len() < 2 ==> r == Err::<(), ProgramError>(ProgramError::NotEnoughAccountKeys))
    &&& (r is Err ==> n == o)
    &&& (r is Ok ==> reserves_kept(o, n))
    &&& (r is Ok ==> only_touched(o, n, set![0])
        && n[0].lamports == o[0].lamports
        && stored(o[0]) is Uninitialized
        && o[0].lamports >= ctx.minimum_balance
        && stored(n[0]) == initialized_state(ctx.minimum_balance, authorized, lockup))
}

/// `Initialize`: accounts are the stake account and the rent sysvar.
pub fn initialize(
    accounts: &mut Vec<AccountInfo>,
    authorized: Authorized,
    lockup: Lockup,
    ctx: &InvokeContext,
) -> (r: Result<(), ProgramError>)
    ensures
        initialize_post(old(accounts)@, final(accounts)@, r, authorized, lockup, *ctx),
{
    if accounts.len() < 2 {
        return Err(ProgramError::NotEnoughAccountKeys);
    }
    do_initialize(accounts, authorized, lockup, ctx.minimum_balance)
}

/// What `process_initialize_checked` guarantees: when it succeeds, what it writes, and which
/// error it returns where that is fixed.
pub open spec fn process_initialize_checked_post(o: Seq<AccountInfo>, n: Seq<AccountInfo>, r: Result<(), ProgramError>, ctx: InvokeContext) -> bool {
    &&& (r is Ok <==> o.len() >= 4 && o[3].is_signer && initializable(
        o[0],
        ctx.minimum_balance,
    ))
    &&& (o.len() < 4 ==> r == Err::<(), ProgramError>(ProgramError::NotEnoughAccountKeys))
    &&& (o.len() >= 4 && !o[3].is_signer ==> r == Err::<(), ProgramError>(ProgramError::MissingRequiredSignature))
    &&& (r is Err ==> n == o)
    &&& (r is Ok ==> reserves_kept(o, n))
    &&& (r is Ok ==> only_touched(o, n, set![0])
        && n[0].lamports == o[0].lamports
        && stored(o[0]) is Uninitialized
        && (stored(n[0]) matches StakeStateV2::Initialized(m)
        && m.rent_exempt_reserve == ctx.minimum_balance
        && m.authorized == (Authorized { staker: o[2].key, withdrawer: o[3].key })
        && is_empty_lockup(m.lockup)))
}

/// `InitializeChecked`: accounts are the stake account, the rent sysvar, the
/// staker and the withdrawer, which must sign; the lockup is empty.
pub fn process_initialize_checked(accounts: &mut Vec<AccountInfo>, ctx: &InvokeContext) -> (r: Result<(), ProgramError>)
    ensures
        process_initialize_checked_post(old(accounts)@, final(accounts)@, r, *ctx),
{
    if accounts.len() < 4 {
        return Err(ProgramError::NotEnoughAccountKeys);
    }
    if !accounts[3].is_signer {
        return Err(ProgramError::MissingRequiredSignature);
    }
    let authorized = Authorized { staker: accounts[2].key, withdrawer: accounts[3].key };
    let lockup = Lockup { unix_timestamp: 0, epoch: 0, custodian: [0u8; 32] };
    assert(lockup.custodian@ =~= crate::state::zeros(32));
    do_initialize(accounts, authorized, lockup, ctx.minimum_balance)
}

/// `s` with its deactivation epoch set to `epoch`.
pub open spec fn deactivated(s: StakeStateV2, epoch: u64) -> StakeStateV2 {
    match s {
        StakeStateV2::Stake(m, st, f) => StakeStateV2::Stake(
            m,
            Stake { delegation: Delegation { deactivation_epoch: epoch, ..st.delegation }, ..st },
            f,
        ),
        _ => s,
    }
}

/// A lockup that restricts nothing and names no custodian.
pub open spec fn is_empty_lockup(l: Lockup) -> bool {
    l.unix_timestamp == 0 && l.epoch == 0 && l.custodian@ == crate::state::zeros(32)
}

/// What `process_deactivate` guarantees: when it succeeds, what it writes, and which
/// error it returns where that is fixed.
pub open spec fn process_deactivate_post(o: Seq<AccountInfo>, n: Seq<AccountInfo>, r: Result<(), ProgramError>, ctx: InvokeContext) -> bool {
    &&& (r is Ok <==> {
        let a = o[0];
        &&& o.len() >= 1
        &&& holds_state(a)
        &&& a.is_writable
        &&& (stored(a) matches StakeStateV2::Stake(m, st, _) && signed_in(o, m.authorized.staker)
            && st.delegation.deactivation_epoch == u64::MAX)
    })
    &&& (r is Err ==> n == o)
    &&& (r is Ok ==> reserves_kept(o, n))
    &&& (r is Ok ==> only_touched(o, n, set![0])
        && n[0].lamports == o[0].lamports
        && stored(n[0]) == deactivated(stored(o[0]), ctx.clock.epoch))
    // a second deactivation
    &&& (o.len() >= 1 && holds_state(o[0]) && o[0].is_writable
        && (stored(o[0]) matches StakeStateV2::Stake(m, st, _)
        && signed_in(o, m.authorized.staker) && st.delegation.deactivation_epoch != u64::MAX)
        ==> r == Err::<(), ProgramError>(stake_err(StakeError::AlreadyDeactivated)))
}

/// `Deactivate`: the staker, signing anywhere among the accounts, starts the
/// cooldown of the delegation held by the first account.
pub fn process_deactivate(accounts: &mut Vec<AccountInfo>, ctx: &InvokeContext) -> (r: Result<(), ProgramError>)
    ensures
        process_deactivate_post(old(accounts)@, final(accounts)@, r, *ctx),
{
    if accounts.len() == 0 {
        return Err(ProgramError::NotEnoughAccountKeys);
    }
    let signers = collect_signers(accounts);
    let id = stake_program_id();
    if !keys_eq(&accounts[0].owner, &id) {
        return Err(ProgramError::InvalidAccountOwner);
    }
    if !accounts[0].is_writable {
        return Err(ProgramError::InvalidInstructionData);
    }
    match get_stake_state(accounts, 0)? {
        StakeStateV2::Stake(meta, stake, flags) => {
            if !signed_by(signers.as_slice(), &meta.authorized.staker) {
                return Err(ProgramError::MissingRequiredSignature);
            }
            if stake.delegation.deactivation_epoch != u64::MAX {
                return Err(to_program_error(StakeError::AlreadyDeactivated));
            }
            let mut st = stake;
            st.delegation.deactivation_epoch = ctx.clock.epoch;
            set_stake_state(accounts, 0, &StakeStateV2::Stake(meta, st, flags));
            Ok(())
        },
        _ => Err(ProgramError::InvalidAccountData),
    }
}

/// The signers that an authority rotation counts: the current authority and,
/// where it signed among the accounts from `from` on, the lockup custodian.
pub open spec fn rotation_signers(accs: Seq<AccountInfo>, from: int, authority: Pubkey, m: Meta) -> Seq<Pubkey> {
    if exists|j: int| from <= j < accs.len() && accs[j].is_signer && accs[j].key == m.lockup.custodian {
        seq![authority, m.lockup.custodian]
    } else {
        seq![authority]
    }
}

/// Rotates the authority of `role` in the meta of `accounts[0]` and writes it back.
fn rotate_and_store(
    accounts: &mut Vec<AccountInfo>,
    state: StakeStateV2,
    authority: Pubkey,
    custodian_from: usize,
    new_authority: Pubkey,
    role: StakeAuthorize,
    ctx: &InvokeContext,
) -> (r: Result<(), ProgramError>)
    requires
        old(accounts)@.len() >= 1,
        holds_state(old(accounts)@[0]),
        state == stored(old(accounts)@[0]),
    ensures
        r is Ok <==> (meta_of(state) matches Some(m) && may_authorize(
            m,
            role,
            rotation_signers(old(accounts)@, custodian_from as int, authority, m),
            ctx.clock,
        )),
        r is Err ==> final(accounts)@ == old(accounts)@,
        r is Ok ==> reserves_kept(old(accounts)@, final(accounts)@),
        r is Ok ==> only_touched(old(accounts)@, final(accounts)@, set![0])
            && final(accounts)@[0].lamports == old(accounts)@[0].lamports
            && (meta_of(state) matches Some(m) && stored(final(accounts)@[0]) == with_meta(
            state,
            with_authority(m, role, new_authority),
        )),
{
    let mut meta = match state {
        StakeStateV2::Initialized(m) => m,
        StakeStateV2::Stake(m, _, _) => m,
        _ => {
            return Err(ProgramError::InvalidAccountData);
        },
    };
    let mut signers: Vec<Pubkey> = Vec::new();
    signers.push(authority);
    if find_signer(accounts, custodian_from, &meta.lockup.custodian) {
        signers.push(meta.lockup.custodian);
    }
    assert(signers@ =~= rotation_signers(old(accounts)@, custodian_from as int, authority, meta));
    authorize_update(&mut meta, new_authority, role, signers.as_slice(), &ctx.clock)?;
    let new_state = match state {
        StakeStateV2::Stake(_, st, f) => StakeStateV2::Stake(meta, st, f),
        _ => StakeStateV2::Initialized(meta),
    };
    set_stake_state(accounts, 0, &new_state);
    Ok(())
}

/// What `process_authorize` guarantees: when it succeeds, what it writes, and which
/// error it returns where that is fixed.
pub open spec fn process_authorize_post(o: Seq<AccountInfo>, n: Seq<AccountInfo>, r: Result<(), ProgramError>, new_authority: Pubkey, authority_type: StakeAuthorize, ctx: InvokeContext) -> bool {
    &&& (r is Ok <==> {
        let a = o;
        &&& a.len() >= 3
        &&& holds_state(a[0])
        &&& a[0].is_writable
        &&& a[1].key == spec_clock_id()
        &&& a[2].is_signer
        &&& (meta_of(stored(a[0])) matches Some(m) && may_authorize(
            m,
            authority_type,
            rotation_signers(a, 3, a[2].key, m),
            ctx.clock,
        ))
    })
    &&& (r is Err ==> n == o)
    &&& (r is Ok ==> reserves_kept(o, n))
    &&& (r is Ok ==> only_touched(o, n, set![0])
        && n[0].lamports == o[0].lamports
        && (meta_of(stored(o[0])) matches Some(m) && stored(n[0])
        == with_meta(stored(o[0]), with_authority(m, authority_type, new_authority))))
}

/// `Authorize`: accounts are the stake account, the clock sysvar, the current
/// authority (signing), and optionally the lockup custodian (signing).
pub fn process_authorize(
    accounts: &mut Vec<AccountInfo>,
    new_authority: Pubkey,
    authority_type: StakeAuthorize,
    ctx: &InvokeContext,
) -> (r: Result<(), ProgramError>)
    ensures
        process_authorize_post(old(accounts)@, final(accounts)@, r, new_authority, authority_type, *ctx),
{
    if accounts.len() < 3 {
        return Err(ProgramError::NotEnoughAccountKeys);
    }
    let id = stake_program_id();
    if !keys_eq(&accounts[0].owner, &id) {
        return Err(ProgramError::InvalidAccountOwner);
    }
    if !accounts[0].is_writable {
        return Err(ProgramError::InvalidInstructionData);
    }
    let clock_key = clock_id();
    if !keys_eq(&accounts[1].key, &clock_key) {
        return Err(ProgramError::InvalidInstructionData);
    }
    if !accounts[2].is_signer {
        return Err(ProgramError::MissingRequiredSignature);
    }
    let state = get_stake_state(accounts, 0)?;
    let authority = accounts[2].key;
    rotate_and_store(accounts, state, authority, 3, new_authority, authority_type, ctx)
}

/// What `process_authorize_checked` guarantees: when it succeeds, what it writes, and which
/// error it returns where that is fixed.
pub open spec fn process_authorize_checked_post(o: Seq<AccountInfo>, n: Seq<AccountInfo>, r: Result<(), ProgramError>, authority_type: StakeAuthorize, ctx: InvokeContext) -> bool {
    &&& (r is Ok <==> {
        let a = o;
        &&& a.len() >= 4
        &&& holds_state(a[0])
        &&& a[0].is_writable
        &&& a[1].key == spec_clock_id()
        &&& a[2].is_signer
        &&& a[3].is_signer
        &&& (meta_of(stored(a[0])) matches Some(m) && may_authorize(
            m,
            authority_type,
            rotation_signers(a, 4, a[2].key, m),
            ctx.clock,
        ))
    })
    &&& (r is Err ==> n == o)
    &&& (r is Ok ==> reserves_kept(o, n))
    &&& (r is Ok ==> only_touched(o, n, set![0])
        && n[0].lamports == o[0].lamports
        && (meta_of(stored(o[0])) matches Some(m) && stored(n[0])
        == with_meta(stored(o[0]), with_authority(m, authority_type, o[3].key))))
}

/// `AuthorizeChecked`: accounts are the stake account, the clock sysvar, the
/// current authority and the new authority (both signing), and optionally the
/// lockup custodian (signing).
pub fn process_authorize_checked(
    accounts: &mut Vec<AccountInfo>,
    authority_type: StakeAuthorize,
    ctx: &InvokeContext,
) -> (r: Result<(), ProgramError>)
    ensures
        process_authorize_checked_post(old(accounts)@, final(accounts)@, r, authority_type, *ctx),
{
    if accounts.len() < 4 {
        return Err(ProgramError::NotEnoughAccountKeys);
    }
    let id = stake_program_id();
    if !keys_eq(&accounts[0].owner, &id) {
        return Err(ProgramError::InvalidAccountOwner);
    }
    if !accounts[0].is_writable {
        return Err(ProgramError::InvalidInstructionData);
    }
    let clock_key = clock_id();
    if !keys_eq(&accounts[1].key, &clock_key) {
        return Err(ProgramError::InvalidInstructionData);
    }
    if !accounts[2].is_signer || !accounts[3].is_signer {
        return Err(ProgramError::MissingRequiredSignature);
    }
    let state = get_stake_state(accounts, 0)?;
    let authority = accounts[2].key;
    let new_authority = accounts[3].key;
    rotate_and_store(accounts, state, authority, 4, new_authority, authority_type, ctx)
}

/// Who may change a lockup: its custodian while it is in force, the withdrawer
/// otherwise.
pub open spec fn may_set_lockup(accs: Seq<AccountInfo>, m: Meta, clock: crate::state::Clock) -> bool {
    if lockup_in_force(m.lockup, clock, None) {
        signed_in(accs, m.lockup.custodian)
    } else {
        signed_in(accs, m.authorized.withdrawer)
    }
}

/// `s` with the lockup fields replaced as given.
pub open spec fn lockup_set(s: StakeStateV2, ts: Option<i64>, epoch: Option<u64>, custodian: Option<Pubkey>) -> StakeStateV2 {
    match meta_of(s) {
        Some(m) => with_meta(s, Meta { lockup: lockup_updated(m.lockup, ts, epoch, custodian), ..m }),
        None => s,
    }
}

/// Changes the lockup of `meta` as `args` gives, when the custodian (lockup in
/// force) or the withdrawer (otherwise) is among the signers.
pub fn apply_lockup_update(meta: &mut Meta, args: &LockupArgs, clock: &crate::state::Clock, signers: &[Pubkey]) -> (r: Result<(), ProgramError>)
    ensures
        r is Ok <==> if lockup_in_force(old(meta).lockup, *clock, None) {
            signers@.contains(old(meta).lockup.custodian)
        } else {
            signers@.contains(old(meta).authorized.withdrawer)
        },
        r is Err ==> r == Err::<(), ProgramError>(ProgramError::MissingRequiredSignature) && *final(meta) == *old(meta),
        r is Ok ==> *final(meta) == (Meta {
            lockup: lockup_updated(old(meta).lockup, args.unix_timestamp, args.epoch, args.custodian),
            ..*old(meta)
        }),
{
    if meta.lockup.is_in_force(clock, None) {
        if !signed_by(signers, &meta.lockup.custodian) {
            return Err(ProgramError::MissingRequiredSignature);
        }
    } else if !signed_by(signers, &meta.authorized.withdrawer) {
        return Err(ProgramError::MissingRequiredSignature);
    }
    if let Some(t) = args.unix_timestamp {
        meta.lockup.unix_timestamp = t;
    }
    if let Some(e) = args.epoch {
        meta.lockup.epoch = e;
    }
    if let Some(c) = args.custodian {
        meta.lockup.custodian = c;
    }
    Ok(())
}

fn store_lockup(
    accounts: &mut Vec<AccountInfo>,
    ts: Option<i64>,
    epoch: Option<u64>,
    custodian: Option<Pubkey>,
    ctx: &InvokeContext,
) -> (r: Result<(), ProgramError>)
    requires
        old(accounts)@.len() >= 1,
    ensures
        r is Ok <==> {
            let a = old(accounts)@;
            &&& holds_state(a[0])
            &&& a[0].is_writable
            &&& (meta_of(stored(a[0])) matches Some(m) && may_set_lockup(a, m, ctx.clock))
        },
        r is Err ==> final(accounts)@ == old(accounts)@,
        r is Ok ==> reserves_kept(old(accounts)@, final(accounts)@),
        r is Ok ==> only_touched(old(accounts)@, final(accounts)@, set![0])
            && final(accounts)@[0].lamports == old(accounts)@[0].lamports
            && stored(final(accounts)@[0]) == lockup_set(stored(old(accounts)@[0]), ts, epoch, custodian),
        holds_state(old(accounts)@[0]) && old(accounts)@[0].is_writable
            && (meta_of(stored(old(accounts)@[0])) matches Some(m) && !may_set_lockup(old(accounts)@, m, ctx.clock))
            ==> r == Err::<(), ProgramError>(ProgramError::MissingRequiredSignature),
{
    let state = get_stake_state(accounts, 0)?;
    if !accounts[0].is_writable {
        return Err(ProgramError::InvalidInstructionData);
    }
    let mut meta = match state {
        StakeStateV2::Initialized(m) => m,
        StakeStateV2::Stake(m, _, _) => m,
        _ => {
            return Err(ProgramError::InvalidAccountData);
        },
    };
    let signers = collect_signers(accounts);
    let args = LockupArgs { unix_timestamp: ts, epoch, custodian };
    apply_lockup_update(&mut meta, &args, &ctx.clock, signers.as_slice())?;
    let new_state = match state {
        StakeStateV2::Stake(_, st, f) => StakeStateV2::Stake(meta, st, f),
        _ => StakeStateV2::Initialized(meta),
    };
    set_stake_state(accounts, 0, &new_state);
    Ok(())
}

/// What `process_set_lockup_parsed` guarantees: when it succeeds, what it writes, and which
/// error it returns where that is fixed.
pub open spec fn process_set_lockup_parsed_post(o: Seq<AccountInfo>, n: Seq<AccountInfo>, r: Result<(), ProgramError>, args: LockupArgs, ctx: InvokeContext) -> bool {
    &&& (r is Ok <==> {
        let a = o;
        &&& a.len() >= 1
        &&& holds_state(a[0])
        &&& a[0].is_writable
        &&& (meta_of(stored(a[0])) matches Some(m) && may_set_lockup(a, m, ctx.clock))
    })
    &&& (r is Err ==> n == o)
    &&& (r is Ok ==> reserves_kept(o, n))
    &&& (r is Ok ==> only_touched(o, n, set![0])
        && n[0].lamports == o[0].lamports
        && stored(n[0]) == lockup_set(
            stored(o[0]),
            args.unix_timestamp,
            args.epoch,
            args.custodian,
        ))
    &&& (o.len() >= 1 && holds_state(o[0]) && o[0].is_writable
        && (meta_of(stored(o[0])) matches Some(m) && !may_set_lockup(o, m, ctx.clock))
        ==> r == Err::<(), ProgramError>(ProgramError::MissingRequiredSignature))
}

/// `SetLockup` with decoded arguments: the first account is the stake account;
/// the custodian (lockup in force) or the withdrawer (otherwise) must sign.
pub fn process_set_lockup_parsed(accounts: &mut Vec<AccountInfo>, args: &LockupArgs, ctx: &InvokeContext) -> (r: Result<(), ProgramError>)
    ensures
        process_set_lockup_parsed_post(old(accounts)@, final(accounts)@, r, *args, *ctx),
{
    if accounts.len() < 1 {
        return Err(ProgramError::NotEnoughAccountKeys);
    }
    store_lockup(accounts, args.unix_timestamp, args.epoch, args.custodian, ctx)
}

/// `SetLockup` with its arguments in compact form (see `parse_set_lockup_bytes`).
pub fn process_set_lockup(accounts: &mut Vec<AccountInfo>, instruction_data: &[u8], ctx: &InvokeContext) -> (r: Result<(), ProgramError>)
    ensures
        r is Ok <==> {
            let a = old(accounts)@;
            &&& a.len() >= 1
            &&& compact_lockup(instruction_data@, true) is Some
            &&& holds_state(a[0])
            &&& a[0].is_writable
            &&& (meta_of(stored(a[0])) matches Some(m) && may_set_lockup(a, m, ctx.clock))
        },
        compact_lockup(instruction_data@, true) is None && old(accounts)@.len() >= 1
            ==> r == Err::<(), ProgramError>(ProgramError::InvalidInstructionData),
        r is Err ==> final(accounts)@ == old(accounts)@,
        r is Ok ==> reserves_kept(old(accounts)@, final(accounts)@),
        r is Ok ==> only_touched(old(accounts)@, final(accounts)@, set![0])
            && final(accounts)@[0].lamports == old(accounts)@[0].lamports
            && (compact_lockup(instruction_data@, true) matches Some(e) && stored(final(accounts)@[0])
            == lockup_set(stored(old(accounts)@[0]), e.unix_timestamp, e.epoch, e.custodian)),
{
    if accounts.len() < 1 {
        return Err(ProgramError::NotEnoughAccountKeys);
    }
    let args = parse_set_lockup_bytes(instruction_data, true)?;
    process_set_lockup_parsed(accounts, &args, ctx)
}

/// What `process_set_lockup_checked` guarantees: when it succeeds, what it writes, and which
/// error it returns where that is fixed.
pub open spec fn process_set_lockup_checked_post(o: Seq<AccountInfo>, n: Seq<AccountInfo>, r: Result<(), ProgramError>, args: LockupCheckedArgs, ctx: InvokeContext) -> bool {
    &&& (o.len() >= 3 && !o[2].is_signer ==> r == Err::<(), ProgramError>(ProgramError::MissingRequiredSignature))
    &&& (r is Ok <==> {
        let a = o;
        &&& a.len() >= 1
        &&& (a.len() >= 3 ==> a[2].is_signer)
        &&& holds_state(a[0])
        &&& a[0].is_writable
        &&& (meta_of(stored(a[0])) matches Some(m) && may_set_lockup(a, m, ctx.clock))
    })
    &&& (r is Err ==> n == o)
    &&& (r is Ok ==> reserves_kept(o, n))
    &&& (r is Ok ==> only_touched(o, n, set![0])
        && n[0].lamports == o[0].lamports
        && (meta_of(stored(o[0])) matches Some(m) && stored(n[0]) == lockup_set(
            stored(o[0]),
            args.unix_timestamp,
            args.epoch,
            if o.len() >= 3 && !lockup_in_force(m.lockup, ctx.clock, None) {
                Some(o[2].key)
            } else {
                None
            },
        )))
    &&& (o.len() >= 1 && (o.len() >= 3 ==> o[2].is_signer)
        && holds_state(o[0]) && o[0].is_writable
        && (meta_of(stored(o[0])) matches Some(m) && !may_set_lockup(o, m, ctx.clock))
        ==> r == Err::<(), ProgramError>(ProgramError::MissingRequiredSignature))
}

/// `SetLockupChecked`: like `SetLockup`, but a new custodian comes as the third
/// account, which must sign, and replaces the custodian only while the lockup is
/// not in force.
pub fn process_set_lockup_checked(accounts: &mut Vec<AccountInfo>, args: &LockupCheckedArgs, ctx: &InvokeContext) -> (r: Result<(), ProgramError>)
    ensures
        process_set_lockup_checked_post(old(accounts)@, final(accounts)@, r, *args, *ctx),
{
    if accounts.len() < 1 {
        return Err(ProgramError::NotEnoughAccountKeys);
    }
    let mut custodian: Option<Pubkey> = None;
    if accounts.len() >= 3 {
        if !accounts[2].is_signer {
            return Err(ProgramError::MissingRequiredSignature);
        }
        custodian = Some(accounts[2].key);
    }
    let state = get_stake_state(accounts, 0)?;
    let in_force = match state {
        StakeStateV2::Initialized(m) => m.lockup.is_in_force(&ctx.clock, None),
        StakeStateV2::Stake(m, _, _) => m.lockup.is_in_force(&ctx.clock, None),
        _ => false,
    };
    if in_force {
        custodian = None;
    }
    store_lockup(accounts, args.unix_timestamp, args.epoch, custodian, ctx)
}

/// A fresh delegation of `amount` lamports to `voter`, starting at `epoch`.
pub open spec fn new_stake(voter: Pubkey, amount: u64, epoch: u64, credits: u64) -> Stake {
    Stake {
        delegation: Delegation {
            voter_pubkey: voter,
            stake: amount,
            activation_epoch: epoch,
            deactivation_epoch: u64::MAX,
            warmup_cooldown_rate_bits: crate::state::DEFAULT_WARMUP_COOLDOWN_RATE_BITS,
        },
        credits_observed: credits,
    }
}

/// The state after a delegation of `amount` lamports to `voter`: a new
/// delegation, or, for a deactivating one, the deactivation rescinded.
pub open spec fn delegated(s: StakeStateV2, voter: Pubkey, amount: u64, epoch: u64, credits: u64) -> StakeStateV2 {
    match s {
        StakeStateV2::Initialized(m) => StakeStateV2::Stake(m, new_stake(voter, amount, epoch, credits), StakeFlags { bits: 0 }),
        StakeStateV2::Stake(m, st, f) => if st.delegation.deactivation_epoch != u64::MAX {
            StakeStateV2::Stake(m, Stake { delegation: Delegation { deactivation_epoch: u64::MAX, ..st.delegation }, ..st }, f)
        } else {
            StakeStateV2::Stake(m, new_stake(voter, amount, epoch, credits), f)
        },
        _ => s,
    }
}

/// A delegation whose deactivation has been scheduled.
pub open spec fn is_deactivating(s: StakeStateV2) -> bool {
    s matches StakeStateV2::Stake(_, st, _) && st.delegation.deactivation_epoch != u64::MAX
}

/// The delegated lamports of a state, zero where nothing is delegated.
pub open spec fn delegated_amount(s: StakeStateV2) -> u64 {
    match s {
        StakeStateV2::Stake(_, st, _) => st.delegation.stake,
        _ => 0,
    }
}

/// Whether the existing delegation allows delegating to `voter` now: a
/// deactivating one only back to its own voter (and holding at least the
/// minimum, which a rescind keeps), an active one only while none
/// of it is effective yet.
pub open spec fn may_redelegate(s: StakeStateV2, voter: Pubkey, ctx: InvokeContext) -> bool {
    match s {
        StakeStateV2::Stake(_, st, _) => if st.delegation.deactivation_epoch != u64::MAX {
            st.delegation.voter_pubkey == voter && st.delegation.stake >= MINIMUM_DELEGATION
        } else {
            activation_status(st.delegation, ctx.clock.epoch, ctx.stake_history@, WARMUP_COOLDOWN_RATE_CUTOFF_EPOCH).effective == 0
        },
        _ => true,
    }
}

/// The account checks of a delegation, up to the staker's signature.
pub open spec fn delegate_accounts_ok(a: Seq<AccountInfo>) -> bool {
    &&& a.len() >= 4
    &&& holds_state(a[0])
    &&& a[0].is_writable
    &&& a[1].owner == spec_vote_program_id()
    &&& a[2].key == spec_clock_id()
    &&& a[3].key == spec_stake_history_id()
    &&& (meta_of(stored(a[0])) matches Some(m) && signed_in(a, m.authorized.staker))
}

/// The lamports above the reserve of a delegating account.
pub open spec fn delegable(a: AccountInfo) -> int {
    a.lamports - meta_of(stored(a)).unwrap().rent_exempt_reserve
}

/// What `process_delegate` guarantees: when it succeeds, what it writes, and which
/// error it returns where that is fixed.
pub open spec fn process_delegate_post(o: Seq<AccountInfo>, n: Seq<AccountInfo>, r: Result<(), ProgramError>, ctx: InvokeContext) -> bool {
    &&& (r is Ok <==> {
        let a = o;
        &&& a.len() >= 4
        &&& holds_state(a[0])
        &&& a[0].is_writable
        &&& a[1].owner == spec_vote_program_id()
        &&& a[2].key == spec_clock_id()
        &&& a[3].key == spec_stake_history_id()
        &&& (meta_of(stored(a[0])) matches Some(m) && signed_in(a, m.authorized.staker)
            && a[0].lamports >= m.rent_exempt_reserve
            && a[0].lamports - m.rent_exempt_reserve >= MINIMUM_DELEGATION)
        &&& may_redelegate(stored(a[0]), a[1].key, ctx)
    })
    &&& (r is Err ==> n == o)
    &&& (r is Ok ==> reserves_kept(o, n))
    &&& (r is Ok ==> only_touched(o, n, set![0])
        && n[0].lamports == o[0].lamports
        && (meta_of(stored(o[0])) matches Some(m) && stored(n[0]) == delegated(
            stored(o[0]),
            o[1].key,
            (o[0].lamports - m.rent_exempt_reserve) as u64,
            ctx.clock.epoch,
            latest_credits(o[1].data@),
        )))
    &&& (r is Ok ==> delegated_amount(stored(n[0])) >= MINIMUM_DELEGATION)
    &&& (delegate_accounts_ok(o) && 0 <= delegable(o[0]) < MINIMUM_DELEGATION
        ==> r == Err::<(), ProgramError>(stake_err(StakeError::InsufficientDelegation)))
    &&& (delegate_accounts_ok(o) && delegable(o[0]) >= MINIMUM_DELEGATION
        && is_deactivating(stored(o[0]))
        && (stored(o[0]) matches StakeStateV2::Stake(_, st, _) && st.delegation.voter_pubkey != o[1].key)
        ==> r == Err::<(), ProgramError>(stake_err(StakeError::TooSoonToRedelegate)))
}

/// `DelegateStake`: accounts are the stake account, the vote account, the clock
/// and the stake history sysvars; the staker must sign among the accounts. All
/// lamports above the reserve are delegated.
pub fn process_delegate(accounts: &mut Vec<AccountInfo>, ctx: &InvokeContext) -> (r: Result<(), ProgramError>)
    ensures
        process_delegate_post(old(accounts)@, final(accounts)@, r, *ctx),
{
    if accounts.len() < 4 {
        return Err(ProgramError::NotEnoughAccountKeys);
    }
    let signers = collect_signers(accounts);
    let id = stake_program_id();
    if !keys_eq(&accounts[0].owner, &id) || !accounts[0].is_writable {
        return Err(ProgramError::InvalidAccountOwner);
    }
    let vote_id = vote_program_id();
    if !keys_eq(&accounts[1].owner, &vote_id) {
        return Err(ProgramError::IncorrectProgramId);
    }
    let clock_key = clock_id();
    if !keys_eq(&accounts[2].key, &clock_key) {
        return Err(ProgramError::InvalidArgument);
    }
    let history_key = stake_history_id();
    if !keys_eq(&accounts[3].key, &history_key) {
        return Err(ProgramError::InvalidInstructionData);
    }
    let credits = get_vote_credits(accounts[1].data.as_slice());
    let voter = accounts[1].key;
    let state = get_stake_state(accounts, 0)?;
    let meta = match state {
        StakeStateV2::Initialized(m) => m,
        StakeStateV2::Stake(m, _, _) => m,
        _ => {
            return Err(ProgramError::InvalidAccountData);
        },
    };
    if !signed_by(signers.as_slice(), &meta.authorized.staker) {
        return Err(ProgramError::MissingRequiredSignature);
    }
    if accounts[0].lamports < meta.rent_exempt_reserve {
        return Err(ProgramError::InsufficientFunds);
    }
    let stake_amount = accounts[0].lamports - meta.rent_exempt_reserve;
    if stake_amount < MINIMUM_DELEGATION {
        return Err(to_program_error(StakeError::InsufficientDelegation));
    }
    let epoch = ctx.clock.epoch;
    let new_state = match state {
        StakeStateV2::Stake(m, st, f) => {
            if st.delegation.deactivation_epoch != u64::MAX {
                if !keys_eq(&st.delegation.voter_pubkey, &voter) {
                    return Err(to_program_error(StakeError::TooSoonToRedelegate));
                }
                if st.delegation.stake < MINIMUM_DELEGATION {
                    return Err(to_program_error(StakeError::InsufficientDelegation));
                }
                let mut rescinded = st;
                rescinded.delegation.deactivation_epoch = u64::MAX;
                StakeStateV2::Stake(m, rescinded, f)
            } else {
                if st.delegation.stake(epoch, &ctx.stake_history, WARMUP_COOLDOWN_RATE_CUTOFF_EPOCH) != 0 {
                    return Err(to_program_error(StakeError::TooSoonToRedelegate));
                }
                StakeStateV2::Stake(m, fresh_stake(voter, stake_amount, epoch, credits), f)
            }
        },
        _ => StakeStateV2::Stake(meta, fresh_stake(voter, stake_amount, epoch, credits), StakeFlags::empty()),
    };
    set_stake_state(accounts, 0, &new_state);
    Ok(())
}

fn fresh_stake(voter: Pubkey, amount: u64, epoch: u64, credits: u64) -> (r: Stake)
    ensures
        r == new_stake(voter, amount, epoch, credits),
{
    Stake {
        delegation: Delegation {
            voter_pubkey: voter,
            stake: amount,
            activation_epoch: epoch,
            deactivation_epoch: u64::MAX,
            warmup_cooldown_rate_bits: crate::state::DEFAULT_WARMUP_COOLDOWN_RATE_BITS,
        },
        credits_observed: credits,
    }
}

/// Lamports a delegation still holds for withdrawal purposes: once its
/// deactivation epoch is reached, what is still effective; before, all of it.
pub open spec fn staked_for_withdraw(st: Stake, ctx: InvokeContext) -> u64 {
    let d = st.delegation;
    if d.deactivation_epoch != u64::MAX && ctx.clock.epoch >= d.deactivation_epoch {
        activation_status(d, ctx.clock.epoch, ctx.stake_history@, WARMUP_COOLDOWN_RATE_CUTOFF_EPOCH).effective
    } else {
        d.stake
    }
}

/// The lamports a partial withdrawal must leave behind.
pub open spec fn withdraw_floor(s: StakeStateV2, ctx: InvokeContext) -> int {
    match s {
        StakeStateV2::Stake(m, st, _) => staked_for_withdraw(st, ctx) + m.rent_exempt_reserve,
        StakeStateV2::Initialized(m) => m.rent_exempt_reserve as int,
        _ => ctx.minimum_balance as int,
    }
}

/// Whether some stake is still held, which forbids closing the account.
pub open spec fn withdraw_staked(s: StakeStateV2, ctx: InvokeContext) -> bool {
    s matches StakeStateV2::Stake(_, st, _) && staked_for_withdraw(st, ctx) != 0
}

/// The lockup that restricts a withdrawal; an uninitialized account has none.
pub open spec fn withdraw_lockup(s: StakeStateV2) -> Option<Lockup> {
    match meta_of(s) {
        Some(m) => Some(m.lockup),
        None => None,
    }
}

/// Whether the right party signed the withdrawal: the withdrawer (fifth account)
/// for an initialized or delegated account, the account itself otherwise.
pub open spec fn withdraw_authorized(a: Seq<AccountInfo>, s: StakeStateV2) -> bool {
    match s {
        StakeStateV2::Initialized(m) => a[4].key == m.authorized.withdrawer,
        StakeStateV2::Stake(m, _, _) => a[4].key == m.authorized.withdrawer,
        StakeStateV2::Uninitialized => a[0].is_signer,
        StakeStateV2::RewardsPool => false,
    }
}

pub open spec fn withdraw_lockup_clear(a: Seq<AccountInfo>, s: StakeStateV2, ctx: InvokeContext) -> bool {
    match withdraw_lockup(s) {
        Some(l) => !lockup_in_force(
            l,
            ctx.clock,
            if exists|j: int| 5 <= j < a.len() && a[j].is_signer && a[j].key == l.custodian {
                Some(l.custodian)
            } else {
                None
            },
        ),
        None => true,
    }
}

/// The account and authority checks of a withdrawal, before the lockup and the
/// amount are looked at.
pub open spec fn withdraw_ready(a: Seq<AccountInfo>, ctx: InvokeContext) -> bool {
    &&& a.len() >= 5
    &&& holds_state(a[0])
    &&& a[0].is_writable
    &&& a[1].is_writable
    &&& a[2].key == spec_clock_id()
    &&& a[3].key == spec_stake_history_id()
    &&& a[4].is_signer
    &&& withdraw_authorized(a, stored(a[0]))
    &&& withdraw_floor(stored(a[0]), ctx) <= u64::MAX
}

/// What `process_withdraw` guarantees: when it succeeds, what it writes, and which
/// error it returns where that is fixed.
pub open spec fn process_withdraw_post(o: Seq<AccountInfo>, n: Seq<AccountInfo>, r: Result<(), ProgramError>, withdraw_lamports: u64, ctx: InvokeContext) -> bool {
    &&& (r is Ok <==> {
        let a = o;
        let s = stored(a[0]);
        &&& a.len() >= 5
        &&& holds_state(a[0])
        &&& a[0].is_writable
        &&& a[1].is_writable
        &&& a[2].key == spec_clock_id()
        &&& a[3].key == spec_stake_history_id()
        &&& a[4].is_signer
        &&& withdraw_authorized(a, s)
        &&& withdraw_floor(s, ctx) <= u64::MAX
        &&& withdraw_lockup_clear(a, s, ctx)
        &&& if withdraw_lamports == a[0].lamports {
            !withdraw_staked(s, ctx)
        } else {
            withdraw_lamports + withdraw_floor(s, ctx) <= a[0].lamports
        }
        &&& a[1].lamports + withdraw_lamports <= u64::MAX
    })
    &&& (r is Err ==> n == o)
    &&& (r is Ok ==> reserves_kept(o, n))
    &&& (r is Ok ==> only_touched(o, n, set![0, 1])
        && n[0].lamports == o[0].lamports - withdraw_lamports
        && n[1].lamports == o[1].lamports + withdraw_lamports
        && n[1].data == o[1].data
        && (if withdraw_lamports == o[0].lamports {
            stored(n[0]) is Uninitialized
        } else {
            n[0].data == o[0].data
                && n[0].lamports >= withdraw_floor(stored(o[0]), ctx)
        }))
    &&& (withdraw_ready(o, ctx) && !withdraw_lockup_clear(o, stored(o[0]), ctx)
        ==> r == Err::<(), ProgramError>(stake_err(StakeError::LockupInForce)))
    &&& (withdraw_ready(o, ctx) && withdraw_lockup_clear(o, stored(o[0]), ctx)
        && withdraw_lamports == o[0].lamports && withdraw_staked(stored(o[0]), ctx)
        ==> r == Err::<(), ProgramError>(ProgramError::InsufficientFunds))
}

/// `Withdraw`: accounts are the stake account, the recipient, the clock and the
/// stake history sysvars, the withdraw authority (signing), and optionally the
/// lockup custodian (signing). Withdrawing everything closes the account.
pub fn process_withdraw(accounts: &mut Vec<AccountInfo>, withdraw_lamports: u64, ctx: &InvokeContext) -> (r: Result<(), ProgramError>)
    ensures
        process_withdraw_post(old(accounts)@, final(accounts)@, r, withdraw_lamports, *ctx),
{
    if accounts.len() < 5 {
        return Err(ProgramError::NotEnoughAccountKeys);
    }
    let id = stake_program_id();
    if !keys_eq(&accounts[0].owner, &id) || !accounts[0].is_writable {
        return Err(ProgramError::InvalidAccountOwner);
    }
    if !accounts[1].is_writable {
        return Err(ProgramError::InvalidInstructionData);
    }
    let clock_key = clock_id();
    if !keys_eq(&accounts[2].key, &clock_key) {
        return Err(ProgramError::InvalidInstructionData);
    }
    let history_key = stake_history_id();
    if !keys_eq(&accounts[3].key, &history_key) {
        return Err(ProgramError::InvalidInstructionData);
    }
    if !accounts[4].is_signer {
        return Err(ProgramError::MissingRequiredSignature);
    }
    let state = get_stake_state(accounts, 0)?;
    let epoch = ctx.clock.epoch;
    let (lockup, floor, is_staked) = match state {
        StakeStateV2::Stake(meta, stake, _) => {
            if !keys_eq(&accounts[4].key, &meta.authorized.withdrawer) {
                return Err(ProgramError::MissingRequiredSignature);
            }
            let d = stake.delegation;
            let staked: u64 = if d.deactivation_epoch != u64::MAX && epoch >= d.deactivation_epoch {
                d.stake(epoch, &ctx.stake_history, WARMUP_COOLDOWN_RATE_CUTOFF_EPOCH)
            } else {
                d.stake
            };
            if staked > u64::MAX - meta.rent_exempt_reserve {
                return Err(ProgramError::ArithmeticOverflow);
            }
            (Some(meta.lockup), staked + meta.rent_exempt_reserve, staked != 0)
        },
        StakeStateV2::Initialized(meta) => {
            if !keys_eq(&accounts[4].key, &meta.authorized.withdrawer) {
                return Err(ProgramError::MissingRequiredSignature);
            }
            (Some(meta.lockup), meta.rent_exempt_reserve, false)
        },
        StakeStateV2::Uninitialized => {
            if !accounts[0].is_signer {
                return Err(ProgramError::MissingRequiredSignature);
            }
            (None, ctx.minimum_balance, false)
        },
        StakeStateV2::RewardsPool => {
            return Err(ProgramError::InvalidAccountData);
        },
    };
    if let Some(l) = lockup {
        let custodian_signed = find_signer(accounts, 5, &l.custodian);
        let in_force = if custodian_signed {
            l.is_in_force(&ctx.clock, Some(&l.custodian))
        } else {
            l.is_in_force(&ctx.clock, None)
        };
        if in_force {
            return Err(to_program_error(StakeError::LockupInForce));
        }
    }
    let lamports = accounts[0].lamports;
    let full = withdraw_lamports == lamports;
    if full {
        if is_staked {
            return Err(ProgramError::InsufficientFunds);
        }
    } else {
        if withdraw_lamports > u64::MAX - floor {
            return Err(ProgramError::ArithmeticOverflow);
        }
        if withdraw_lamports + floor > lamports {
            return Err(ProgramError::InsufficientFunds);
        }
    }
    if accounts[1].lamports > u64::MAX - withdraw_lamports {
        return Err(ProgramError::InsufficientFunds);
    }
    if full {
        set_stake_state(accounts, 0, &StakeStateV2::Uninitialized);
    }
    let moved = relocate_lamports(accounts, 0, 1, withdraw_lamports);
    assert(moved is Ok);
    Ok(())
}

/// Longest seed of a derived address.
pub const MAX_SEED_LEN: usize = 32;

/// The address derived from a base address, a seed and an owner program:
/// the SHA-256 digest of the three concatenated.
pub open spec fn seed_address(base: Pubkey, seed: Seq<u8>, owner: Pubkey) -> Pubkey {
    choose|k: Pubkey| k@ == sha256(base@ + seed + owner@)
}

/// Derives the address of `seed` under `base` for `owner`.
pub fn derive_with_seed(base: &Pubkey, seed: &[u8], owner: &Pubkey) -> (r: Result<Pubkey, ProgramError>)
    ensures
        seed@.len() > MAX_SEED_LEN ==> r == Err::<Pubkey, ProgramError>(ProgramError::InvalidInstructionData),
        seed@.len() <= MAX_SEED_LEN ==> r == Ok::<Pubkey, ProgramError>(seed_address(*base, seed@, *owner)),
{
    if seed.len() > MAX_SEED_LEN {
        return Err(ProgramError::InvalidInstructionData);
    }
    let mut buf: Vec<u8> = Vec::new();
    let mut i: usize = 0;
    while i < 32
        invariant
            i <= 32,
            buf@ == base@.subrange(0, i as int),
        decreases 32 - i,
    {
        buf.push(base[i]);
        i = i + 1;
        assert(buf@ =~= base@.subrange(0, i as int));
    }
    let mut j: usize = 0;
    while j < seed.len()
        invariant
            j <= seed@.len(),
            buf@ == base@ + seed@.subrange(0, j as int),
        decreases seed@.len() - j,
    {
        buf.push(seed[j]);
        j = j + 1;
        assert(buf@ =~= base@ + seed@.subrange(0, j as int));
    }
    assert(seed@.subrange(0, seed@.len() as int) =~= seed@);
    let mut k: usize = 0;
    while k < 32
        invariant
            k <= 32,
            seed@.len() <= MAX_SEED_LEN,
            buf@ == base@ + seed@ + owner@.subrange(0, k as int),
        decreases 32 - k,
    {
        buf.push(owner[k]);
        k = k + 1;
        assert(buf@ =~= base@ + seed@ + owner@.subrange(0, k as int));
    }
    assert(base@.subrange(0, 32) =~= base@);
    assert(owner@.subrange(0, 32) =~= owner@);
    let out = hash(buf.as_slice());
    proof {
        let want = seed_address(*base, seed@, *owner);
        assert(want@ == sha256(base@ + seed@ + owner@));
        crate::state::lemma_keys_by_view(out, want);
    }
    Ok(out)
}

/// The derived address is the current authority of the role: the staker or the
/// withdrawer for the staker role, the withdrawer for the withdrawer role.
pub open spec fn seed_authority_ok(s: StakeStateV2, role: StakeAuthorize, derived: Pubkey) -> bool {
    match meta_of(s) {
        Some(m) => match role {
            StakeAuthorize::Staker => derived == m.authorized.staker || derived == m.authorized.withdrawer,
            StakeAuthorize::Withdrawer => derived == m.authorized.withdrawer,
        },
        None => true,
    }
}

fn seed_authority_matches(s: &StakeStateV2, derived: &Pubkey, role: StakeAuthorize) -> (r: bool)
    ensures
        r == seed_authority_ok(*s, role, *derived),
{
    let m = match s {
        StakeStateV2::Initialized(m) => m,
        StakeStateV2::Stake(m, _, _) => m,
        _ => {
            return true;
        },
    };
    match role {
        StakeAuthorize::Staker => keys_eq(derived, &m.authorized.staker) || keys_eq(derived, &m.authorized.withdrawer),
        StakeAuthorize::Withdrawer => keys_eq(derived, &m.authorized.withdrawer),
    }
}

/// What `process_authorized_with_seeds` guarantees: when it succeeds, what it writes, and which
/// error it returns where that is fixed.
pub open spec fn process_authorized_with_seeds_post(o: Seq<AccountInfo>, n: Seq<AccountInfo>, r: Result<(), ProgramError>, args: AuthorizeWithSeedArgs, ctx: InvokeContext) -> bool {
    &&& (r is Ok <==> {
        let a = o;
        let derived = seed_address(a[1].key, args.authority_seed@, args.authority_owner);
        &&& a.len() >= 3
        &&& holds_state(a[0])
        &&& a[0].is_writable
        &&& a[1].is_signer
        &&& a[2].key == spec_clock_id()
        &&& args.authority_seed@.len() <= MAX_SEED_LEN
        &&& seed_authority_ok(stored(a[0]), args.stake_authorize, derived)
        &&& (meta_of(stored(a[0])) matches Some(m) && may_authorize(
            m,
            args.stake_authorize,
            rotation_signers(a, 3, derived, m),
            ctx.clock,
        ))
    })
    &&& (r is Err ==> n == o)
    &&& (r is Ok ==> reserves_kept(o, n))
    &&& (r is Ok ==> only_touched(o, n, set![0])
        && n[0].lamports == o[0].lamports
        && (meta_of(stored(o[0])) matches Some(m) && stored(n[0])
        == with_meta(stored(o[0]), with_authority(m, args.stake_authorize, args.new_authorized_pubkey))))
}

/// `AuthorizeWithSeed`: accounts are the stake account, the base (signing),
/// the clock sysvar, and optionally the lockup custodian (signing). The current
/// authority is the address derived from the base, seed and owner.
pub fn process_authorized_with_seeds(accounts: &mut Vec<AccountInfo>, args: &AuthorizeWithSeedArgs, ctx: &InvokeContext) -> (r: Result<(), ProgramError>)
    ensures
        process_authorized_with_seeds_post(old(accounts)@, final(accounts)@, r, *args, *ctx),
{
    if accounts.len() < 3 {
        return Err(ProgramError::NotEnoughAccountKeys);
    }
    let id = stake_program_id();
    if !keys_eq(&accounts[0].owner, &id) {
        return Err(ProgramError::InvalidAccountOwner);
    }
    if !accounts[0].is_writable {
        return Err(ProgramError::InvalidInstructionData);
    }
    if !accounts[1].is_signer {
        return Err(ProgramError::MissingRequiredSignature);
    }
    let clock_key = clock_id();
    if !keys_eq(&accounts[2].key, &clock_key) {
        return Err(ProgramError::InvalidInstructionData);
    }
    let derived = derive_with_seed(&accounts[1].key, args.authority_seed.as_slice(), &args.authority_owner)?;
    let state = get_stake_state(accounts, 0)?;
    if !seed_authority_matches(&state, &derived, args.stake_authorize) {
        return Err(ProgramError::MissingRequiredSignature);
    }
    rotate_and_store(accounts, state, derived, 3, args.new_authorized_pubkey, args.stake_authorize, ctx)
}

/// What `process_authorize_checked_with_seed` guarantees: when it succeeds, what it writes, and which
/// error it returns where that is fixed.
pub open spec fn process_authorize_checked_with_seed_post(o: Seq<AccountInfo>, n: Seq<AccountInfo>, r: Result<(), ProgramError>, args: AuthorizeCheckedWithSeedArgs, ctx: InvokeContext) -> bool {
    &&& (r is Ok <==> {
        let a = o;
        let derived = seed_address(a[1].key, args.authority_seed@, args.authority_owner);
        &&& a.len() >= 4
        &&& holds_state(a[0])
        &&& a[0].is_writable
        &&& a[1].is_signer
        &&& a[2].key == spec_clock_id()
        &&& a[3].is_signer
        &&& args.authority_seed@.len() <= MAX_SEED_LEN
        &&& seed_authority_ok(stored(a[0]), args.stake_authorize, derived)
        &&& (meta_of(stored(a[0])) matches Some(m) && may_authorize(
            m,
            args.stake_authorize,
            rotation_signers(a, 4, derived, m),
            ctx.clock,
        ))
    })
    &&& (r is Err ==> n == o)
    &&& (r is Ok ==> reserves_kept(o, n))
    &&& (r is Ok ==> only_touched(o, n, set![0])
        && n[0].lamports == o[0].lamports
        && (meta_of(stored(o[0])) matches Some(m) && stored(n[0])
        == with_meta(stored(o[0]), with_authority(m, args.stake_authorize, o[3].key))))
}

/// `AuthorizeCheckedWithSeed`: accounts are the stake account, the base
/// (signing), the clock sysvar, the new authority (signing), and optionally the
/// lockup custodian (signing).
pub fn process_authorize_checked_with_seed(accounts: &mut Vec<AccountInfo>, args: &AuthorizeCheckedWithSeedArgs, ctx: &InvokeContext) -> (r: Result<(), ProgramError>)
    ensures
        process_authorize_checked_with_seed_post(old(accounts)@, final(accounts)@, r, *args, *ctx),
{
    if accounts.len() < 4 {
        return Err(ProgramError::NotEnoughAccountKeys);
    }
    let id = stake_program_id();
    if !keys_eq(&accounts[0].owner, &id) {
        return Err(ProgramError::InvalidAccountOwner);
    }
    if !accounts[0].is_writable {
        return Err(ProgramError::InvalidInstructionData);
    }
    if !accounts[1].is_signer || !accounts[3].is_signer {
        return Err(ProgramError::MissingRequiredSignature);
    }
    let clock_key = clock_id();
    if !keys_eq(&accounts[2].key, &clock_key) {
        return Err(ProgramError::InvalidInstructionData);
    }
    let derived = derive_with_seed(&accounts[1].key, args.authority_seed.as_slice(), &args.authority_owner)?;
    let state = get_stake_state(accounts, 0)?;
    if !seed_authority_matches(&state, &derived, args.stake_authorize) {
        return Err(ProgramError::MissingRequiredSignature);
    }
    let new_authority = accounts[3].key;
    rotate_and_store(accounts, state, derived, 4, new_authority, args.stake_authorize, ctx)
}

/// The reference vote account voted in each of the last
/// `MINIMUM_DELINQUENT_EPOCHS_FOR_DEACTIVATION` epochs, ending now or one epoch ago.
pub open spec fn reference_ok(d: Seq<u8>, epoch: u64) -> bool {
    let n = MINIMUM_DELINQUENT_EPOCHS_FOR_DEACTIVATION;
    d.len() >= 4 && (has_consecutive_epochs(d, epoch, n) == Ok::<bool, ProgramError>(true) || (
    has_consecutive_epochs(d, epoch, n) == Ok::<bool, ProgramError>(false) && has_consecutive_epochs(
        d,
        if epoch >= 1 {
            (epoch - 1) as u64
        } else {
            0
        },
        n,
    ) == Ok::<bool, ProgramError>(true)))
}

/// The delinquent vote account has not voted in the last
/// `MINIMUM_DELINQUENT_EPOCHS_FOR_DEACTIVATION` epochs.
pub open spec fn delinquent_ok(d: Seq<u8>, epoch: u64) -> bool {
    let n = MINIMUM_DELINQUENT_EPOCHS_FOR_DEACTIVATION;
    d.len() < 4 || last_vote_epoch(d) == Ok::<Option<u64>, ProgramError>(None) || (
    last_vote_epoch(d) matches Ok(Some(last)) && epoch >= n && last <= epoch - n)
}

/// What `process_deactivate_delinquent` guarantees: when it succeeds, what it writes, and which
/// error it returns where that is fixed.
pub open spec fn process_deactivate_delinquent_post(o: Seq<AccountInfo>, n: Seq<AccountInfo>, r: Result<(), ProgramError>, ctx: InvokeContext) -> bool {
    &&& (r is Ok <==> {
        let a = o;
        &&& a.len() >= 3
        &&& a[1].owner == spec_vote_program_id()
        &&& a[2].owner == spec_vote_program_id()
        &&& reference_ok(a[2].data@, ctx.clock.epoch)
        &&& delinquent_ok(a[1].data@, ctx.clock.epoch)
        &&& holds_state(a[0]) && a[0].is_writable
        &&& (stored(a[0]) matches StakeStateV2::Stake(_, st, _) && st.delegation.voter_pubkey == a[1].key
            && st.delegation.deactivation_epoch == u64::MAX)
    })
    &&& (r is Err ==> n == o)
    &&& (r is Ok ==> reserves_kept(o, n))
    &&& (r is Ok ==> only_touched(o, n, set![0])
        && n[0].lamports == o[0].lamports
        && stored(n[0]) == deactivated(stored(o[0]), ctx.clock.epoch))
    &&& (o.len() >= 3 && o[1].owner == spec_vote_program_id()
        && o[2].owner == spec_vote_program_id()
        && holds_state(o[0]) && o[0].is_writable
        && o[2].data@.len() >= 4
        && has_consecutive_epochs(o[2].data@, ctx.clock.epoch, MINIMUM_DELINQUENT_EPOCHS_FOR_DEACTIVATION) == Ok::<bool, ProgramError>(false)
        && has_consecutive_epochs(o[2].data@, if ctx.clock.epoch >= 1 { (ctx.clock.epoch - 1) as u64 } else { 0 }, MINIMUM_DELINQUENT_EPOCHS_FOR_DEACTIVATION) == Ok::<bool, ProgramError>(false)
        ==> r == Err::<(), ProgramError>(stake_err(StakeError::InsufficientReferenceVotes)))
}

/// `DeactivateDelinquent`: accounts are the stake account, the delinquent vote
/// account it is delegated to, and a reference vote account that voted in each
/// recent epoch. Anyone may send it.
pub fn process_deactivate_delinquent(accounts: &mut Vec<AccountInfo>, ctx: &InvokeContext) -> (r: Result<(), ProgramError>)
    ensures
        process_deactivate_delinquent_post(old(accounts)@, final(accounts)@, r, *ctx),
{
    if accounts.len() < 3 {
        return Err(ProgramError::NotEnoughAccountKeys);
    }
    let id = stake_program_id();
    if !keys_eq(&accounts[0].owner, &id) || !accounts[0].is_writable {
        return Err(ProgramError::InvalidAccountOwner);
    }
    let vote_id = vote_program_id();
    if !keys_eq(&accounts[1].owner, &vote_id) || !keys_eq(&accounts[2].owner, &vote_id) {
        return Err(ProgramError::IncorrectProgramId);
    }
    let epoch = ctx.clock.epoch;
    let n = MINIMUM_DELINQUENT_EPOCHS_FOR_DEACTIVATION;
    let reference_good = if accounts[2].data.len() >= 4 {
        acceptable_reference_epoch_credits_bytes(accounts[2].data.as_slice(), epoch, n)?
    } else {
        false
    };
    if !reference_good {
        return Err(to_program_error(StakeError::InsufficientReferenceVotes));
    }
    let delinquent_good = if accounts[1].data.len() < 4 {
        true
    } else {
        match last_vote_epoch_bytes(accounts[1].data.as_slice())? {
            None => true,
            Some(last) => epoch >= n && last <= epoch - n,
        }
    };
    if !delinquent_good {
        return Err(to_program_error(StakeError::MinimumDelinquentEpochsForDeactivationNotMet));
    }
    match get_stake_state(accounts, 0)? {
        StakeStateV2::Stake(meta, stake, flags) => {
            if !keys_eq(&stake.delegation.voter_pubkey, &accounts[1].key) {
                return Err(to_program_error(StakeError::VoteAddressMismatch));
            }
            if stake.delegation.deactivation_epoch != u64::MAX {
                return Err(to_program_error(StakeError::AlreadyDeactivated));
            }
            let mut st = stake;
            st.delegation.deactivation_epoch = epoch;
            set_stake_state(accounts, 0, &StakeStateV2::Stake(meta, st, flags));
            Ok(())
        },
        _ => Err(ProgramError::InvalidAccountData),
    }
}

/// Delegation under its second name: the same accounts and rules as
/// `process_delegate`, for a first delegation or a redelegation.
pub fn redelegate(accounts: &mut Vec<AccountInfo>, ctx: &InvokeContext) -> (r: Result<(), ProgramError>)
    ensures
        r is Ok <==> {
            let a = old(accounts)@;
            &&& a.len() >= 4
            &&& holds_state(a[0])
            &&& a[0].is_writable
            &&& a[1].owner == spec_vote_program_id()
            &&& a[2].key == spec_clock_id()
            &&& a[3].key == spec_stake_history_id()
            &&& (meta_of(stored(a[0])) matches Some(m) && signed_in(a, m.authorized.staker)
                && a[0].lamports >= m.rent_exempt_reserve
                && a[0].lamports - m.rent_exempt_reserve >= MINIMUM_DELEGATION)
            &&& may_redelegate(stored(a[0]), a[1].key, *ctx)
        },
        r is Err ==> final(accounts)@ == old(accounts)@,
        r is Ok ==> reserves_kept(old(accounts)@, final(accounts)@),
        r is Ok ==> only_touched(old(accounts)@, final(accounts)@, set![0])
            && final(accounts)@[0].lamports == old(accounts)@[0].lamports
            && (meta_of(stored(old(accounts)@[0])) matches Some(m) && stored(final(accounts)@[0]) == delegated(
                stored(old(accounts)@[0]),
                old(accounts)@[1].key,
                (old(accounts)@[0].lamports - m.rent_exempt_reserve) as u64,
                ctx.clock.epoch,
                latest_credits(old(accounts)@[1].data@),
            )),
{
    process_delegate(accounts, ctx)
}

} // verus!
