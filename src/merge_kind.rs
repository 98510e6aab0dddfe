//! Classification of accounts for merging and moving, and the merge itself.

use vstd::prelude::*;

use crate::authority::lockup_in_force;
use crate::error::{stake_err, to_program_error, ProgramError, StakeError};
use crate::stake_history::{activation_status, StakeHistory, StakeHistoryEntry};
use crate::state::{keys_eq, Authorized, Clock, Delegation, Lockup, Meta, Stake, StakeFlags, StakeStateV2};

verus! {

/// Classification of stake accounts for merging and moving.
#[derive(Clone, Copy, Debug)]
pub enum MergeKind {
    /// Not delegated, or fully deactivated; holds the account's lamports.
    Inactive(Meta, u64, StakeFlags),
    /// Delegated in the current epoch and still activating.
    ActivationEpoch(Meta, Stake, StakeFlags),
    /// All of the delegation is effective.
    FullyActive(Meta, Stake),
}

pub open spec fn kind_meta(k: MergeKind) -> Meta {
    match k {
        MergeKind::Inactive(m, _, _) => m,
        MergeKind::ActivationEpoch(m, _, _) => m,
        MergeKind::FullyActive(m, _) => m,
    }
}

pub open spec fn mismatch<T>() -> Result<T, ProgramError> {
    Err(stake_err(StakeError::MergeMismatch))
}

/// The classification of an account in state `s` holding `lamports`.
pub open spec fn classify(s: StakeStateV2, lamports: u64, clock: Clock, h: Seq<(u64, StakeHistoryEntry)>, cutoff: u64) -> Result<MergeKind, ProgramError> {
    match s {
        StakeStateV2::Stake(meta, stake, flags) => {
            let d = stake.delegation;
            if d.deactivation_epoch != u64::MAX {
                if clock.epoch <= d.deactivation_epoch {
                    mismatch()
                } else {
                    Ok(MergeKind::Inactive(meta, lamports, flags))
                }
            } else if d.stake > 0 && clock.epoch > d.activation_epoch {
                Ok(MergeKind::FullyActive(meta, stake))
            } else {
                let st = activation_status(d, clock.epoch, h, cutoff);
                if st.deactivating > 0 {
                    mismatch()
                } else if st.effective == 0 && st.activating == 0 {
                    if d.stake > 0 {
                        Ok(MergeKind::ActivationEpoch(meta, stake, flags))
                    } else {
                        Ok(MergeKind::Inactive(meta, lamports, flags))
                    }
                } else if st.effective == 0 {
                    Ok(MergeKind::ActivationEpoch(meta, stake, flags))
                } else if st.activating == 0 && st.effective == d.stake {
                    Ok(MergeKind::FullyActive(meta, stake))
                } else {
                    mismatch()
                }
            }
        },
        StakeStateV2::Initialized(meta) => Ok(MergeKind::Inactive(meta, lamports, StakeFlags { bits: 0 })),
        _ => mismatch(),
    }
}

pub open spec fn metas_mergeable(dest: Meta, source: Meta, clock: Clock) -> bool {
    &&& dest.authorized == source.authorized
    &&& (dest.lockup == source.lockup || (!lockup_in_force(dest.lockup, clock, None)
        && !lockup_in_force(source.lockup, clock, None)))
}

pub open spec fn delegations_mergeable(dest: Delegation, source: Delegation) -> bool {
    dest.voter_pubkey == source.voter_pubkey && dest.deactivation_epoch == u64::MAX
        && source.deactivation_epoch == u64::MAX
}

/// Credits of a merged stake: the stake-weighted mean of both, rounded up.
pub open spec fn weighted_credits(stake: u64, credits: u64, absorbed: u64, absorbed_credits: u64) -> int {
    if credits == absorbed_credits {
        credits as int
    } else {
        (stake * credits + absorbed * absorbed_credits + (stake + absorbed) - 1) / ((stake + absorbed) as int)
    }
}

pub open spec fn merged_stake(s: Stake, absorbed: u64, absorbed_credits: u64) -> Stake {
    Stake {
        delegation: Delegation { stake: (s.delegation.stake + absorbed) as u64, ..s.delegation },
        credits_observed: weighted_credits(s.delegation.stake, s.credits_observed, absorbed, absorbed_credits) as u64,
    }
}

/// The merge's arithmetic fits: the summed stake in 64 bits, the weighted credit
/// sum in 128 bits, and the mean in 64 bits.
pub open spec fn can_absorb(s: Stake, absorbed: u64, absorbed_credits: u64) -> bool {
    let st = s.delegation.stake;
    let c = s.credits_observed;
    &&& st + absorbed <= u64::MAX
    &&& c == absorbed_credits || (st + absorbed > 0 && st * c + absorbed * absorbed_credits + (st
        + absorbed) - 1 <= u128::MAX && weighted_credits(st, c, absorbed, absorbed_credits)
        <= u64::MAX)
}

fn authorized_eq(a: &Authorized, b: &Authorized) -> (r: bool)
    ensures
        r == (*a == *b),
{
    keys_eq(&a.staker, &b.staker) && keys_eq(&a.withdrawer, &b.withdrawer)
}

fn lockup_eq(a: &Lockup, b: &Lockup) -> (r: bool)
    ensures
        r == (*a == *b),
{
    a.unix_timestamp == b.unix_timestamp && a.epoch == b.epoch && keys_eq(&a.custodian, &b.custodian)
}

/// Adds `absorbed` lamports of stake with their credits to `stake`.
pub fn merge_delegation_stake_and_credits_observed(stake: &mut Stake, absorbed: u64, absorbed_credits: u64) -> (r: Result<(), ProgramError>)
    ensures
        r is Ok <==> can_absorb(*old(stake), absorbed, absorbed_credits),
        r is Ok ==> *final(stake) == merged_stake(*old(stake), absorbed, absorbed_credits),
        r is Err ==> r == Err::<(), ProgramError>(ProgramError::ArithmeticOverflow) && *final(stake) == *old(stake),
{
    let s = stake.delegation.stake;
    let c = stake.credits_observed;
    if s > u64::MAX - absorbed {
        return Err(ProgramError::ArithmeticOverflow);
    }
    let credits: u64 = if c == absorbed_credits {
        c
    } else {
        let total: u128 = s as u128 + absorbed as u128;
        assert(s * c <= u64::MAX * u64::MAX) by (nonlinear_arith)
            requires s <= u64::MAX, c <= u64::MAX;
        assert(absorbed * absorbed_credits <= u64::MAX * u64::MAX) by (nonlinear_arith)
            requires absorbed <= u64::MAX, absorbed_credits <= u64::MAX;
        let weighted: u128 = (s as u128) * (c as u128);
        let absorbed_weighted: u128 = (absorbed as u128) * (absorbed_credits as u128);
        if total == 0 {
            return Err(ProgramError::ArithmeticOverflow);
        }
        if weighted > u128::MAX - absorbed_weighted || weighted + absorbed_weighted > u128::MAX - (total - 1) {
            return Err(ProgramError::ArithmeticOverflow);
        }
        let q: u128 = (weighted + absorbed_weighted + (total - 1)) / total;
        if q > u64::MAX as u128 {
            return Err(ProgramError::ArithmeticOverflow);
        }
        q as u64
    };
    stake.credits_observed = credits;
    stake.delegation.stake = s + absorbed;
    Ok(())
}

impl MergeKind {
    /// The meta of any variant.
    pub fn meta(&self) -> (r: Meta)
        ensures
            r == kind_meta(*self),
    {
        match self {
            MergeKind::Inactive(meta, _, _) => *meta,
            MergeKind::ActivationEpoch(meta, _, _) => *meta,
            MergeKind::FullyActive(meta, _) => *meta,
        }
    }

    /// The active stake of a delegated kind.
    pub fn active_stake(&self) -> (r: Option<Stake>)
        ensures
            r == match *self {
                MergeKind::Inactive(_, _, _) => None,
                MergeKind::ActivationEpoch(_, s, _) => Some(s),
                MergeKind::FullyActive(_, s) => Some(s),
            },
    {
        match self {
            MergeKind::Inactive(_, _, _) => None,
            MergeKind::ActivationEpoch(_, stake, _) => Some(*stake),
            MergeKind::FullyActive(_, stake) => Some(*stake),
        }
    }

    /// Classifies an account for merging; every state gets one of the three
    /// kinds or the merge-mismatch error.
    pub fn get_if_mergeable(stake_state: &StakeStateV2, stake_lamports: u64, clock: &Clock, stake_history: &StakeHistory, cutoff: u64) -> (r: Result<MergeKind, ProgramError>)
        ensures
            r == classify(*stake_state, stake_lamports, *clock, stake_history@, cutoff),
            r is Err ==> r == mismatch::<MergeKind>(),
    {
        match stake_state {
            StakeStateV2::Stake(meta, stake, flags) => {
                let d = &stake.delegation;
                if d.deactivation_epoch != u64::MAX {
                    if clock.epoch <= d.deactivation_epoch {
                        return Err(to_program_error(StakeError::MergeMismatch));
                    } else {
                        return Ok(MergeKind::Inactive(*meta, stake_lamports, *flags));
                    }
                }
                if d.stake > 0 && clock.epoch > d.activation_epoch {
                    return Ok(MergeKind::FullyActive(*meta, *stake));
                }
                let st = d.stake_activating_and_deactivating(clock.epoch, stake_history, cutoff);
                if st.deactivating > 0 {
                    Err(to_program_error(StakeError::MergeMismatch))
                } else if st.effective == 0 && st.activating == 0 {
                    if d.stake > 0 {
                        Ok(MergeKind::ActivationEpoch(*meta, *stake, *flags))
                    } else {
                        Ok(MergeKind::Inactive(*meta, stake_lamports, *flags))
                    }
                } else if st.effective == 0 {
                    Ok(MergeKind::ActivationEpoch(*meta, *stake, *flags))
                } else if st.activating == 0 && st.effective == d.stake {
                    Ok(MergeKind::FullyActive(*meta, *stake))
                } else {
                    Err(to_program_error(StakeError::MergeMismatch))
                }
            },
            StakeStateV2::Initialized(meta) => Ok(MergeKind::Inactive(*meta, stake_lamports, StakeFlags::empty())),
            _ => Err(to_program_error(StakeError::MergeMismatch)),
        }
    }

    /// Two metas may merge when their authorities are equal and their lockups are
    /// equal or both not in force.
    pub fn metas_can_merge(dest: &Meta, source: &Meta, clock: &Clock) -> (r: Result<(), ProgramError>)
        ensures
            r is Ok <==> metas_mergeable(*dest, *source, *clock),
            r is Err ==> r == mismatch::<()>(),
    {
        if !authorized_eq(&dest.authorized, &source.authorized) {
            return Err(to_program_error(StakeError::MergeMismatch));
        }
        let lock_eq = lockup_eq(&dest.lockup, &source.lockup);
        let both_not_in_force = !dest.lockup.is_in_force(clock, None) && !source.lockup.is_in_force(clock, None);
        if lock_eq || both_not_in_force {
            Ok(())
        } else {
            Err(to_program_error(StakeError::MergeMismatch))
        }
    }

    /// Two delegations may merge when they share a voter and neither is deactivating.
    pub fn active_delegations_can_merge(dest: &Delegation, source: &Delegation) -> (r: Result<(), ProgramError>)
        ensures
            r is Ok <==> delegations_mergeable(*dest, *source),
            r is Err ==> r == mismatch::<()>(),
    {
        if !keys_eq(&dest.voter_pubkey, &source.voter_pubkey) {
            return Err(to_program_error(StakeError::MergeMismatch));
        }
        if dest.deactivation_epoch == u64::MAX && source.deactivation_epoch == u64::MAX {
            Ok(())
        } else {
            Err(to_program_error(StakeError::MergeMismatch))
        }
    }
}

pub open spec fn union_flags(a: StakeFlags, b: StakeFlags) -> StakeFlags {
    StakeFlags { bits: a.bits | b.bits }
}

pub open spec fn with_stake_amount(s: Stake, amount: u64) -> Stake {
    Stake { delegation: Delegation { stake: amount, ..s.delegation }, ..s }
}

/// The destination state after merging `src` into `dst` (`None`: unchanged),
/// where the source account holds `src_lamports`.
pub open spec fn merge_result(dst: MergeKind, src: MergeKind, src_lamports: u64) -> Result<Option<StakeStateV2>, ProgramError> {
    match (dst, src) {
        (MergeKind::Inactive(_, _, _), MergeKind::Inactive(_, _, _)) => Ok(None),
        (MergeKind::Inactive(dm, dl, df), MergeKind::ActivationEpoch(_, ss, sf)) => {
            let total = dl + src_lamports - dm.rent_exempt_reserve;
            if dl + src_lamports > u64::MAX || total < 0 {
                Err(ProgramError::ArithmeticOverflow)
            } else {
                Ok(Some(StakeStateV2::Stake(dm, with_stake_amount(ss, total as u64), union_flags(df, sf))))
            }
        },
        (MergeKind::ActivationEpoch(m, st, df), MergeKind::Inactive(_, sl, sf)) => {
            if st.delegation.stake + sl > u64::MAX {
                Err(ProgramError::ArithmeticOverflow)
            } else {
                Ok(Some(StakeStateV2::Stake(m, with_stake_amount(st, (st.delegation.stake + sl) as u64), union_flags(df, sf))))
            }
        },
        (MergeKind::ActivationEpoch(m, st, df), MergeKind::ActivationEpoch(_, ss, sf)) => {
            if !delegations_mergeable(st.delegation, ss.delegation) {
                mismatch()
            } else if !can_absorb(st, ss.delegation.stake, ss.credits_observed) {
                Err(ProgramError::ArithmeticOverflow)
            } else {
                Ok(Some(StakeStateV2::Stake(m, merged_stake(st, ss.delegation.stake, ss.credits_observed), union_flags(df, sf))))
            }
        },
        (MergeKind::FullyActive(m, st), MergeKind::FullyActive(_, ss)) => {
            if !delegations_mergeable(st.delegation, ss.delegation) {
                mismatch()
            } else if !can_absorb(st, ss.delegation.stake, ss.credits_observed) {
                Err(ProgramError::ArithmeticOverflow)
            } else {
                Ok(Some(StakeStateV2::Stake(m, merged_stake(st, ss.delegation.stake, ss.credits_observed), StakeFlags { bits: 0 })))
            }
        },
        _ => mismatch(),
    }
}

impl MergeKind {
    /// Merges `source` into `self`; returns the destination's new state, or
    /// `None` when it stays as it is.
    pub fn merge(self, source: MergeKind, source_lamports: u64) -> (r: Result<Option<StakeStateV2>, ProgramError>)
        ensures
            r == merge_result(self, source, source_lamports),
    {
        match (self, source) {
            (MergeKind::Inactive(_, _, _), MergeKind::Inactive(_, _, _)) => Ok(None),
            (MergeKind::Inactive(dm, dl, df), MergeKind::ActivationEpoch(_, ss, sf)) => {
                if dl > u64::MAX - source_lamports || dl + source_lamports < dm.rent_exempt_reserve {
                    return Err(ProgramError::ArithmeticOverflow);
                }
                let total = dl + source_lamports - dm.rent_exempt_reserve;
                let mut st = ss;
                st.delegation.stake = total;
                Ok(Some(StakeStateV2::Stake(dm, st, df.union(sf))))
            },
            (MergeKind::ActivationEpoch(m, st, df), MergeKind::Inactive(_, sl, sf)) => {
                if st.delegation.stake > u64::MAX - sl {
                    return Err(ProgramError::ArithmeticOverflow);
                }
                let mut merged = st;
                merged.delegation.stake = st.delegation.stake + sl;
                Ok(Some(StakeStateV2::Stake(m, merged, df.union(sf))))
            },
            (MergeKind::ActivationEpoch(m, st, df), MergeKind::ActivationEpoch(_, ss, sf)) => {
                MergeKind::active_delegations_can_merge(&st.delegation, &ss.delegation)?;
                let mut merged = st;
                merge_delegation_stake_and_credits_observed(&mut merged, ss.delegation.stake, ss.credits_observed)?;
                Ok(Some(StakeStateV2::Stake(m, merged, df.union(sf))))
            },
            (MergeKind::FullyActive(m, st), MergeKind::FullyActive(_, ss)) => {
                MergeKind::active_delegations_can_merge(&st.delegation, &ss.delegation)?;
                let mut merged = st;
                merge_delegation_stake_and_credits_observed(&mut merged, ss.delegation.stake, ss.credits_observed)?;
                Ok(Some(StakeStateV2::Stake(m, merged, StakeFlags::empty())))
            },
            _ => Err(to_program_error(StakeError::MergeMismatch)),
        }
    }
}

} // verus!
