//! Authority policy: signers, lockups, and rotating the staker or withdrawer.

use vstd::prelude::*;

use crate::error::ProgramError;
use crate::state::{keys_eq, Clock, Lockup, Meta, Pubkey, StakeAuthorize};

verus! {

/// A lockup is in force while its time or its epoch has not passed, unless the
/// custodian is the one asking.
pub open spec fn lockup_in_force(l: Lockup, clock: Clock, custodian: Option<Pubkey>) -> bool {
    &&& !(custodian == Some(l.custodian))
    &&& ((l.unix_timestamp != 0 && clock.unix_timestamp < l.unix_timestamp) || (l.epoch != 0
        && clock.epoch < l.epoch))
}

impl Lockup {
    /// Whether either restriction is still ahead of the given time and epoch.
    pub fn is_active(&self, current_timestamp: i64, current_epoch: u64) -> (r: bool)
        ensures
            r == lockup_in_force(*self, Clock { epoch: current_epoch, unix_timestamp: current_timestamp }, None),
    {
        let time_in_force = self.unix_timestamp != 0 && current_timestamp < self.unix_timestamp;
        let epoch_in_force = self.epoch != 0 && current_epoch < self.epoch;
        time_in_force || epoch_in_force
    }

    /// Whether the lockup restricts an operation; a custodian signature lifts it.
    pub fn is_in_force(&self, clock: &Clock, custodian_signer: Option<&Pubkey>) -> (r: bool)
        ensures
            r == lockup_in_force(*self, *clock, match custodian_signer {
                Some(k) => Some(*k),
                None => None,
            }),
    {
        if let Some(sig) = custodian_signer {
            if keys_eq(sig, &self.custodian) {
                return false;
            }
        }
        self.is_active(clock.unix_timestamp, clock.epoch)
    }
}

/// Whether `k` is among the signers.
pub fn signed_by(signers: &[Pubkey], k: &Pubkey) -> (r: bool)
    ensures
        r == signers@.contains(*k),
{
    let mut i: usize = 0;
    while i < signers.len()
        invariant
            i <= signers@.len(),
            forall|j: int| 0 <= j < i ==> signers@[j] != *k,
        decreases signers@.len() - i,
    {
        if keys_eq(&signers[i], k) {
            assert(signers@[i as int] == *k);
            return true;
        }
        i = i + 1;
    }
    false
}

/// Who may rotate an authority: the staker or the withdrawer for the staker role,
/// the withdrawer for the withdrawer role, and then also the custodian while the
/// lockup is in force.
pub open spec fn may_authorize(m: Meta, role: StakeAuthorize, signers: Seq<Pubkey>, clock: Clock) -> bool {
    match role {
        StakeAuthorize::Staker => signers.contains(m.authorized.staker) || signers.contains(
            m.authorized.withdrawer,
        ),
        StakeAuthorize::Withdrawer => signers.contains(m.authorized.withdrawer) && (!lockup_in_force(
            m.lockup,
            clock,
            None,
        ) || signers.contains(m.lockup.custodian)),
    }
}

/// `m` with the authority of `role` set to `k`.
pub open spec fn with_authority(m: Meta, role: StakeAuthorize, k: Pubkey) -> Meta {
    match role {
        StakeAuthorize::Staker => Meta {
            authorized: crate::state::Authorized { staker: k, ..m.authorized },
            ..m
        },
        StakeAuthorize::Withdrawer => Meta {
            authorized: crate::state::Authorized { withdrawer: k, ..m.authorized },
            ..m
        },
    }
}

/// Rotates one authority of `meta` to `new_authority`.
pub fn authorize_update(
    meta: &mut Meta,
    new_authority: Pubkey,
    role: StakeAuthorize,
    signers: &[Pubkey],
    clock: &Clock,
) -> (r: Result<(), ProgramError>)
    ensures
        r is Ok <==> may_authorize(*old(meta), role, signers@, *clock),
        r is Ok ==> *final(meta) == with_authority(*old(meta), role, new_authority),
        r is Err ==> r == Err::<(), ProgramError>(ProgramError::MissingRequiredSignature) && *final(meta) == *old(meta),
{
    match role {
        StakeAuthorize::Staker => {
            if !signed_by(signers, &meta.authorized.staker) && !signed_by(signers, &meta.authorized.withdrawer) {
                return Err(ProgramError::MissingRequiredSignature);
            }
            meta.authorized.staker = new_authority;
        },
        StakeAuthorize::Withdrawer => {
            if !signed_by(signers, &meta.authorized.withdrawer) {
                return Err(ProgramError::MissingRequiredSignature);
            }
            if meta.lockup.is_in_force(clock, None) && !signed_by(signers, &meta.lockup.custodian) {
                return Err(ProgramError::MissingRequiredSignature);
            }
            meta.authorized.withdrawer = new_authority;
        },
    }
    Ok(())
}

/// Rotating an authority changes that one field and nothing else of the meta:
/// the other authority, the reserve and the lockup stay as they were.
pub proof fn lemma_rotation_changes_one_role(m: Meta, role: StakeAuthorize, k: Pubkey)
    ensures
        with_authority(m, role, k).rent_exempt_reserve == m.rent_exempt_reserve,
        with_authority(m, role, k).lockup == m.lockup,
        role == StakeAuthorize::Staker ==> with_authority(m, role, k).authorized.withdrawer
            == m.authorized.withdrawer && with_authority(m, role, k).authorized.staker == k,
        role == StakeAuthorize::Withdrawer ==> with_authority(m, role, k).authorized.staker
            == m.authorized.staker && with_authority(m, role, k).authorized.withdrawer == k,
{
}

} // verus!
