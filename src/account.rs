//! Accounts as handed in by the runtime, and reading and writing their state.

use vstd::prelude::*;

use crate::error::ProgramError;
use crate::state::{
    deserialize_state, encode_state, keys_eq, lemma_state_round_trip, serialize_state,
    state_read_from, valid_state_bytes, Clock, Meta, Pubkey, StakeStateV2,
};
use crate::stake_history::StakeHistory;

verus! {

/// An account as the runtime hands it to the program: its address, owner,
/// balance, data, and whether it signed and may be written.
#[derive(Debug)]
pub struct AccountInfo {
    pub key: Pubkey,
    pub owner: Pubkey,
    pub lamports: u64,
    pub data: Vec<u8>,
    pub is_signer: bool,
    pub is_writable: bool,
}

/// The stake program's address.
pub fn stake_program_id() -> (r: Pubkey)
    ensures
        r == spec_stake_program_id(),
{
    [
        6, 161, 216, 23, 145, 55, 84, 42, 152, 52, 55, 189, 254, 42, 122, 178, 85, 127, 83, 92,
        138, 120, 114, 43, 104, 164, 157, 192, 0, 0, 0, 0,
    ]
}

pub closed spec fn spec_stake_program_id() -> Pubkey {
    [
        6, 161, 216, 23, 145, 55, 84, 42, 152, 52, 55, 189, 254, 42, 122, 178, 85, 127, 83, 92,
        138, 120, 114, 43, 104, 164, 157, 192, 0, 0, 0, 0,
    ]
}

/// The vote program's address.
pub fn vote_program_id() -> (r: Pubkey)
    ensures
        r == spec_vote_program_id(),
{
    [
        7, 97, 72, 29, 53, 116, 116, 187, 124, 77, 118, 36, 235, 211, 189, 179, 216, 53, 94, 115,
        209, 16, 67, 252, 13, 163, 83, 128, 0, 0, 0, 0,
    ]
}

pub closed spec fn spec_vote_program_id() -> Pubkey {
    [
        7, 97, 72, 29, 53, 116, 116, 187, 124, 77, 118, 36, 235, 211, 189, 179, 216, 53, 94, 115,
        209, 16, 67, 252, 13, 163, 83, 128, 0, 0, 0, 0,
    ]
}

/// The clock sysvar's address.
pub fn clock_id() -> (r: Pubkey)
    ensures
        r == spec_clock_id(),
{
    [
        6, 167, 213, 23, 24, 199, 116, 201, 40, 86, 99, 152, 105, 29, 94, 182, 139, 94, 184, 163,
        155, 75, 109, 92, 115, 85, 91, 33, 0, 0, 0, 0,
    ]
}

pub closed spec fn spec_clock_id() -> Pubkey {
    [
        6, 167, 213, 23, 24, 199, 116, 201, 40, 86, 99, 152, 105, 29, 94, 182, 139, 94, 184, 163,
        155, 75, 109, 92, 115, 85, 91, 33, 0, 0, 0, 0,
    ]
}

/// The stake history sysvar's address.
pub fn stake_history_id() -> (r: Pubkey)
    ensures
        r == spec_stake_history_id(),
{
    [
        6, 167, 213, 23, 25, 53, 132, 208, 254, 237, 155, 179, 67, 29, 19, 32, 107, 229, 68, 40,
        27, 87, 184, 86, 108, 197, 55, 95, 244, 0, 0, 0,
    ]
}

pub closed spec fn spec_stake_history_id() -> Pubkey {
    [
        6, 167, 213, 23, 25, 53, 132, 208, 254, 237, 155, 179, 67, 29, 19, 32, 107, 229, 68, 40,
        27, 87, 184, 86, 108, 197, 55, 95, 244, 0, 0, 0,
    ]
}

/// The state that an account's data holds.
pub open spec fn stored(a: AccountInfo) -> StakeStateV2 {
    choose|s: StakeStateV2| state_read_from(a.data@, s)
}

/// An account of this program with well-formed state data.
pub open spec fn holds_state(a: AccountInfo) -> bool {
    a.owner == spec_stake_program_id() && valid_state_bytes(a.data@)
}

/// Only the accounts at `touched` differ between `o` and `n`, and those only in
/// lamports and data.
pub open spec fn only_touched(o: Seq<AccountInfo>, n: Seq<AccountInfo>, touched: Set<int>) -> bool {
    &&& o.len() == n.len()
    &&& forall|j: int| 0 <= j < o.len() && !touched.contains(j) ==> n[j] == o[j]
    &&& forall|j: int|
        0 <= j < o.len() && touched.contains(j) ==> n[j].key == o[j].key && n[j].owner == o[j].owner
            && n[j].is_signer == o[j].is_signer && n[j].is_writable == o[j].is_writable
}

/// Whether an account with key `k` signed.
pub open spec fn signed_in(accs: Seq<AccountInfo>, k: Pubkey) -> bool {
    exists|j: int| 0 <= j < accs.len() && accs[j].is_signer && accs[j].key == k
}

pub open spec fn lamports_of(accs: Seq<AccountInfo>, i: int) -> int {
    accs[i].lamports as int
}

/// The state read back from freshly written bytes is the state written.
pub proof fn lemma_stored_of_encoding(a: AccountInfo, s: StakeStateV2)
    requires
        a.data@ == encode_state(s),
    ensures
        stored(a) == s,
        valid_state_bytes(a.data@),
{
    lemma_state_round_trip(s, s);
    let t = stored(a);
    lemma_state_round_trip(s, t);
}

/// Reads the state of `accounts[i]`, which must be an account of this program of
/// the exact size.
pub fn get_stake_state(accounts: &Vec<AccountInfo>, i: usize) -> (r: Result<StakeStateV2, ProgramError>)
    requires
        i < accounts@.len(),
    ensures
        accounts@[i as int].owner != spec_stake_program_id() ==> r == Err::<StakeStateV2, ProgramError>(ProgramError::InvalidAccountOwner),
        accounts@[i as int].owner == spec_stake_program_id() && !valid_state_bytes(accounts@[i as int].data@)
            ==> r == Err::<StakeStateV2, ProgramError>(ProgramError::InvalidAccountData),
        holds_state(accounts@[i as int]) ==> r == Ok::<StakeStateV2, ProgramError>(stored(accounts@[i as int])),
{
    let id = stake_program_id();
    if !keys_eq(&accounts[i].owner, &id) {
        return Err(ProgramError::InvalidAccountOwner);
    }
    match deserialize_state(accounts[i].data.as_slice()) {
        Some(s) => {
            proof {
                let b = accounts@[i as int].data@;
                let t = stored(accounts@[i as int]);
                lemma_read_unique(b, s, t);
            }
            Ok(s)
        },
        None => Err(ProgramError::InvalidAccountData),
    }
}

proof fn lemma_read_unique(b: Seq<u8>, s: StakeStateV2, t: StakeStateV2)
    requires
        state_read_from(b, s),
        t == choose|x: StakeStateV2| state_read_from(b, x),
    ensures
        s == t,
{
    assert(state_read_from(b, t));
    crate::state::lemma_read_functional(b, s, t);
}

/// Writes `s` into the data of `accounts[i]`.
pub fn set_stake_state(accounts: &mut Vec<AccountInfo>, i: usize, s: &StakeStateV2)
    requires
        i < old(accounts)@.len(),
    ensures
        only_touched(old(accounts)@, final(accounts)@, set![i as int]),
        final(accounts)@[i as int].data@ == encode_state(*s),
        final(accounts)@[i as int].lamports == old(accounts)@[i as int].lamports,
        stored(final(accounts)@[i as int]) == *s,
        valid_state_bytes(final(accounts)@[i as int].data@),
{
    let data = serialize_state(s);
    accounts[i].data = data;
    proof {
        lemma_stored_of_encoding(accounts@[i as int], *s);
    }
}

/// Moves `amount` lamports from `accounts[from]` to `accounts[to]`.
pub fn relocate_lamports(accounts: &mut Vec<AccountInfo>, from: usize, to: usize, amount: u64) -> (r: Result<(), ProgramError>)
    requires
        from < old(accounts)@.len(),
        to < old(accounts)@.len(),
        from != to,
    ensures
        r is Ok <==> amount <= old(accounts)@[from as int].lamports && old(accounts)@[to as int].lamports + amount <= u64::MAX,
        r is Err ==> r == Err::<(), ProgramError>(ProgramError::InsufficientFunds) && final(accounts)@ == old(accounts)@,
        r is Ok ==> only_touched(old(accounts)@, final(accounts)@, set![from as int, to as int])
            && final(accounts)@[from as int].lamports == old(accounts)@[from as int].lamports - amount
            && final(accounts)@[to as int].lamports == old(accounts)@[to as int].lamports + amount
            && final(accounts)@[from as int].data == old(accounts)@[from as int].data
            && final(accounts)@[to as int].data == old(accounts)@[to as int].data,
{
    if accounts[from].lamports < amount || accounts[to].lamports > u64::MAX - amount {
        return Err(ProgramError::InsufficientFunds);
    }
    accounts[from].lamports = accounts[from].lamports - amount;
    accounts[to].lamports = accounts[to].lamports + amount;
    Ok(())
}

/// The keys of all accounts that signed.
pub fn collect_signers(accounts: &Vec<AccountInfo>) -> (r: Vec<Pubkey>)
    ensures
        forall|k: Pubkey| r@.contains(k) <==> signed_in(accounts@, k),
{
    let mut out: Vec<Pubkey> = Vec::new();
    let mut i: usize = 0;
    while i < accounts.len()
        invariant
            i <= accounts@.len(),
            forall|k: Pubkey| out@.contains(k) <==> (exists|j: int| 0 <= j < i && accounts@[j].is_signer && accounts@[j].key == k),
        decreases accounts@.len() - i,
    {
        if accounts[i].is_signer {
            let ghost prev = out@;
            out.push(accounts[i].key);
            proof {
                assert forall|k: Pubkey| out@.contains(k) <==> (exists|j: int| 0 <= j < i + 1 && accounts@[j].is_signer && accounts@[j].key == k) by {
                    if out@.contains(k) {
                        let x = choose|x: int| 0 <= x < out@.len() && out@[x] == k;
                        if x < prev.len() {
                            assert(prev[x] == k);
                            assert(prev.contains(k));
                        }
                    }
                    if exists|j: int| 0 <= j < i + 1 && accounts@[j].is_signer && accounts@[j].key == k {
                        let j = choose|j: int| 0 <= j < i + 1 && accounts@[j].is_signer && accounts@[j].key == k;
                        if j == i {
                            assert(out@[prev.len() as int] == k);
                        } else {
                            assert(prev.contains(k));
                            let x = choose|x: int| 0 <= x < prev.len() && prev[x] == k;
                            assert(out@[x] == k);
                        }
                    }
                };
            }
        }
        i = i + 1;
    }
    out
}

/// What the runtime provides besides the accounts: the clock, the rent-exempt
/// minimum for a stake account's size, the stake history, and whether epoch
/// rewards are being paid out.
pub struct InvokeContext {
    pub clock: Clock,
    pub minimum_balance: u64,
    pub stake_history: StakeHistory,
    pub epoch_rewards_active: bool,
}

/// The meta of an initialized or delegated state.
pub open spec fn meta_of(s: StakeStateV2) -> Option<Meta> {
    match s {
        StakeStateV2::Initialized(m) => Some(m),
        StakeStateV2::Stake(m, _, _) => Some(m),
        _ => None,
    }
}

/// `s` with its meta replaced by `m`; the delegation and flags are kept.
pub open spec fn with_meta(s: StakeStateV2, m: Meta) -> StakeStateV2 {
    match s {
        StakeStateV2::Initialized(_) => StakeStateV2::Initialized(m),
        StakeStateV2::Stake(_, st, f) => StakeStateV2::Stake(m, st, f),
        _ => s,
    }
}

/// An initialized or delegated account holds at least its rent-exempt reserve.
pub open spec fn reserve_ok(a: AccountInfo) -> bool {
    match meta_of(stored(a)) {
        Some(m) => a.lamports >= m.rent_exempt_reserve,
        None => true,
    }
}

/// Every account that held its reserve still holds it.
pub open spec fn reserves_kept(o: Seq<AccountInfo>, n: Seq<AccountInfo>) -> bool {
    o.len() == n.len() && forall|i: int| 0 <= i < o.len() && reserve_ok(o[i]) ==> reserve_ok(n[i])
}

/// Finds a signer among `accounts[from..]` whose key is `k`.
pub fn find_signer(accounts: &Vec<AccountInfo>, from: usize, k: &Pubkey) -> (r: bool)
    ensures
        r == exists|j: int| from <= j < accounts@.len() && accounts@[j].is_signer && accounts@[j].key == *k,
{
    let mut i: usize = from;
    while i < accounts.len()
        invariant
            from <= i,
            forall|j: int| from <= j < i && j < accounts@.len() ==> !(accounts@[j].is_signer && accounts@[j].key == *k),
        decreases accounts@.len() - i,
    {
        if accounts[i].is_signer && keys_eq(&accounts[i].key, k) {
            assert(accounts@[i as int].is_signer && accounts@[i as int].key == *k);
            return true;
        }
        i = i + 1;
    }
    false
}

pub open spec fn sum(s: Seq<int>) -> int
    decreases s.len(),
{
    if s.len() == 0 {
        0
    } else {
        sum(s.drop_last()) + s.last()
    }
}

/// The lamports held by all the accounts together.
pub open spec fn total_lamports(accs: Seq<AccountInfo>) -> int {
    sum(Seq::new(accs.len(), |i: int| accs[i].lamports as int))
}

proof fn lemma_sum_update(s: Seq<int>, i: int, v: int)
    requires
        0 <= i < s.len(),
    ensures
        sum(s.update(i, v)) == sum(s) - s[i] + v,
    decreases s.len(),
{
    if i == s.len() - 1 {
        assert(s.update(i, v).drop_last() =~= s.drop_last());
    } else {
        lemma_sum_update(s.drop_last(), i, v);
        assert(s.update(i, v).drop_last() =~= s.drop_last().update(i, v));
    }
}

/// An instruction that changes the lamports of at most the first two accounts,
/// and keeps their sum, keeps the total.
pub proof fn lemma_total_conserved(o: Seq<AccountInfo>, n: Seq<AccountInfo>)
    requires
        o == n || (o.len() >= 1 && only_touched(o, n, set![0]) && n[0].lamports == o[0].lamports) || (
        o.len() >= 2 && only_touched(o, n, set![0, 1]) && n[0].lamports + n[1].lamports == o[0].lamports
            + o[1].lamports),
    ensures
        total_lamports(n) == total_lamports(o),
{
    let lo = Seq::new(o.len(), |i: int| o[i].lamports as int);
    let ln = Seq::new(n.len(), |i: int| n[i].lamports as int);
    if o == n {
        assert(lo =~= ln);
    } else if o.len() >= 1 && only_touched(o, n, set![0]) && n[0].lamports == o[0].lamports {
        assert(lo =~= ln);
    } else {
        let step = lo.update(0, n[0].lamports as int);
        lemma_sum_update(lo, 0, n[0].lamports as int);
        lemma_sum_update(step, 1, n[1].lamports as int);
        assert(step.update(1, n[1].lamports as int) =~= ln);
    }
}

} // verus!
