//! Stake account state: the data model and its fixed 200-byte layout.

use vstd::prelude::*;
use vstd::bytes::*;
use vstd::slice::slice_subrange;

verus! {

/// A 32-byte account address.
pub type Pubkey = [u8; 32];

/// Size in bytes of a serialized stake account.
pub const STAKE_STATE_SIZE: usize = 200;

/// Compares two keys byte by byte.
pub fn keys_eq(a: &Pubkey, b: &Pubkey) -> (r: bool)
    ensures
        r == (*a == *b),
{
    let mut i: usize = 0;
    while i < 32
        invariant
            i <= 32,
            forall|j: int| 0 <= j < i ==> a[j] == b[j],
        decreases 32 - i,
    {
        if a[i] != b[i] {
            return false;
        }
        i = i + 1;
    }
    assert(a@ =~= b@);
    proof {
        vstd::array::axiom_array_ext_equal(*a, *b);
    }
    true
}

/// The two authorities of a stake account.
#[derive(Clone, Copy, Debug)]
pub struct Authorized {
    pub staker: Pubkey,
    pub withdrawer: Pubkey,
}

/// Which of the two authorities an operation concerns.
#[derive(Clone, Copy, Debug, PartialEq, Eq, Structural)]
pub enum StakeAuthorize {
    Staker,
    Withdrawer,
}

/// A withdrawal restriction that holds until a time and an epoch have passed.
#[derive(Clone, Copy, Debug)]
pub struct Lockup {
    pub unix_timestamp: i64,
    pub epoch: u64,
    pub custodian: Pubkey,
}

/// Data shared by initialized and delegated accounts.
#[derive(Clone, Copy, Debug)]
pub struct Meta {
    pub rent_exempt_reserve: u64,
    pub authorized: Authorized,
    pub lockup: Lockup,
}

/// Delegation of lamports to a vote account.
#[derive(Clone, Copy, Debug)]
pub struct Delegation {
    pub voter_pubkey: Pubkey,
    pub stake: u64,
    pub activation_epoch: u64,
    pub deactivation_epoch: u64,
    /// The persisted rate, kept as the raw bits of its stored form.
    pub warmup_cooldown_rate_bits: u64,
}

/// A delegation together with the vote credits last observed.
#[derive(Clone, Copy, Debug)]
pub struct Stake {
    pub delegation: Delegation,
    pub credits_observed: u64,
}

/// Flag bits of a delegated account.
#[derive(Clone, Copy, Debug, PartialEq, Eq, Structural)]
pub struct StakeFlags {
    pub bits: u8,
}

/// The state held in a stake account.
#[derive(Clone, Copy, Debug)]
pub enum StakeStateV2 {
    Uninitialized,
    Initialized(Meta),
    Stake(Meta, Stake, StakeFlags),
    RewardsPool,
}

/// Wall clock and epoch of the current slot.
#[derive(Clone, Copy, Debug, PartialEq, Eq, Structural)]
pub struct Clock {
    pub epoch: u64,
    pub unix_timestamp: i64,
}

/// The stored bits of the default warmup/cooldown rate (one quarter).
pub const DEFAULT_WARMUP_COOLDOWN_RATE_BITS: u64 = 0x3FD0_0000_0000_0000;

impl StakeFlags {
    pub fn empty() -> (r: StakeFlags)
        ensures
            r.bits == 0,
    {
        StakeFlags { bits: 0 }
    }

    /// Set union of two flag sets.
    pub fn union(self, other: StakeFlags) -> (r: StakeFlags)
        ensures
            r.bits == self.bits | other.bits,
    {
        StakeFlags { bits: self.bits | other.bits }
    }
}

impl StakeStateV2 {
    pub fn size_of() -> (r: usize)
        ensures
            r == STAKE_STATE_SIZE,
    {
        STAKE_STATE_SIZE
    }
}

impl Meta {
    /// Size of the serialized meta.
    pub fn size() -> (r: usize)
        ensures
            r == 120,
    {
        120
    }
}

impl Lockup {
    /// Size of the serialized lockup.
    pub fn size() -> (r: usize)
        ensures
            r == 48,
    {
        48
    }

    pub fn new(unix_timestamp: i64, epoch: u64, custodian: Pubkey) -> (r: Lockup)
        ensures
            r == (Lockup { unix_timestamp, epoch, custodian }),
    {
        Lockup { unix_timestamp, epoch, custodian }
    }
}

// ---------------------------------------------------------------------------
// Byte layout
// ---------------------------------------------------------------------------

pub open spec fn zeros(n: nat) -> Seq<u8> {
    Seq::new(n, |i: int| 0u8)
}

pub open spec fn encode_meta(m: Meta) -> Seq<u8> {
    spec_u64_to_le_bytes(m.rent_exempt_reserve) + m.authorized.staker@ + m.authorized.withdrawer@
        + spec_u64_to_le_bytes(m.lockup.unix_timestamp as u64) + spec_u64_to_le_bytes(
        m.lockup.epoch,
    ) + m.lockup.custodian@
}

pub open spec fn encode_stake(s: Stake) -> Seq<u8> {
    s.delegation.voter_pubkey@ + spec_u64_to_le_bytes(s.delegation.stake) + spec_u64_to_le_bytes(
        s.delegation.activation_epoch,
    ) + spec_u64_to_le_bytes(s.delegation.deactivation_epoch) + spec_u64_to_le_bytes(
        s.delegation.warmup_cooldown_rate_bits,
    ) + spec_u64_to_le_bytes(s.credits_observed)
}

pub open spec fn state_tag(s: StakeStateV2) -> u32 {
    match s {
        StakeStateV2::Uninitialized => 0,
        StakeStateV2::Initialized(_) => 1,
        StakeStateV2::Stake(_, _, _) => 2,
        StakeStateV2::RewardsPool => 3,
    }
}

/// The 200 bytes that hold a state: a 4-byte tag, the variant's fields, zero padding.
pub open spec fn encode_state(s: StakeStateV2) -> Seq<u8> {
    match s {
        StakeStateV2::Initialized(m) => spec_u32_to_le_bytes(1) + encode_meta(m) + zeros(76),
        StakeStateV2::Stake(m, st, f) => spec_u32_to_le_bytes(2) + encode_meta(m) + encode_stake(st)
            + seq![f.bits] + zeros(3),
        _ => spec_u32_to_le_bytes(state_tag(s)) + zeros(196),
    }
}

pub open spec fn u64_at(b: Seq<u8>, off: int) -> u64 {
    spec_u64_from_le_bytes(b.subrange(off, off + 8))
}

pub open spec fn meta_read_from(b: Seq<u8>, off: int, m: Meta) -> bool {
    &&& m.rent_exempt_reserve == u64_at(b, off)
    &&& m.authorized.staker@ == b.subrange(off + 8, off + 40)
    &&& m.authorized.withdrawer@ == b.subrange(off + 40, off + 72)
    &&& m.lockup.unix_timestamp as u64 == u64_at(b, off + 72)
    &&& m.lockup.epoch == u64_at(b, off + 80)
    &&& m.lockup.custodian@ == b.subrange(off + 88, off + 120)
}

pub open spec fn stake_read_from(b: Seq<u8>, off: int, s: Stake) -> bool {
    &&& s.delegation.voter_pubkey@ == b.subrange(off, off + 32)
    &&& s.delegation.stake == u64_at(b, off + 32)
    &&& s.delegation.activation_epoch == u64_at(b, off + 40)
    &&& s.delegation.deactivation_epoch == u64_at(b, off + 48)
    &&& s.delegation.warmup_cooldown_rate_bits == u64_at(b, off + 56)
    &&& s.credits_observed == u64_at(b, off + 64)
}

/// `s` is the state that the bytes `b` hold (padding is not read).
pub open spec fn state_read_from(b: Seq<u8>, s: StakeStateV2) -> bool {
    &&& b.len() == STAKE_STATE_SIZE
    &&& spec_u32_from_le_bytes(b.subrange(0, 4)) == state_tag(s)
    &&& match s {
        StakeStateV2::Initialized(m) => meta_read_from(b, 4, m),
        StakeStateV2::Stake(m, st, f) => meta_read_from(b, 4, m) && stake_read_from(b, 124, st)
            && f.bits == b[196],
        _ => true,
    }
}

/// The bytes hold one of the four states.
pub open spec fn valid_state_bytes(b: Seq<u8>) -> bool {
    b.len() == STAKE_STATE_SIZE && spec_u32_from_le_bytes(b.subrange(0, 4)) <= 3
}

fn read_u64(b: &[u8], off: usize) -> (r: u64)
    requires
        off + 8 <= b@.len(),
    ensures
        r == u64_at(b@, off as int),
{
    let len = b.len();
    assert(off + 8 <= len);
    u64_from_le_bytes(slice_subrange(b, off, off + 8))
}

fn read_key(b: &[u8], off: usize) -> (r: Pubkey)
    requires
        off + 32 <= b@.len(),
    ensures
        r@ == b@.subrange(off as int, off + 32),
{
    let len = b.len();
    let mut k: Pubkey = [0u8; 32];
    let mut i: usize = 0;
    while i < 32
        invariant
            i <= 32,
            off + 32 <= b@.len(),
            len == b@.len(),
            forall|j: int| 0 <= j < i ==> k[j] == b@[off + j],
        decreases 32 - i,
    {
        k[i] = b[off + i];
        i = i + 1;
    }
    assert(k@ =~= b@.subrange(off as int, off + 32));
    k
}

fn read_meta(b: &[u8], off: usize) -> (m: Meta)
    requires
        off + 120 <= b@.len() <= STAKE_STATE_SIZE,
    ensures
        meta_read_from(b@, off as int, m),
{
    let rent_exempt_reserve = read_u64(b, off);
    let staker = read_key(b, off + 8);
    let withdrawer = read_key(b, off + 40);
    let ts = read_u64(b, off + 72);
    let epoch = read_u64(b, off + 80);
    let custodian = read_key(b, off + 88);
    #[verifier::truncate]
    let unix_timestamp = ts as i64;
    assert((ts as i64) as u64 == ts) by (bit_vector);
    Meta {
        rent_exempt_reserve,
        authorized: Authorized { staker, withdrawer },
        lockup: Lockup { unix_timestamp, epoch, custodian },
    }
}

fn read_stake(b: &[u8], off: usize) -> (s: Stake)
    requires
        off + 72 <= b@.len() <= STAKE_STATE_SIZE,
    ensures
        stake_read_from(b@, off as int, s),
{
    Stake {
        delegation: Delegation {
            voter_pubkey: read_key(b, off),
            stake: read_u64(b, off + 32),
            activation_epoch: read_u64(b, off + 40),
            deactivation_epoch: read_u64(b, off + 48),
            warmup_cooldown_rate_bits: read_u64(b, off + 56),
        },
        credits_observed: read_u64(b, off + 64),
    }
}

/// Reads the state held in account data.
pub fn deserialize_state(b: &[u8]) -> (r: Option<StakeStateV2>)
    ensures
        r.is_some() == valid_state_bytes(b@),
        r matches Some(s) ==> state_read_from(b@, s),
{
    if b.len() != STAKE_STATE_SIZE {
        return None;
    }
    let tag = u32_from_le_bytes(slice_subrange(b, 0, 4));
    if tag == 0 {
        Some(StakeStateV2::Uninitialized)
    } else if tag == 1 {
        Some(StakeStateV2::Initialized(read_meta(b, 4)))
    } else if tag == 2 {
        let m = read_meta(b, 4);
        let s = read_stake(b, 124);
        Some(StakeStateV2::Stake(m, s, StakeFlags { bits: b[196] }))
    } else if tag == 3 {
        Some(StakeStateV2::RewardsPool)
    } else {
        None
    }
}

fn push_bytes(out: &mut Vec<u8>, x: &Vec<u8>)
    ensures
        final(out)@ == old(out)@ + x@,
{
    let mut i: usize = 0;
    while i < x.len()
        invariant
            i <= x@.len(),
            out@ == old(out)@ + x@.subrange(0, i as int),
        decreases x@.len() - i,
    {
        out.push(x[i]);
        i = i + 1;
        assert(x@.subrange(0, i as int) =~= x@.subrange(0, i - 1) + seq![x@[i - 1]]);
    }
    assert(x@.subrange(0, x@.len() as int) =~= x@);
}

fn push_key(out: &mut Vec<u8>, k: &Pubkey)
    ensures
        final(out)@ == old(out)@ + k@,
{
    let mut i: usize = 0;
    while i < 32
        invariant
            i <= 32,
            out@ == old(out)@ + k@.subrange(0, i as int),
        decreases 32 - i,
    {
        out.push(k[i]);
        i = i + 1;
        assert(k@.subrange(0, i as int) =~= k@.subrange(0, i - 1) + seq![k@[i - 1]]);
    }
    assert(k@.subrange(0, 32) =~= k@);
}

fn push_u64(out: &mut Vec<u8>, x: u64)
    ensures
        final(out)@ == old(out)@ + spec_u64_to_le_bytes(x),
{
    let b = u64_to_le_bytes(x);
    push_bytes(out, &b);
}

fn push_zeros(out: &mut Vec<u8>, n: usize)
    ensures
        final(out)@ == old(out)@ + zeros(n as nat),
{
    let mut i: usize = 0;
    while i < n
        invariant
            i <= n,
            out@ == old(out)@ + zeros(i as nat),
        decreases n - i,
    {
        out.push(0u8);
        i = i + 1;
        assert(zeros(i as nat) =~= zeros((i - 1) as nat) + seq![0u8]);
    }
}

fn push_meta(out: &mut Vec<u8>, m: &Meta)
    ensures
        final(out)@ == old(out)@ + encode_meta(*m),
{
    push_u64(out, m.rent_exempt_reserve);
    push_key(out, &m.authorized.staker);
    push_key(out, &m.authorized.withdrawer);
    #[verifier::truncate]
    let ts = m.lockup.unix_timestamp as u64;
    push_u64(out, ts);
    push_u64(out, m.lockup.epoch);
    push_key(out, &m.lockup.custodian);
    assert(out@ =~= old(out)@ + encode_meta(*m));
}

fn push_stake(out: &mut Vec<u8>, s: &Stake)
    ensures
        final(out)@ == old(out)@ + encode_stake(*s),
{
    push_key(out, &s.delegation.voter_pubkey);
    push_u64(out, s.delegation.stake);
    push_u64(out, s.delegation.activation_epoch);
    push_u64(out, s.delegation.deactivation_epoch);
    push_u64(out, s.delegation.warmup_cooldown_rate_bits);
    push_u64(out, s.credits_observed);
    assert(out@ =~= old(out)@ + encode_stake(*s));
}

/// Writes a state in its 200-byte form.
pub fn serialize_state(s: &StakeStateV2) -> (r: Vec<u8>)
    ensures
        r@ == encode_state(*s),
{
    let mut out: Vec<u8> = Vec::new();
    match s {
        StakeStateV2::Initialized(m) => {
            let t = u32_to_le_bytes(1);
            push_bytes(&mut out, &t);
            push_meta(&mut out, m);
            push_zeros(&mut out, 76);
        },
        StakeStateV2::Stake(m, st, f) => {
            let t = u32_to_le_bytes(2);
            push_bytes(&mut out, &t);
            push_meta(&mut out, m);
            push_stake(&mut out, st);
            out.push(f.bits);
            push_zeros(&mut out, 3);
        },
        StakeStateV2::Uninitialized => {
            let t = u32_to_le_bytes(0);
            push_bytes(&mut out, &t);
            push_zeros(&mut out, 196);
        },
        StakeStateV2::RewardsPool => {
            let t = u32_to_le_bytes(3);
            push_bytes(&mut out, &t);
            push_zeros(&mut out, 196);
        },
    }
    assert(out@ =~= encode_state(*s));
    out
}

} // verus!

verus! {

proof fn lemma_u64_field(b: Seq<u8>, off: int, x: u64)
    requires
        0 <= off,
        off + 8 <= b.len(),
        b.subrange(off, off + 8) == spec_u64_to_le_bytes(x),
    ensures
        u64_at(b, off) == x,
{
    lemma_auto_spec_u64_to_from_le_bytes();
}

proof fn lemma_meta_layout(b: Seq<u8>, off: int, m: Meta)
    requires
        0 <= off,
        off + 120 <= b.len(),
        b.subrange(off, off + 120) == encode_meta(m),
    ensures
        meta_read_from(b, off, m),
{
    lemma_auto_spec_u64_to_from_le_bytes();
    let e = encode_meta(m);
    assert(b.subrange(off, off + 8) =~= e.subrange(0, 8));
    assert(e.subrange(0, 8) =~= spec_u64_to_le_bytes(m.rent_exempt_reserve));
    assert(b.subrange(off + 8, off + 40) =~= e.subrange(8, 40));
    assert(e.subrange(8, 40) =~= m.authorized.staker@);
    assert(b.subrange(off + 40, off + 72) =~= e.subrange(40, 72));
    assert(e.subrange(40, 72) =~= m.authorized.withdrawer@);
    assert(b.subrange(off + 72, off + 80) =~= e.subrange(72, 80));
    assert(e.subrange(72, 80) =~= spec_u64_to_le_bytes(m.lockup.unix_timestamp as u64));
    assert(b.subrange(off + 80, off + 88) =~= e.subrange(80, 88));
    assert(e.subrange(80, 88) =~= spec_u64_to_le_bytes(m.lockup.epoch));
    assert(b.subrange(off + 88, off + 120) =~= e.subrange(88, 120));
    assert(e.subrange(88, 120) =~= m.lockup.custodian@);
    lemma_u64_field(b, off, m.rent_exempt_reserve);
    lemma_u64_field(b, off + 72, m.lockup.unix_timestamp as u64);
    lemma_u64_field(b, off + 80, m.lockup.epoch);
}

proof fn lemma_stake_layout(b: Seq<u8>, off: int, s: Stake)
    requires
        0 <= off,
        off + 72 <= b.len(),
        b.subrange(off, off + 72) == encode_stake(s),
    ensures
        stake_read_from(b, off, s),
{
    lemma_auto_spec_u64_to_from_le_bytes();
    let e = encode_stake(s);
    let d = s.delegation;
    assert(b.subrange(off, off + 32) =~= e.subrange(0, 32));
    assert(e.subrange(0, 32) =~= d.voter_pubkey@);
    assert(b.subrange(off + 32, off + 40) =~= e.subrange(32, 40));
    assert(e.subrange(32, 40) =~= spec_u64_to_le_bytes(d.stake));
    assert(b.subrange(off + 40, off + 48) =~= e.subrange(40, 48));
    assert(e.subrange(40, 48) =~= spec_u64_to_le_bytes(d.activation_epoch));
    assert(b.subrange(off + 48, off + 56) =~= e.subrange(48, 56));
    assert(e.subrange(48, 56) =~= spec_u64_to_le_bytes(d.deactivation_epoch));
    assert(b.subrange(off + 56, off + 64) =~= e.subrange(56, 64));
    assert(e.subrange(56, 64) =~= spec_u64_to_le_bytes(d.warmup_cooldown_rate_bits));
    assert(b.subrange(off + 64, off + 72) =~= e.subrange(64, 72));
    assert(e.subrange(64, 72) =~= spec_u64_to_le_bytes(s.credits_observed));
    lemma_u64_field(b, off + 32, d.stake);
    lemma_u64_field(b, off + 40, d.activation_epoch);
    lemma_u64_field(b, off + 48, d.deactivation_epoch);
    lemma_u64_field(b, off + 56, d.warmup_cooldown_rate_bits);
    lemma_u64_field(b, off + 64, s.credits_observed);
}

proof fn lemma_encoding_lengths(m: Meta, s: Stake)
    ensures
        encode_meta(m).len() == 120,
        encode_stake(s).len() == 72,
{
    lemma_auto_spec_u64_to_from_le_bytes();
    assert(m.authorized.staker@.len() == 32);
    assert(m.authorized.withdrawer@.len() == 32);
    assert(m.lockup.custodian@.len() == 32);
    assert(s.delegation.voter_pubkey@.len() == 32);
}

/// Two keys with the same bytes are the same key.
pub proof fn lemma_keys_by_view(a: Pubkey, b: Pubkey)
    requires
        a@ == b@,
    ensures
        a == b,
{
    lemma_key_unique(a, b);
}

proof fn lemma_key_unique(a: Pubkey, b: Pubkey)
    requires
        a@ == b@,
    ensures
        a == b,
{
    assert(forall|i: int| 0 <= i < 32 ==> a@[i] == b@[i]);
    vstd::array::axiom_array_ext_equal(a, b);
}

proof fn lemma_meta_unique(b: Seq<u8>, off: int, m1: Meta, m2: Meta)
    requires
        meta_read_from(b, off, m1),
        meta_read_from(b, off, m2),
    ensures
        m1 == m2,
{
    lemma_key_unique(m1.authorized.staker, m2.authorized.staker);
    lemma_key_unique(m1.authorized.withdrawer, m2.authorized.withdrawer);
    lemma_key_unique(m1.lockup.custodian, m2.lockup.custodian);
    let t1 = m1.lockup.unix_timestamp;
    let t2 = m2.lockup.unix_timestamp;
    assert(t1 as u64 == t2 as u64 ==> t1 == t2) by (bit_vector);
}

proof fn lemma_stake_unique(b: Seq<u8>, off: int, s1: Stake, s2: Stake)
    requires
        stake_read_from(b, off, s1),
        stake_read_from(b, off, s2),
    ensures
        s1 == s2,
{
    lemma_key_unique(s1.delegation.voter_pubkey, s2.delegation.voter_pubkey);
}

/// Writing a state and reading the bytes back gives that state and no other:
/// `deserialize_state(serialize_state(s))` is `Some(s)`.
pub proof fn lemma_state_round_trip(s: StakeStateV2, t: StakeStateV2)
    ensures
        valid_state_bytes(encode_state(s)),
        state_read_from(encode_state(s), s),
        state_read_from(encode_state(s), t) <==> t == s,
{
    lemma_auto_spec_u32_to_from_le_bytes();
    let b = encode_state(s);
    assert(b.subrange(0, 4) =~= spec_u32_to_le_bytes(state_tag(s)));
    match s {
        StakeStateV2::Initialized(m) => {
            lemma_encoding_lengths(m, arbitrary());
            assert(b.subrange(4, 124) =~= encode_meta(m));
            lemma_meta_layout(b, 4, m);
        },
        StakeStateV2::Stake(m, st, f) => {
            lemma_encoding_lengths(m, st);
            assert(b.subrange(4, 124) =~= encode_meta(m));
            assert(b.subrange(124, 196) =~= encode_stake(st));
            lemma_meta_layout(b, 4, m);
            lemma_stake_layout(b, 124, st);
            assert(b[196] == f.bits);
        },
        _ => {},
    }
    assert(b.len() == STAKE_STATE_SIZE);
    if state_read_from(b, t) {
        match (s, t) {
            (StakeStateV2::Initialized(m1), StakeStateV2::Initialized(m2)) => {
                lemma_meta_unique(b, 4, m1, m2);
            },
            (StakeStateV2::Stake(m1, s1, _), StakeStateV2::Stake(m2, s2, _)) => {
                lemma_meta_unique(b, 4, m1, m2);
                lemma_stake_unique(b, 124, s1, s2);
            },
            _ => {},
        }
    }
}

/// At most one state is read from any bytes.
pub proof fn lemma_read_functional(b: Seq<u8>, s1: StakeStateV2, s2: StakeStateV2)
    requires
        state_read_from(b, s1),
        state_read_from(b, s2),
    ensures
        s1 == s2,
{
    match (s1, s2) {
        (StakeStateV2::Initialized(m1), StakeStateV2::Initialized(m2)) => {
            lemma_meta_unique(b, 4, m1, m2);
        },
        (StakeStateV2::Stake(m1, a1, _), StakeStateV2::Stake(m2, a2, _)) => {
            lemma_meta_unique(b, 4, m1, m2);
            lemma_stake_unique(b, 124, a1, a2);
        },
        _ => {},
    }
}

} // verus!
