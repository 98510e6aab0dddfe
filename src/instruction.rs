//! Instructions and their wire forms.

use vstd::prelude::*;
use vstd::bytes::*;
use vstd::slice::slice_subrange;

use crate::error::ProgramError;
use crate::state::{Authorized, Lockup, Pubkey, StakeAuthorize};

verus! {

/// Optional new lockup fields.
#[derive(Clone, Copy, Debug)]
pub struct LockupArgs {
    pub unix_timestamp: Option<i64>,
    pub epoch: Option<u64>,
    pub custodian: Option<Pubkey>,
}

/// Optional new lockup fields of the checked variant, which names no custodian.
#[derive(Clone, Copy, Debug, PartialEq, Eq, Structural)]
pub struct LockupCheckedArgs {
    pub unix_timestamp: Option<i64>,
    pub epoch: Option<u64>,
}

/// The checked lockup fields as read from a compact payload.
pub type LockupCheckedData = LockupCheckedArgs;

#[derive(Clone, Debug)]
pub struct AuthorizeWithSeedArgs {
    pub new_authorized_pubkey: Pubkey,
    pub stake_authorize: StakeAuthorize,
    pub authority_seed: Vec<u8>,
    pub authority_owner: Pubkey,
}

#[derive(Clone, Debug)]
pub struct AuthorizeCheckedWithSeedArgs {
    pub stake_authorize: StakeAuthorize,
    pub authority_seed: Vec<u8>,
    pub authority_owner: Pubkey,
}

/// The instructions of the stake program.
#[derive(Clone, Debug)]
pub enum StakeInstruction {
    Initialize(Authorized, Lockup),
    Authorize(Pubkey, StakeAuthorize),
    DelegateStake,
    Split(u64),
    Withdraw(u64),
    Deactivate,
    SetLockup(LockupArgs),
    Merge,
    AuthorizeWithSeed(AuthorizeWithSeedArgs),
    InitializeChecked,
    AuthorizeChecked(StakeAuthorize),
    AuthorizeCheckedWithSeed(AuthorizeCheckedWithSeedArgs),
    SetLockupChecked(LockupCheckedArgs),
    GetMinimumDelegation,
    DeactivateDelinquent,
    Redelegate,
    MoveStake(u64),
    MoveLamports(u64),
}

/// The lockup with the given fields replaced.
pub open spec fn lockup_updated(l: Lockup, ts: Option<i64>, epoch: Option<u64>, custodian: Option<Pubkey>) -> Lockup {
    Lockup {
        unix_timestamp: match ts {
            Some(t) => t,
            None => l.unix_timestamp,
        },
        epoch: match epoch {
            Some(e) => e,
            None => l.epoch,
        },
        custodian: match custodian {
            Some(c) => c,
            None => l.custodian,
        },
    }
}

/// Compact lockup payload: a flag byte (bit 0: timestamp, bit 1: epoch, bit 2:
/// custodian, when `allow_custodian`), then the flagged fields in that order,
/// and nothing after them.
pub open spec fn compact_lockup(b: Seq<u8>, allow_custodian: bool) -> Option<LockupArgs> {
    if b.len() == 0 {
        None
    } else {
        let f = b[0];
        let mask: u8 = if allow_custodian {
            7
        } else {
            3
        };
        let has_ts = f & 1 != 0;
        let has_epoch = f & 2 != 0;
        let has_cust = f & 4 != 0;
        let ts_end: int = if has_ts {
            9
        } else {
            1
        };
        let epoch_end: int = if has_epoch {
            ts_end + 8
        } else {
            ts_end
        };
        let end: int = if has_cust {
            epoch_end + 32
        } else {
            epoch_end
        };
        if f & !mask != 0 || b.len() != end {
            None
        } else {
            Some(
                LockupArgs {
                    unix_timestamp: if has_ts {
                        Some(spec_u64_from_le_bytes(b.subrange(1, 9)) as i64)
                    } else {
                        None
                    },
                    epoch: if has_epoch {
                        Some(spec_u64_from_le_bytes(b.subrange(ts_end, ts_end + 8)))
                    } else {
                        None
                    },
                    custodian: if has_cust {
                        Some(choose|k: Pubkey| k@ == b.subrange(epoch_end, epoch_end + 32))
                    } else {
                        None
                    },
                },
            )
        }
    }
}

fn read_key_at(b: &[u8], off: usize) -> (r: Pubkey)
    requires
        off + 32 <= b@.len(),
    ensures
        r@ == b@.subrange(off as int, off + 32),
{
    let len = b.len();
    let mut k: Pubkey = [0u8; 32];
    let mut i: usize = 0;
    while i < 32
        invariant
            i <= 32,
            off + 32 <= len,
            len == b@.len(),
            forall|j: int| 0 <= j < i ==> k[j] == b@[off + j],
        decreases 32 - i,
    {
        k[i] = b[off + i];
        i = i + 1;
    }
    assert(k@ =~= b@.subrange(off as int, off + 32));
    k
}

/// Reads a compact lockup payload.
pub fn parse_set_lockup_bytes(data: &[u8], allow_custodian: bool) -> (r: Result<LockupArgs, ProgramError>)
    ensures
        r is Ok <==> compact_lockup(data@, allow_custodian) is Some,
        r is Err ==> r == Err::<LockupArgs, ProgramError>(ProgramError::InvalidInstructionData),
        r matches Ok(a) ==> a == compact_lockup(data@, allow_custodian).unwrap(),
{
    let len = data.len();
    if len == 0 {
        return Err(ProgramError::InvalidInstructionData);
    }
    let flags = data[0];
    let mask: u8 = if allow_custodian {
        7
    } else {
        3
    };
    if flags & !mask != 0 {
        return Err(ProgramError::InvalidInstructionData);
    }
    let mut off: usize = 1;
    let unix_timestamp = if flags & 1 != 0 {
        if len < off + 8 {
            return Err(ProgramError::InvalidInstructionData);
        }
        let v = u64_from_le_bytes(slice_subrange(data, off, off + 8));
        off = off + 8;
        #[verifier::truncate]
        let t = v as i64;
        Some(t)
    } else {
        None
    };
    let epoch = if flags & 2 != 0 {
        if len < off + 8 {
            return Err(ProgramError::InvalidInstructionData);
        }
        let v = u64_from_le_bytes(slice_subrange(data, off, off + 8));
        off = off + 8;
        Some(v)
    } else {
        None
    };
    let custodian = if flags & 4 != 0 {
        if len < off + 32 {
            return Err(ProgramError::InvalidInstructionData);
        }
        let k = read_key_at(data, off);
        off = off + 32;
        Some(k)
    } else {
        None
    };
    if off != len {
        return Err(ProgramError::InvalidInstructionData);
    }
    proof {
        if flags & 4 != 0 {
            let e = compact_lockup(data@, allow_custodian).unwrap();
            let k = custodian.unwrap();
            let c = e.custodian.unwrap();
            assert(c@ == k@);
            crate::state::lemma_keys_by_view(c, k);
        }
    }
    Ok(LockupArgs { unix_timestamp, epoch, custodian })
}

impl LockupCheckedArgs {
    /// Reads the compact payload of the checked variant: a flag byte (bit 0:
    /// timestamp, bit 1: epoch) and the flagged fields.
    pub fn parse(data: &[u8]) -> (r: Result<LockupCheckedArgs, ProgramError>)
        ensures
            r is Ok <==> compact_lockup(data@, false) is Some,
            r is Err ==> r == Err::<LockupCheckedArgs, ProgramError>(ProgramError::InvalidInstructionData),
            r matches Ok(a) ==> a.unix_timestamp == compact_lockup(data@, false).unwrap().unix_timestamp
                && a.epoch == compact_lockup(data@, false).unwrap().epoch,
    {
        let a = parse_set_lockup_bytes(data, false)?;
        Ok(LockupCheckedArgs { unix_timestamp: a.unix_timestamp, epoch: a.epoch })
    }
}

// ---------------------------------------------------------------------------
// Canonical wire form: a `u32` variant tag, then the fields, little-endian.
// ---------------------------------------------------------------------------

pub open spec fn enc_u64(x: u64) -> Seq<u8> {
    spec_u64_to_le_bytes(x)
}

pub open spec fn enc_auth(a: StakeAuthorize) -> Seq<u8> {
    spec_u32_to_le_bytes(
        match a {
            StakeAuthorize::Staker => 0,
            StakeAuthorize::Withdrawer => 1,
        },
    )
}

pub open spec fn enc_opt_u64(o: Option<u64>) -> Seq<u8> {
    match o {
        Some(v) => seq![1u8] + enc_u64(v),
        None => seq![0u8],
    }
}

pub open spec fn enc_opt_i64(o: Option<i64>) -> Seq<u8> {
    match o {
        Some(v) => seq![1u8] + enc_u64(v as u64),
        None => seq![0u8],
    }
}

pub open spec fn enc_opt_key(o: Option<Pubkey>) -> Seq<u8> {
    match o {
        Some(k) => seq![1u8] + k@,
        None => seq![0u8],
    }
}

pub open spec fn enc_seed(s: Seq<u8>) -> Seq<u8> {
    enc_u64(s.len() as u64) + s
}

pub open spec fn instruction_tag(ix: StakeInstruction) -> u32 {
    match ix {
        StakeInstruction::Initialize(_, _) => 0,
        StakeInstruction::Authorize(_, _) => 1,
        StakeInstruction::DelegateStake => 2,
        StakeInstruction::Split(_) => 3,
        StakeInstruction::Withdraw(_) => 4,
        StakeInstruction::Deactivate => 5,
        StakeInstruction::SetLockup(_) => 6,
        StakeInstruction::Merge => 7,
        StakeInstruction::AuthorizeWithSeed(_) => 8,
        StakeInstruction::InitializeChecked => 9,
        StakeInstruction::AuthorizeChecked(_) => 10,
        StakeInstruction::AuthorizeCheckedWithSeed(_) => 11,
        StakeInstruction::SetLockupChecked(_) => 12,
        StakeInstruction::GetMinimumDelegation => 13,
        StakeInstruction::DeactivateDelinquent => 14,
        StakeInstruction::Redelegate => 15,
        StakeInstruction::MoveStake(_) => 16,
        StakeInstruction::MoveLamports(_) => 17,
    }
}

pub open spec fn payload(ix: StakeInstruction) -> Seq<u8> {
    match ix {
        StakeInstruction::Initialize(a, l) => a.staker@ + a.withdrawer@ + enc_u64(l.unix_timestamp as u64)
            + enc_u64(l.epoch) + l.custodian@,
        StakeInstruction::Authorize(k, a) => k@ + enc_auth(a),
        StakeInstruction::Split(v) => enc_u64(v),
        StakeInstruction::Withdraw(v) => enc_u64(v),
        StakeInstruction::SetLockup(l) => enc_opt_i64(l.unix_timestamp) + enc_opt_u64(l.epoch)
            + enc_opt_key(l.custodian),
        StakeInstruction::AuthorizeWithSeed(a) => a.new_authorized_pubkey@ + enc_auth(a.stake_authorize)
            + enc_seed(a.authority_seed@) + a.authority_owner@,
        StakeInstruction::AuthorizeChecked(a) => enc_auth(a),
        StakeInstruction::AuthorizeCheckedWithSeed(a) => enc_auth(a.stake_authorize) + enc_seed(
            a.authority_seed@,
        ) + a.authority_owner@,
        StakeInstruction::SetLockupChecked(l) => enc_opt_i64(l.unix_timestamp) + enc_opt_u64(l.epoch),
        StakeInstruction::MoveStake(v) => enc_u64(v),
        StakeInstruction::MoveLamports(v) => enc_u64(v),
        _ => seq![],
    }
}

/// The canonical bytes of an instruction.
pub open spec fn encode_instruction(ix: StakeInstruction) -> Seq<u8> {
    spec_u32_to_le_bytes(instruction_tag(ix)) + payload(ix)
}

/// Seeds are at most 32 bytes long.
pub open spec fn instruction_wf(ix: StakeInstruction) -> bool {
    match ix {
        StakeInstruction::AuthorizeWithSeed(a) => a.authority_seed@.len() <= 32,
        StakeInstruction::AuthorizeCheckedWithSeed(a) => a.authority_seed@.len() <= 32,
        _ => true,
    }
}

/// Where an optional field that starts at `off` ends, when its tag is 0 or 1 and
/// its value (of `size` bytes) is there.
pub open spec fn opt_end(b: Seq<u8>, off: int, size: int) -> Option<int> {
    if off < b.len() && b[off] == 0 {
        Some(off + 1)
    } else if off < b.len() && b[off] == 1 && off + 1 + size <= b.len() {
        Some(off + 1 + size)
    } else {
        None
    }
}

pub open spec fn auth_ok(b: Seq<u8>, off: int) -> bool {
    off + 4 <= b.len() && spec_u32_from_le_bytes(b.subrange(off, off + 4)) <= 1
}

/// A seed field at `off`: a length of at most 32, the seed, then 32 more bytes
/// (the owner) ending the data.
pub open spec fn seed_tail_ok(b: Seq<u8>, off: int) -> bool {
    off + 8 <= b.len() && spec_u64_from_le_bytes(b.subrange(off, off + 8)) <= 32 && b.len() == off
        + 8 + spec_u64_from_le_bytes(b.subrange(off, off + 8)) + 32
}

/// The bytes are the canonical form of some instruction: a known tag and fields
/// of the right shape that fill the data exactly.
pub open spec fn canonical_shape(b: Seq<u8>) -> bool {
    b.len() >= 4 && {
        let t = spec_u32_from_le_bytes(b.subrange(0, 4));
        let n = b.len();
        if t == 0 {
            n == 116
        } else if t == 1 {
            n == 40 && auth_ok(b, 36)
        } else if t == 2 || t == 5 || t == 7 || t == 9 || t == 13 || t == 14 || t == 15 {
            n == 4
        } else if t == 3 || t == 4 || t == 16 || t == 17 {
            n == 12
        } else if t == 6 {
            opt_end(b, 4, 8) matches Some(e1) && opt_end(b, e1, 8) matches Some(e2) && opt_end(b, e2, 32) == Some(n as int)
        } else if t == 8 {
            auth_ok(b, 36) && seed_tail_ok(b, 40)
        } else if t == 10 {
            n == 8 && auth_ok(b, 4)
        } else if t == 11 {
            auth_ok(b, 4) && seed_tail_ok(b, 8)
        } else if t == 12 {
            opt_end(b, 4, 8) matches Some(e1) && opt_end(b, e1, 8) == Some(n as int)
        } else {
            false
        }
    }
}

/// A cursor over instruction bytes.
pub struct R<'a> {
    pub b: &'a [u8],
    pub off: usize,
}

proof fn lemma_split_at(b: Seq<u8>, x: int, y: int, z: int)
    requires
        0 <= x <= y <= z <= b.len(),
    ensures
        b.subrange(x, z) == b.subrange(x, y) + b.subrange(y, z),
{
    assert(b.subrange(x, z) =~= b.subrange(x, y) + b.subrange(y, z));
}

impl<'a> R<'a> {
    pub open spec fn wf(&self) -> bool {
        self.off <= self.b@.len() <= usize::MAX
    }

    /// The bytes read so far, from `from` on.
    pub open spec fn read_since(&self, from: int) -> Seq<u8> {
        self.b@.subrange(from, self.off as int)
    }

    pub fn new(b: &'a [u8]) -> (r: Self)
        ensures
            r.b@ == b@,
            r.off == 0,
            r.wf(),
    {
        let _ = b.len();
        R { b, off: 0 }
    }

    /// Bytes left to read.
    pub fn rem(&self) -> (r: usize)
        requires
            self.wf(),
        ensures
            r == self.b@.len() - self.off,
    {
        self.b.len() - self.off
    }

    pub fn u8(&mut self) -> (r: Result<u8, ProgramError>)
        requires
            old(self).wf(),
        ensures
            final(self).wf(),
            final(self).b@ == old(self).b@,
            r is Ok <==> old(self).off < old(self).b@.len(),
            r is Err ==> r == Err::<u8, ProgramError>(ProgramError::InvalidInstructionData) && final(self).off == old(self).off,
            r matches Ok(v) ==> final(self).off == old(self).off + 1 && v == old(self).b@[old(self).off as int]
                && final(self).read_since(old(self).off as int) == seq![v],
    {
        if self.rem() < 1 {
            return Err(ProgramError::InvalidInstructionData);
        }
        let v = self.b[self.off];
        self.off = self.off + 1;
        assert(self.read_since(self.off - 1) =~= seq![v]);
        Ok(v)
    }

    pub fn u32(&mut self) -> (r: Result<u32, ProgramError>)
        requires
            old(self).wf(),
        ensures
            final(self).wf(),
            final(self).b@ == old(self).b@,
            r is Ok <==> old(self).off + 4 <= old(self).b@.len(),
            r is Err ==> r == Err::<u32, ProgramError>(ProgramError::InvalidInstructionData) && final(self).off == old(self).off,
            r matches Ok(v) ==> final(self).off == old(self).off + 4
                && v == spec_u32_from_le_bytes(final(self).read_since(old(self).off as int))
                && final(self).read_since(old(self).off as int) == spec_u32_to_le_bytes(v),
    {
        if self.rem() < 4 {
            return Err(ProgramError::InvalidInstructionData);
        }
        let v = u32_from_le_bytes(slice_subrange(self.b, self.off, self.off + 4));
        self.off = self.off + 4;
        proof {
            lemma_auto_spec_u32_to_from_le_bytes();
        }
        Ok(v)
    }

    /// The variant tag.
    pub fn variant(&mut self) -> (r: Result<u32, ProgramError>)
        requires
            old(self).wf(),
        ensures
            final(self).wf(),
            final(self).b@ == old(self).b@,
            r is Ok <==> old(self).off + 4 <= old(self).b@.len(),
            r is Err ==> r == Err::<u32, ProgramError>(ProgramError::InvalidInstructionData),
            r matches Ok(v) ==> final(self).off == old(self).off + 4
                && v == spec_u32_from_le_bytes(final(self).read_since(old(self).off as int))
                && final(self).read_since(old(self).off as int) == spec_u32_to_le_bytes(v),
    {
        self.u32()
    }

    pub fn u64(&mut self) -> (r: Result<u64, ProgramError>)
        requires
            old(self).wf(),
        ensures
            final(self).wf(),
            final(self).b@ == old(self).b@,
            r is Ok <==> old(self).off + 8 <= old(self).b@.len(),
            r is Err ==> r == Err::<u64, ProgramError>(ProgramError::InvalidInstructionData) && final(self).off == old(self).off,
            r matches Ok(v) ==> final(self).off == old(self).off + 8
                && v == spec_u64_from_le_bytes(final(self).read_since(old(self).off as int))
                && final(self).read_since(old(self).off as int) == enc_u64(v),
    {
        if self.rem() < 8 {
            return Err(ProgramError::InvalidInstructionData);
        }
        let v = u64_from_le_bytes(slice_subrange(self.b, self.off, self.off + 8));
        self.off = self.off + 8;
        proof {
            lemma_auto_spec_u64_to_from_le_bytes();
        }
        Ok(v)
    }

    pub fn i64(&mut self) -> (r: Result<i64, ProgramError>)
        requires
            old(self).wf(),
        ensures
            final(self).wf(),
            final(self).b@ == old(self).b@,
            r is Ok <==> old(self).off + 8 <= old(self).b@.len(),
            r is Err ==> r == Err::<i64, ProgramError>(ProgramError::InvalidInstructionData) && final(self).off == old(self).off,
            r matches Ok(v) ==> final(self).off == old(self).off + 8
                && final(self).read_since(old(self).off as int) == enc_u64(v as u64),
    {
        let u = self.u64()?;
        #[verifier::truncate]
        let v = u as i64;
        assert((u as i64) as u64 == u) by (bit_vector);
        Ok(v)
    }

    pub fn pubkey(&mut self) -> (r: Result<Pubkey, ProgramError>)
        requires
            old(self).wf(),
        ensures
            final(self).wf(),
            final(self).b@ == old(self).b@,
            r is Ok <==> old(self).off + 32 <= old(self).b@.len(),
            r is Err ==> r == Err::<Pubkey, ProgramError>(ProgramError::InvalidInstructionData) && final(self).off == old(self).off,
            r matches Ok(k) ==> final(self).off == old(self).off + 32
                && final(self).read_since(old(self).off as int) == k@,
    {
        if self.rem() < 32 {
            return Err(ProgramError::InvalidInstructionData);
        }
        let k = read_key_at(self.b, self.off);
        self.off = self.off + 32;
        Ok(k)
    }

    /// An option tag: 0 for none, 1 for some.
    pub fn bool(&mut self) -> (r: Result<bool, ProgramError>)
        requires
            old(self).wf(),
        ensures
            final(self).wf(),
            final(self).b@ == old(self).b@,
            r is Ok <==> old(self).off < old(self).b@.len() && old(self).b@[old(self).off as int] <= 1,
            r is Err ==> r == Err::<bool, ProgramError>(ProgramError::InvalidInstructionData),
            r matches Ok(v) ==> final(self).off == old(self).off + 1 && v == (old(self).b@[old(self).off as int] == 1)
                && final(self).read_since(old(self).off as int) == (if v { seq![1u8] } else { seq![0u8] }),
    {
        let t = self.u8()?;
        if t > 1 {
            return Err(ProgramError::InvalidInstructionData);
        }
        Ok(t == 1)
    }

    pub fn opt_u64(&mut self) -> (r: Result<Option<u64>, ProgramError>)
        requires
            old(self).wf(),
        ensures
            final(self).wf(),
            final(self).b@ == old(self).b@,
            r is Ok <==> opt_end(old(self).b@, old(self).off as int, 8) is Some,
            r is Err ==> r == Err::<Option<u64>, ProgramError>(ProgramError::InvalidInstructionData),
            r matches Ok(v) ==> opt_end(old(self).b@, old(self).off as int, 8) == Some(final(self).off as int)
                && final(self).read_since(old(self).off as int) == enc_opt_u64(v),
    {
        let start = self.off;
        if self.bool()? {
            let v = self.u64()?;
            proof { lemma_split_at(self.b@, start as int, start + 1, self.off as int); }
            Ok(Some(v))
        } else {
            Ok(None)
        }
    }

    pub fn opt_i64(&mut self) -> (r: Result<Option<i64>, ProgramError>)
        requires
            old(self).wf(),
        ensures
            final(self).wf(),
            final(self).b@ == old(self).b@,
            r is Ok <==> opt_end(old(self).b@, old(self).off as int, 8) is Some,
            r is Err ==> r == Err::<Option<i64>, ProgramError>(ProgramError::InvalidInstructionData),
            r matches Ok(v) ==> opt_end(old(self).b@, old(self).off as int, 8) == Some(final(self).off as int)
                && final(self).read_since(old(self).off as int) == enc_opt_i64(v),
    {
        let start = self.off;
        if self.bool()? {
            let v = self.i64()?;
            proof { lemma_split_at(self.b@, start as int, start + 1, self.off as int); }
            Ok(Some(v))
        } else {
            Ok(None)
        }
    }

    pub fn opt_pubkey(&mut self) -> (r: Result<Option<Pubkey>, ProgramError>)
        requires
            old(self).wf(),
        ensures
            final(self).wf(),
            final(self).b@ == old(self).b@,
            r is Ok <==> opt_end(old(self).b@, old(self).off as int, 32) is Some,
            r is Err ==> r == Err::<Option<Pubkey>, ProgramError>(ProgramError::InvalidInstructionData),
            r matches Ok(v) ==> opt_end(old(self).b@, old(self).off as int, 32) == Some(final(self).off as int)
                && final(self).read_since(old(self).off as int) == enc_opt_key(v),
    {
        let start = self.off;
        if self.bool()? {
            let v = self.pubkey()?;
            proof { lemma_split_at(self.b@, start as int, start + 1, self.off as int); }
            Ok(Some(v))
        } else {
            Ok(None)
        }
    }

    /// A seed: a `u64` length of at most 32, then that many bytes.
    pub fn string_bytes(&mut self) -> (r: Result<Vec<u8>, ProgramError>)
        requires
            old(self).wf(),
        ensures
            final(self).wf(),
            final(self).b@ == old(self).b@,
            r is Ok <==> old(self).off + 8 <= old(self).b@.len() && spec_u64_from_le_bytes(old(self).b@.subrange(old(self).off as int, old(self).off + 8)) <= 32
                && old(self).off + 8 + spec_u64_from_le_bytes(old(self).b@.subrange(old(self).off as int, old(self).off + 8)) <= old(self).b@.len(),
            r is Err ==> r == Err::<Vec<u8>, ProgramError>(ProgramError::InvalidInstructionData),
            r matches Ok(v) ==> final(self).off == old(self).off + 8 + v@.len() && v@.len() <= 32
                && v@.len() == spec_u64_from_le_bytes(old(self).b@.subrange(old(self).off as int, old(self).off + 8))
                && final(self).read_since(old(self).off as int) == enc_seed(v@),
    {
        let start = self.off;
        let n = self.u64()?;
        if n > 32 || self.rem() < n as usize {
            return Err(ProgramError::InvalidInstructionData);
        }
        let mut v: Vec<u8> = Vec::new();
        let mut i: usize = 0;
        let from = self.off;
        while i < n as usize
            invariant
                i <= n <= 32,
                self.b@.len() <= usize::MAX,
                from + n <= self.b@.len(),
                self.off == from,
                v@ == self.b@.subrange(from as int, from + i),
            decreases n - i,
        {
            v.push(self.b[from + i]);
            i = i + 1;
            assert(v@ =~= self.b@.subrange(from as int, from + i));
        }
        self.off = from + n as usize;
        proof { lemma_split_at(self.b@, start as int, from as int, self.off as int); }
        Ok(v)
    }

    pub fn stake_auth(&mut self) -> (r: Result<StakeAuthorize, ProgramError>)
        requires
            old(self).wf(),
        ensures
            final(self).wf(),
            final(self).b@ == old(self).b@,
            r is Ok <==> auth_ok(old(self).b@, old(self).off as int),
            r is Err ==> r == Err::<StakeAuthorize, ProgramError>(ProgramError::InvalidInstructionData),
            r matches Ok(a) ==> final(self).off == old(self).off + 4
                && final(self).read_since(old(self).off as int) == enc_auth(a),
    {
        match self.u32()? {
            0 => Ok(StakeAuthorize::Staker),
            1 => Ok(StakeAuthorize::Withdrawer),
            _ => Err(ProgramError::InvalidInstructionData),
        }
    }
}

/// Decodes the canonical wire form. Succeeds exactly on the bytes of some
/// instruction (no missing or trailing bytes, known tags only), and the result
/// is the instruction those bytes encode.
pub fn deserialize(data: &[u8]) -> (r: Result<StakeInstruction, ProgramError>)
    ensures
        r is Ok <==> canonical_shape(data@),
        r is Err ==> r == Err::<StakeInstruction, ProgramError>(ProgramError::InvalidInstructionData),
        r matches Ok(ix) ==> encode_instruction(ix) == data@ && instruction_wf(ix),
{
    let mut r = R::new(data);
    let tag = r.variant()?;
    let ghost b = data@;
    let ix = if tag == 0 {
        let staker = r.pubkey()?;
        let withdrawer = r.pubkey()?;
        let ts = r.i64()?;
        let epoch = r.u64()?;
        let custodian = r.pubkey()?;
        StakeInstruction::Initialize(Authorized { staker, withdrawer }, Lockup { unix_timestamp: ts, epoch, custodian })
    } else if tag == 1 {
        let k = r.pubkey()?;
        let a = r.stake_auth()?;
        StakeInstruction::Authorize(k, a)
    } else if tag == 2 {
        StakeInstruction::DelegateStake
    } else if tag == 3 {
        StakeInstruction::Split(r.u64()?)
    } else if tag == 4 {
        StakeInstruction::Withdraw(r.u64()?)
    } else if tag == 5 {
        StakeInstruction::Deactivate
    } else if tag == 6 {
        let unix_timestamp = r.opt_i64()?;
        let epoch = r.opt_u64()?;
        let custodian = r.opt_pubkey()?;
        StakeInstruction::SetLockup(LockupArgs { unix_timestamp, epoch, custodian })
    } else if tag == 7 {
        StakeInstruction::Merge
    } else if tag == 8 {
        let new_authorized_pubkey = r.pubkey()?;
        let stake_authorize = r.stake_auth()?;
        let authority_seed = r.string_bytes()?;
        let authority_owner = r.pubkey()?;
        StakeInstruction::AuthorizeWithSeed(AuthorizeWithSeedArgs { new_authorized_pubkey, stake_authorize, authority_seed, authority_owner })
    } else if tag == 9 {
        StakeInstruction::InitializeChecked
    } else if tag == 10 {
        StakeInstruction::AuthorizeChecked(r.stake_auth()?)
    } else if tag == 11 {
        let stake_authorize = r.stake_auth()?;
        let authority_seed = r.string_bytes()?;
        let authority_owner = r.pubkey()?;
        StakeInstruction::AuthorizeCheckedWithSeed(AuthorizeCheckedWithSeedArgs { stake_authorize, authority_seed, authority_owner })
    } else if tag == 12 {
        let unix_timestamp = r.opt_i64()?;
        let epoch = r.opt_u64()?;
        StakeInstruction::SetLockupChecked(LockupCheckedArgs { unix_timestamp, epoch })
    } else if tag == 13 {
        StakeInstruction::GetMinimumDelegation
    } else if tag == 14 {
        StakeInstruction::DeactivateDelinquent
    } else if tag == 15 {
        StakeInstruction::Redelegate
    } else if tag == 16 {
        StakeInstruction::MoveStake(r.u64()?)
    } else if tag == 17 {
        StakeInstruction::MoveLamports(r.u64()?)
    } else {
        return Err(ProgramError::InvalidInstructionData);
    };
    if r.off != data.len() {
        return Err(ProgramError::InvalidInstructionData);
    }
    assert(encode_instruction(ix) =~= data@);
    Ok(ix)
}

proof fn lemma_opt_end(b: Seq<u8>, off: int, piece: Seq<u8>, size: int)
    requires
        0 <= off,
        off + piece.len() <= b.len(),
        b.subrange(off, off + piece.len()) == piece,
        piece.len() == 1 && piece[0] == 0 || piece.len() == 1 + size && piece[0] == 1,
        size >= 0,
    ensures
        opt_end(b, off, size) == Some(off + piece.len()),
{
    assert(b[off] == b.subrange(off, off + piece.len())[0]);
}

proof fn lemma_piece_lengths(l: LockupArgs)
    ensures
        enc_opt_i64(l.unix_timestamp).len() == 1 || enc_opt_i64(l.unix_timestamp).len() == 9,
        enc_opt_i64(l.unix_timestamp)[0] == (if l.unix_timestamp is Some { 1u8 } else { 0u8 }),
        enc_opt_i64(l.unix_timestamp).len() == (if l.unix_timestamp is Some { 9int } else { 1int }),
        enc_opt_u64(l.epoch)[0] == (if l.epoch is Some { 1u8 } else { 0u8 }),
        enc_opt_u64(l.epoch).len() == (if l.epoch is Some { 9int } else { 1int }),
        enc_opt_key(l.custodian)[0] == (if l.custodian is Some { 1u8 } else { 0u8 }),
        enc_opt_key(l.custodian).len() == (if l.custodian is Some { 33int } else { 1int }),
{
    lemma_auto_spec_u64_to_from_le_bytes();
    match l.custodian {
        Some(k) => assert(k@.len() == 32),
        None => {},
    }
}

proof fn lemma_auth_ok(b: Seq<u8>, off: int, a: StakeAuthorize)
    requires
        0 <= off,
        off + 4 <= b.len(),
        b.subrange(off, off + 4) == enc_auth(a),
    ensures
        auth_ok(b, off),
{
    lemma_auto_spec_u32_to_from_le_bytes();
    let x: u32 = match a {
        StakeAuthorize::Staker => 0,
        StakeAuthorize::Withdrawer => 1,
    };
    assert(enc_auth(a) == spec_u32_to_le_bytes(x));
    assert(spec_u32_from_le_bytes(spec_u32_to_le_bytes(x)) == x);
}

proof fn lemma_seed_tail(b: Seq<u8>, off: int, seed: Seq<u8>, owner: Pubkey)
    requires
        0 <= off,
        seed.len() <= 32,
        b.len() == off + 8 + seed.len() + 32,
        b.subrange(off, off + 8) == enc_u64(seed.len() as u64),
    ensures
        seed_tail_ok(b, off),
{
    lemma_auto_spec_u64_to_from_le_bytes();
}

/// Every well-formed instruction's canonical bytes are accepted by the decoder,
/// which then returns an instruction with exactly those bytes.
pub proof fn lemma_instruction_round_trip(ix: StakeInstruction)
    requires
        instruction_wf(ix),
    ensures
        canonical_shape(encode_instruction(ix)),
{
    lemma_auto_spec_u32_to_from_le_bytes();
    lemma_auto_spec_u64_to_from_le_bytes();
    let b = encode_instruction(ix);
    let t = instruction_tag(ix);
    let p = payload(ix);
    assert(b.subrange(0, 4) =~= spec_u32_to_le_bytes(t));
    assert(b.subrange(4, b.len() as int) =~= p);
    match ix {
        StakeInstruction::Initialize(a, l) => {
            assert(a.staker@.len() == 32 && a.withdrawer@.len() == 32 && l.custodian@.len() == 32);
        },
        StakeInstruction::Authorize(k, a) => {
            assert(k@.len() == 32);
            assert(b.subrange(36, 40) =~= enc_auth(a));
            lemma_auth_ok(b, 36, a);
        },
        StakeInstruction::SetLockup(l) => {
            lemma_piece_lengths(l);
            let ts_bytes = enc_opt_i64(l.unix_timestamp);
            let epoch_bytes = enc_opt_u64(l.epoch);
            let custodian_bytes = enc_opt_key(l.custodian);
            let e1 = 4 + ts_bytes.len() as int;
            let e2 = e1 + epoch_bytes.len() as int;
            let e3 = e2 + custodian_bytes.len() as int;
            assert(b.subrange(4, e1) =~= ts_bytes);
            lemma_opt_end(b, 4, ts_bytes, 8);
            assert(b.subrange(e1, e2) =~= epoch_bytes);
            lemma_opt_end(b, e1, epoch_bytes, 8);
            assert(b.subrange(e2, e3) =~= custodian_bytes);
            lemma_opt_end(b, e2, custodian_bytes, 32);
        },
        StakeInstruction::SetLockupChecked(l) => {
            let full = LockupArgs { unix_timestamp: l.unix_timestamp, epoch: l.epoch, custodian: None };
            lemma_piece_lengths(full);
            let ts_bytes = enc_opt_i64(l.unix_timestamp);
            let epoch_bytes = enc_opt_u64(l.epoch);
            let e1 = 4 + ts_bytes.len() as int;
            let e2 = e1 + epoch_bytes.len() as int;
            assert(b.subrange(4, e1) =~= ts_bytes);
            lemma_opt_end(b, 4, ts_bytes, 8);
            assert(b.subrange(e1, e2) =~= epoch_bytes);
            lemma_opt_end(b, e1, epoch_bytes, 8);
        },
        StakeInstruction::AuthorizeWithSeed(a) => {
            assert(a.new_authorized_pubkey@.len() == 32 && a.authority_owner@.len() == 32);
            assert(b.subrange(36, 40) =~= enc_auth(a.stake_authorize));
            lemma_auth_ok(b, 36, a.stake_authorize);
            assert(b.subrange(40, 48) =~= enc_u64(a.authority_seed@.len() as u64));
            lemma_seed_tail(b, 40, a.authority_seed@, a.authority_owner);
        },
        StakeInstruction::AuthorizeChecked(a) => {
            assert(b.subrange(4, 8) =~= enc_auth(a));
            lemma_auth_ok(b, 4, a);
        },
        StakeInstruction::AuthorizeCheckedWithSeed(a) => {
            assert(a.authority_owner@.len() == 32);
            assert(b.subrange(4, 8) =~= enc_auth(a.stake_authorize));
            lemma_auth_ok(b, 4, a.stake_authorize);
            assert(b.subrange(8, 16) =~= enc_u64(a.authority_seed@.len() as u64));
            lemma_seed_tail(b, 8, a.authority_seed@, a.authority_owner);
        },
        _ => {},
    }
}

} // verus!
