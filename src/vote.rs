//! Vote-account credit records, as read for delegation and delinquency.

use vstd::prelude::*;
use vstd::bytes::*;
use vstd::slice::slice_subrange;

use crate::error::ProgramError;

verus! {

/// Epochs without a vote after which a validator counts as delinquent.
pub const MINIMUM_DELINQUENT_EPOCHS_FOR_DEACTIVATION: u64 = 5;

// Vote account data, as read here: a `u32` count, then `count` records of
// (epoch, credits, previous credits), each a little-endian `u64`.

pub open spec fn credit_count(d: Seq<u8>) -> int {
    spec_u32_from_le_bytes(d.subrange(0, 4)) as int
}

pub open spec fn record_offset(i: int) -> int {
    4 + 24 * i
}

pub open spec fn field_at(d: Seq<u8>, off: int) -> u64 {
    spec_u64_from_le_bytes(d.subrange(off, off + 8))
}

/// Whether record `i` records a vote: its credits exceed the previous credits.
pub open spec fn voted_at(d: Seq<u8>, i: int) -> bool {
    field_at(d, record_offset(i) + 8) > field_at(d, record_offset(i) + 16)
}

/// The check of the `n` newest records, from the `i`-th newest on: each must lie
/// in the data, hold a vote, and have epoch `end - k` for the `k`-th newest.
pub open spec fn consecutive_from(d: Seq<u8>, end: u64, n: u64, i: int) -> Result<bool, ProgramError>
    decreases n - i,
{
    if i >= n {
        Ok(true)
    } else {
        let idx = credit_count(d) - 1 - i;
        let off = record_offset(idx);
        if off + 24 > d.len() {
            Err(ProgramError::InvalidAccountData)
        } else if field_at(d, off) != (if end >= i {
            end - i
        } else {
            0
        }) || !voted_at(d, idx) {
            Ok(false)
        } else {
            consecutive_from(d, end, n, i + 1)
        }
    }
}

/// Whether the `n` newest records are votes in the consecutive epochs ending at `end`.
pub open spec fn has_consecutive_epochs(d: Seq<u8>, end: u64, n: u64) -> Result<bool, ProgramError> {
    if d.len() < 4 {
        Err(ProgramError::InvalidAccountData)
    } else if credit_count(d) < n {
        Ok(false)
    } else {
        consecutive_from(d, end, n, 0)
    }
}

/// The epoch of the newest vote among records `0..=i`, searching downward.
pub open spec fn last_vote_from(d: Seq<u8>, i: int) -> Result<Option<u64>, ProgramError>
    decreases i + 1,
{
    if i < 0 {
        Ok(None)
    } else if record_offset(i) + 24 > d.len() {
        Err(ProgramError::InvalidAccountData)
    } else if voted_at(d, i) {
        Ok(Some(field_at(d, record_offset(i))))
    } else {
        last_vote_from(d, i - 1)
    }
}

pub open spec fn last_vote_epoch(d: Seq<u8>) -> Result<Option<u64>, ProgramError> {
    if d.len() < 4 {
        Err(ProgramError::InvalidAccountData)
    } else {
        last_vote_from(d, credit_count(d) - 1)
    }
}

/// The credits of the newest record, or zero where there is none.
pub open spec fn latest_credits(d: Seq<u8>) -> u64 {
    if d.len() >= 4 && credit_count(d) > 0 && record_offset(credit_count(d)) <= d.len() {
        field_at(d, record_offset(credit_count(d) - 1) + 8)
    } else {
        0
    }
}

fn read_u64_at(d: &[u8], off: u64) -> (r: u64)
    requires
        off + 8 <= d@.len(),
    ensures
        r == field_at(d@, off as int),
{
    let len = d.len();
    let o = off as usize;
    u64_from_le_bytes(slice_subrange(d, o, o + 8))
}

fn read_count(d: &[u8]) -> (r: u64)
    requires
        d@.len() >= 4,
    ensures
        r == credit_count(d@),
{
    u32_from_le_bytes(slice_subrange(d, 0, 4)) as u64
}

pub fn has_consecutive_epochs_bytes(data: &[u8], end_epoch: u64, n: u64) -> (r: Result<bool, ProgramError>)
    ensures
        r == has_consecutive_epochs(data@, end_epoch, n),
{
    let len = data.len();
    if len < 4 {
        return Err(ProgramError::InvalidAccountData);
    }
    let count = read_count(data);
    if count < n {
        return Ok(false);
    }
    let mut i: u64 = 0;
    while i < n
        invariant
            i <= n <= count,
            count == credit_count(data@),
            count < 0x1_0000_0000,
            len == data@.len(),
            has_consecutive_epochs(data@, end_epoch, n) == consecutive_from(data@, end_epoch, n, i as int),
        decreases n - i,
    {
        let idx = count - 1 - i;
        let off = 4 + idx * 24;
        if off + 24 > len as u64 {
            return Err(ProgramError::InvalidAccountData);
        }
        let epoch = read_u64_at(data, off);
        let credits = read_u64_at(data, off + 8);
        let prev = read_u64_at(data, off + 16);
        let expected = end_epoch.saturating_sub(i);
        if epoch != expected || credits <= prev {
            return Ok(false);
        }
        i = i + 1;
    }
    Ok(true)
}

/// Whether the reference vote account voted in each of the last `n` epochs,
/// ending at the current epoch or the one before.
pub fn acceptable_reference_epoch_credits_bytes(data: &[u8], current_epoch: u64, n: u64) -> (r: Result<bool, ProgramError>)
    ensures
        r == match has_consecutive_epochs(data@, current_epoch, n) {
            Ok(true) => Ok(true),
            Ok(false) => has_consecutive_epochs(data@, if current_epoch >= 1 { (current_epoch - 1) as u64 } else { 0 }, n),
            Err(e) => Err(e),
        },
{
    let now = has_consecutive_epochs_bytes(data, current_epoch, n)?;
    if now {
        return Ok(true);
    }
    has_consecutive_epochs_bytes(data, current_epoch.saturating_sub(1), n)
}

/// The epoch of the newest record that holds a vote.
pub fn last_vote_epoch_bytes(data: &[u8]) -> (r: Result<Option<u64>, ProgramError>)
    ensures
        r == last_vote_epoch(data@),
{
    let len = data.len();
    if len < 4 {
        return Err(ProgramError::InvalidAccountData);
    }
    let count = read_count(data);
    let mut i: u64 = count;
    while i > 0
        invariant
            i <= count,
            count == credit_count(data@),
            count < 0x1_0000_0000,
            len == data@.len(),
            last_vote_epoch(data@) == last_vote_from(data@, i - 1),
        decreases i,
    {
        let off = 4 + (i - 1) * 24;
        if off + 24 > len as u64 {
            return Err(ProgramError::InvalidAccountData);
        }
        let credits = read_u64_at(data, off + 8);
        let prev = read_u64_at(data, off + 16);
        if credits > prev {
            return Ok(Some(read_u64_at(data, off)));
        }
        i = i - 1;
    }
    Ok(None)
}

/// The credits that a delegation to this vote account starts from.
pub fn get_vote_credits(data: &[u8]) -> (r: u64)
    ensures
        r == latest_credits(data@),
{
    let len = data.len();
    if len < 4 {
        return 0;
    }
    let count = read_count(data);
    if count == 0 || 4 + count * 24 > len as u64 {
        return 0;
    }
    read_u64_at(data, 4 + (count - 1) * 24 + 8)
}

} // verus!
