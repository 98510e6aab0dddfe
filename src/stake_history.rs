//! Cluster stake history and the warmup/cooldown of a delegation over it.

use vstd::prelude::*;
use vstd::bytes::*;
use vstd::slice::slice_subrange;

use crate::state::Delegation;

verus! {

/// Most entries that a history holds.
pub const MAX_STAKE_HISTORY_ENTRIES: usize = 512;

/// Serialized size of one history record: the epoch and three amounts.
pub const EPOCH_AND_ENTRY_SERIALIZED_SIZE: usize = 32;

/// Cluster-wide stake amounts at one epoch.
#[derive(Clone, Copy, Debug, PartialEq, Eq, Structural)]
pub struct StakeHistoryEntry {
    /// Effective stake at this epoch.
    pub effective: u64,
    /// Stake not yet fully warmed up.
    pub activating: u64,
    /// Stake requested to cool down and not yet fully deactivated.
    pub deactivating: u64,
}

impl StakeHistoryEntry {
    /// Serialized size of the three amounts.
    pub fn size() -> (r: usize)
        ensures
            r == 24,
    {
        24
    }

    pub fn with_effective(effective: u64) -> (r: Self)
        ensures
            r == (StakeHistoryEntry { effective, activating: 0, deactivating: 0 }),
    {
        StakeHistoryEntry { effective, activating: 0, deactivating: 0 }
    }

    pub fn with_effective_and_activating(effective: u64, activating: u64) -> (r: Self)
        ensures
            r == (StakeHistoryEntry { effective, activating, deactivating: 0 }),
    {
        StakeHistoryEntry { effective, activating, deactivating: 0 }
    }

    /// An entry whose stake is all effective and all deactivating.
    pub fn with_deactivating(deactivating: u64) -> (r: Self)
        ensures
            r == (StakeHistoryEntry { effective: deactivating, activating: 0, deactivating }),
    {
        StakeHistoryEntry { effective: deactivating, activating: 0, deactivating }
    }
}

/// Cluster stake per epoch, as a list of (epoch, entry) records.
#[derive(Debug)]
pub struct StakeHistory {
    pub entries: Vec<(u64, StakeHistoryEntry)>,
}

/// The entry recorded for `epoch`: the first record with that epoch.
pub open spec fn entry_for(h: Seq<(u64, StakeHistoryEntry)>, epoch: u64) -> Option<
    StakeHistoryEntry,
>
    decreases h.len(),
{
    if h.len() == 0 {
        None
    } else if h[0].0 == epoch {
        Some(h[0].1)
    } else {
        entry_for(h.drop_first(), epoch)
    }
}

/// The records that serialized history bytes hold: a `u64` count, then per record
/// the epoch and the three amounts; at most the first 512 records are kept, and
/// bytes too short for the count they announce hold none.
pub open spec fn history_from_bytes(d: Seq<u8>) -> Seq<(u64, StakeHistoryEntry)> {
    if d.len() < 8 {
        seq![]
    } else {
        let n = spec_u64_from_le_bytes(d.subrange(0, 8)) as int;
        if d.len() < 8 + 32 * n {
            seq![]
        } else {
            let k = if n < 512 {
                n
            } else {
                512
            };
            Seq::new(k as nat, |i: int| record_at(d, 8 + 32 * i))
        }
    }
}

pub open spec fn record_at(d: Seq<u8>, off: int) -> (u64, StakeHistoryEntry) {
    (
        spec_u64_from_le_bytes(d.subrange(off, off + 8)),
        StakeHistoryEntry {
            effective: spec_u64_from_le_bytes(d.subrange(off + 8, off + 16)),
            activating: spec_u64_from_le_bytes(d.subrange(off + 16, off + 24)),
            deactivating: spec_u64_from_le_bytes(d.subrange(off + 24, off + 32)),
        },
    )
}

impl View for StakeHistory {
    type V = Seq<(u64, StakeHistoryEntry)>;

    open spec fn view(&self) -> Seq<(u64, StakeHistoryEntry)> {
        self.entries@
    }
}

impl StakeHistory {
    pub open spec fn wf(&self) -> bool {
        self@.len() <= MAX_STAKE_HISTORY_ENTRIES
    }

    pub fn new() -> (r: Self)
        ensures
            r@ == Seq::<(u64, StakeHistoryEntry)>::empty(),
            r.wf(),
    {
        StakeHistory { entries: Vec::new() }
    }

    pub fn len(&self) -> (r: usize)
        ensures
            r == self@.len(),
    {
        self.entries.len()
    }

    /// Appends a record, unless the history is full.
    pub fn push(&mut self, epoch: u64, entry: StakeHistoryEntry) -> (r: Result<(), &'static str>)
        requires
            old(self).wf(),
        ensures
            final(self).wf(),
            old(self)@.len() < MAX_STAKE_HISTORY_ENTRIES ==> r is Ok && final(self)@ == old(
                self,
            )@.push((epoch, entry)),
            old(self)@.len() >= MAX_STAKE_HISTORY_ENTRIES ==> r is Err && final(self)@ == old(
                self,
            )@,
    {
        if self.entries.len() >= MAX_STAKE_HISTORY_ENTRIES {
            return Err("StakeHistory is full");
        }
        self.entries.push((epoch, entry));
        Ok(())
    }

    /// The entry at a position of the list.
    pub fn get(&self, index: usize) -> (r: Option<StakeHistoryEntry>)
        ensures
            index < self@.len() ==> r == Some(self@[index as int].1),
            index >= self@.len() ==> r is None,
    {
        if index < self.entries.len() {
            Some(self.entries[index].1)
        } else {
            None
        }
    }

    /// The entry recorded for an epoch.
    pub fn get_entry(&self, epoch: u64) -> (r: Option<StakeHistoryEntry>)
        ensures
            r == entry_for(self@, epoch),
    {
        let mut i: usize = 0;
        assert(self@.subrange(0, self@.len() as int) =~= self@);
        while i < self.entries.len()
            invariant
                i <= self@.len(),
                entry_for(self@, epoch) == entry_for(self@.subrange(i as int, self@.len() as int), epoch),
            decreases self@.len() - i,
        {
            let ghost rest = self@.subrange(i as int, self@.len() as int);
            assert(rest.drop_first() =~= self@.subrange(i + 1, self@.len() as int));
            if self.entries[i].0 == epoch {
                return Some(self.entries[i].1);
            }
            i = i + 1;
        }
        None
    }

    /// Reads the serialized history held by the history sysvar account.
    pub fn from_account_data(data: &[u8], current_epoch: u64) -> (r: Self)
        ensures
            r@ == history_from_bytes(data@),
            r.wf(),
    {
        let mut sh = Self::new();
        let len = data.len();
        if len < 8 {
            return sh;
        }
        let count = u64_from_le_bytes(slice_subrange(data, 0, 8));
        let want: u128 = (count as u128) * 32 + 8;
        if (len as u128) < want {
            return sh;
        }
        let take: usize = if count < 512 {
            count as usize
        } else {
            MAX_STAKE_HISTORY_ENTRIES
        };
        let ghost expected = history_from_bytes(data@);
        assert(expected.len() == take);
        let mut i: usize = 0;
        while i < take
            invariant
                i <= take,
                take <= 512,
                8 + 32 * take <= len,
                len == data@.len(),
                expected == history_from_bytes(data@),
                expected.len() == take,
                sh@ == expected.subrange(0, i as int),
                sh.wf(),
            decreases take - i,
        {
            let off: usize = 8 + 32 * i;
            let epoch = u64_from_le_bytes(slice_subrange(data, off, off + 8));
            let effective = u64_from_le_bytes(slice_subrange(data, off + 8, off + 16));
            let activating = u64_from_le_bytes(slice_subrange(data, off + 16, off + 24));
            let deactivating = u64_from_le_bytes(slice_subrange(data, off + 24, off + 32));
            let _ = sh.push(epoch, StakeHistoryEntry { effective, activating, deactivating });
            assert(expected[i as int] == record_at(data@, off as int));
            i = i + 1;
            assert(sh@ =~= expected.subrange(0, i as int));
        }
        assert(expected.subrange(0, take as int) =~= expected);
        sh
    }
}

// ---------------------------------------------------------------------------
// Warmup and cooldown
// ---------------------------------------------------------------------------

/// The fraction of the cluster's effective stake that may change state in an epoch:
/// nine hundredths before the cutoff epoch, one quarter from it on.
pub open spec fn rate_fraction(epoch: int, cutoff: u64) -> (int, int) {
    if epoch < cutoff {
        (9, 100)
    } else {
        (1, 4)
    }
}

/// How much of an account's `portion` changes state in one epoch, given the
/// cluster's changing total `cluster_total` and its effective stake: the account's
/// share of the cluster's allowance, rounded down, and at least one lamport.
pub open spec fn stake_delta(portion: u64, cluster_total: u64, cluster_effective: u64, epoch: int, cutoff: u64) -> int {
    let (num, den) = rate_fraction(epoch, cutoff);
    let allowance = cluster_effective * num / den;
    let d = portion * allowance / (cluster_total as int);
    if d < 1 {
        1
    } else {
        d
    }
}

/// The warmup walk: from the entry `prev` of epoch `prev_epoch`, with `effective`
/// lamports active, add each epoch's delta until all is active, the target or the
/// deactivation epoch is reached, or the history has no entry.
pub open spec fn warmup(d: Delegation, h: Seq<(u64, StakeHistoryEntry)>, cutoff: u64, target: u64, prev_epoch: u64, prev: StakeHistoryEntry, effective: u64) -> u64
    decreases target - prev_epoch,
{
    let cur = prev_epoch + 1;
    if prev.activating == 0 || effective >= d.stake {
        effective
    } else {
        let delta = stake_delta((d.stake - effective) as u64, prev.activating, prev.effective, cur, cutoff);
        if effective + delta >= d.stake {
            d.stake
        } else if cur >= target || cur >= d.deactivation_epoch {
            (effective + delta) as u64
        } else {
            match entry_for(h, cur as u64) {
                Some(e) => warmup(d, h, cutoff, target, cur as u64, e, (effective + delta) as u64),
                None => (effective + delta) as u64,
            }
        }
    }
}

/// The cooldown walk, symmetric to the warmup walk: subtract each epoch's delta
/// until nothing is effective, the target is reached, or the history has no entry.
pub open spec fn cooldown(d: Delegation, h: Seq<(u64, StakeHistoryEntry)>, cutoff: u64, target: u64, prev_epoch: u64, prev: StakeHistoryEntry, effective: u64) -> u64
    decreases target - prev_epoch,
{
    let cur = prev_epoch + 1;
    if prev.deactivating == 0 || effective == 0 {
        effective
    } else {
        let delta = stake_delta(effective, prev.deactivating, prev.effective, cur, cutoff);
        if delta >= effective {
            0
        } else if cur >= target {
            (effective - delta) as u64
        } else {
            match entry_for(h, cur as u64) {
                Some(e) => cooldown(d, h, cutoff, target, cur as u64, e, (effective - delta) as u64),
                None => (effective - delta) as u64,
            }
        }
    }
}

/// Effective and activating stake of a delegation at `target`, before cooldown.
pub open spec fn stake_and_activating(d: Delegation, target: u64, h: Seq<(u64, StakeHistoryEntry)>, cutoff: u64) -> (u64, u64) {
    if d.activation_epoch == u64::MAX {
        (d.stake, 0)
    } else if d.activation_epoch == d.deactivation_epoch {
        (0, 0)
    } else if target == d.activation_epoch {
        (0, d.stake)
    } else if target < d.activation_epoch {
        (0, 0)
    } else {
        match entry_for(h, d.activation_epoch) {
            Some(e) => {
                let eff = warmup(d, h, cutoff, target, d.activation_epoch, e, 0);
                (eff, (d.stake - eff) as u64)
            },
            None => (d.stake, 0),
        }
    }
}

/// Effective, activating and deactivating stake of a delegation at `target`.
pub open spec fn activation_status(d: Delegation, target: u64, h: Seq<(u64, StakeHistoryEntry)>, cutoff: u64) -> StakeHistoryEntry {
    let (eff, act) = stake_and_activating(d, target, h, cutoff);
    if target < d.deactivation_epoch {
        StakeHistoryEntry { effective: eff, activating: act, deactivating: 0 }
    } else if target == d.deactivation_epoch {
        StakeHistoryEntry { effective: eff, activating: 0, deactivating: eff }
    } else {
        match entry_for(h, d.deactivation_epoch) {
            Some(e) => {
                let r = cooldown(d, h, cutoff, target, d.deactivation_epoch, e, eff);
                StakeHistoryEntry { effective: r, activating: 0, deactivating: r }
            },
            None => StakeHistoryEntry { effective: 0, activating: 0, deactivating: 0 },
        }
    }
}

proof fn lemma_delta_bounds(portion: u64, ce: u64, num: int, den: int)
    requires
        0 < num <= den,
    ensures
        0 <= ce * num / den <= ce,
        portion * (ce * num / den) <= u64::MAX * u64::MAX,
{
    assert(ce * num <= ce * den) by (nonlinear_arith)
        requires
            0 < num <= den,
            0 <= ce,
    ;
    vstd::arithmetic::div_mod::lemma_div_is_ordered(ce * num, ce * den, den);
    vstd::arithmetic::div_mod::lemma_div_by_multiple(ce as int, den);
    vstd::arithmetic::div_mod::lemma_div_pos_is_pos(ce * num, den);
    let a = ce * num / den;
    assert(portion * a <= u64::MAX * u64::MAX) by (nonlinear_arith)
        requires
            0 <= a <= ce,
            ce <= u64::MAX,
            0 <= portion <= u64::MAX,
    ;
}

/// The exec form of `stake_delta`.
fn compute_stake_delta(portion: u64, cluster_total: u64, cluster_effective: u64, epoch: u64, cutoff: u64) -> (r: u128)
    requires
        cluster_total > 0,
    ensures
        r == stake_delta(portion, cluster_total, cluster_effective, epoch as int, cutoff),
        r >= 1,
{
    let (num, den): (u128, u128) = if epoch < cutoff {
        (9, 100)
    } else {
        (1, 4)
    };
    proof {
        lemma_delta_bounds(portion, cluster_effective, num as int, den as int);
    }
    let allowance: u128 = (cluster_effective as u128) * num / den;
    let d: u128 = (portion as u128) * allowance / (cluster_total as u128);
    if d < 1 {
        1
    } else {
        d
    }
}

fn warmup_walk(d: &Delegation, h: &StakeHistory, cutoff: u64, target: u64, start_epoch: u64, start: StakeHistoryEntry) -> (r: u64)
    requires
        start_epoch < target,
    ensures
        r == warmup(*d, h@, cutoff, target, start_epoch, start, 0),
{
    let mut prev_epoch = start_epoch;
    let mut prev = start;
    let mut effective: u64 = 0;
    loop
        invariant
            prev_epoch < target,
            warmup(*d, h@, cutoff, target, start_epoch, start, 0) == warmup(*d, h@, cutoff, target, prev_epoch, prev, effective),
        decreases target - prev_epoch,
    {
        let cur = prev_epoch + 1;
        if prev.activating == 0 || effective >= d.stake {
            return effective;
        }
        let delta = compute_stake_delta(d.stake - effective, prev.activating, prev.effective, cur, cutoff);
        if delta >= (d.stake - effective) as u128 {
            return d.stake;
        }
        let next = effective + delta as u64;
        if cur >= target || cur >= d.deactivation_epoch {
            return next;
        }
        match h.get_entry(cur) {
            Some(e) => {
                prev_epoch = cur;
                prev = e;
                effective = next;
            },
            None => {
                return next;
            },
        }
    }
}

fn cooldown_walk(d: &Delegation, h: &StakeHistory, cutoff: u64, target: u64, start_epoch: u64, start: StakeHistoryEntry, start_effective: u64) -> (r: u64)
    requires
        start_epoch < target,
    ensures
        r == cooldown(*d, h@, cutoff, target, start_epoch, start, start_effective),
{
    let mut prev_epoch = start_epoch;
    let mut prev = start;
    let mut effective: u64 = start_effective;
    loop
        invariant
            prev_epoch < target,
            cooldown(*d, h@, cutoff, target, start_epoch, start, start_effective) == cooldown(*d, h@, cutoff, target, prev_epoch, prev, effective),
        decreases target - prev_epoch,
    {
        let cur = prev_epoch + 1;
        if prev.deactivating == 0 || effective == 0 {
            return effective;
        }
        let delta = compute_stake_delta(effective, prev.deactivating, prev.effective, cur, cutoff);
        if delta >= effective as u128 {
            return 0;
        }
        let next = effective - delta as u64;
        if cur >= target {
            return next;
        }
        match h.get_entry(cur) {
            Some(e) => {
                prev_epoch = cur;
                prev = e;
                effective = next;
            },
            None => {
                return next;
            },
        }
    }
}

impl Delegation {
    /// Effective and activating stake at `target`, before any cooldown.
    pub fn stake_and_activating(&self, target: u64, history: &StakeHistory, cutoff: u64) -> (r: (u64, u64))
        ensures
            r == stake_and_activating(*self, target, history@, cutoff),
    {
        if self.activation_epoch == u64::MAX {
            (self.stake, 0)
        } else if self.activation_epoch == self.deactivation_epoch {
            (0, 0)
        } else if target == self.activation_epoch {
            (0, self.stake)
        } else if target < self.activation_epoch {
            (0, 0)
        } else {
            match history.get_entry(self.activation_epoch) {
                Some(e) => {
                    let eff = warmup_walk(self, history, cutoff, target, self.activation_epoch, e);
                    proof {
                        lemma_warmup_bounded(*self, history@, cutoff, target, self.activation_epoch, e, 0);
                    }
                    (eff, self.stake - eff)
                },
                None => (self.stake, 0),
            }
        }
    }

    /// Effective, activating and deactivating stake of the delegation at `target`.
    pub fn stake_activating_and_deactivating(&self, target: u64, history: &StakeHistory, cutoff: u64) -> (r: StakeHistoryEntry)
        ensures
            r == activation_status(*self, target, history@, cutoff),
    {
        let (eff, act) = self.stake_and_activating(target, history, cutoff);
        if target < self.deactivation_epoch {
            StakeHistoryEntry { effective: eff, activating: act, deactivating: 0 }
        } else if target == self.deactivation_epoch {
            StakeHistoryEntry { effective: eff, activating: 0, deactivating: eff }
        } else {
            match history.get_entry(self.deactivation_epoch) {
                Some(e) => {
                    let r = cooldown_walk(self, history, cutoff, target, self.deactivation_epoch, e, eff);
                    StakeHistoryEntry { effective: r, activating: 0, deactivating: r }
                },
                None => StakeHistoryEntry { effective: 0, activating: 0, deactivating: 0 },
            }
        }
    }

    /// Effective stake of the delegation at `target`.
    pub fn stake(&self, target: u64, history: &StakeHistory, cutoff: u64) -> (r: u64)
        ensures
            r == activation_status(*self, target, history@, cutoff).effective,
    {
        self.stake_activating_and_deactivating(target, history, cutoff).effective
    }
}

proof fn lemma_warmup_bounded(d: Delegation, h: Seq<(u64, StakeHistoryEntry)>, cutoff: u64, target: u64, prev_epoch: u64, prev: StakeHistoryEntry, effective: u64)
    requires
        effective <= d.stake,
    ensures
        warmup(d, h, cutoff, target, prev_epoch, prev, effective) <= d.stake,
    decreases target - prev_epoch,
{
    let cur = prev_epoch + 1;
    if prev.activating == 0 || effective >= d.stake {
    } else {
        let delta = stake_delta((d.stake - effective) as u64, prev.activating, prev.effective, cur, cutoff);
        if effective + delta >= d.stake {
        } else if cur >= target || cur >= d.deactivation_epoch {
        } else {
            match entry_for(h, cur as u64) {
                Some(e) => lemma_warmup_bounded(d, h, cutoff, target, cur as u64, e, (effective + delta) as u64),
                None => {},
            }
        }
    }
}

proof fn lemma_warmup_target_independent(d: Delegation, h: Seq<(u64, StakeHistoryEntry)>, cutoff: u64, t1: u64, t2: u64, prev_epoch: u64, prev: StakeHistoryEntry, effective: u64)
    requires
        t1 >= d.deactivation_epoch,
        t2 >= d.deactivation_epoch,
    ensures
        warmup(d, h, cutoff, t1, prev_epoch, prev, effective) == warmup(d, h, cutoff, t2, prev_epoch, prev, effective),
    decreases t1 - prev_epoch,
{
    let cur = prev_epoch + 1;
    if prev.activating == 0 || effective >= d.stake {
    } else {
        let delta = stake_delta((d.stake - effective) as u64, prev.activating, prev.effective, cur, cutoff);
        if effective + delta >= d.stake {
        } else if cur >= d.deactivation_epoch {
        } else {
            match entry_for(h, cur as u64) {
                Some(e) => lemma_warmup_target_independent(d, h, cutoff, t1, t2, cur as u64, e, (effective + delta) as u64),
                None => {},
            }
        }
    }
}

proof fn lemma_cooldown_at_most_start(d: Delegation, h: Seq<(u64, StakeHistoryEntry)>, cutoff: u64, target: u64, prev_epoch: u64, prev: StakeHistoryEntry, effective: u64)
    ensures
        cooldown(d, h, cutoff, target, prev_epoch, prev, effective) <= effective,
    decreases target - prev_epoch,
{
    let cur = prev_epoch + 1;
    if prev.deactivating == 0 || effective == 0 {
    } else {
        let delta = stake_delta(effective, prev.deactivating, prev.effective, cur, cutoff);
        if delta >= effective {
        } else if cur >= target {
        } else {
            match entry_for(h, cur as u64) {
                Some(e) => lemma_cooldown_at_most_start(d, h, cutoff, target, cur as u64, e, (effective - delta) as u64),
                None => {},
            }
        }
    }
}

proof fn lemma_cooldown_next_target(d: Delegation, h: Seq<(u64, StakeHistoryEntry)>, cutoff: u64, target: u64, prev_epoch: u64, prev: StakeHistoryEntry, effective: u64)
    requires
        target < u64::MAX,
    ensures
        cooldown(d, h, cutoff, (target + 1) as u64, prev_epoch, prev, effective) <= cooldown(d, h, cutoff, target, prev_epoch, prev, effective),
    decreases target - prev_epoch,
{
    let cur = prev_epoch + 1;
    if prev.deactivating == 0 || effective == 0 {
    } else {
        let delta = stake_delta(effective, prev.deactivating, prev.effective, cur, cutoff);
        if delta >= effective {
        } else if cur >= target + 1 {
        } else {
            match entry_for(h, cur as u64) {
                Some(e) => {
                    let next = (effective - delta) as u64;
                    if cur >= target {
                        lemma_cooldown_at_most_start(d, h, cutoff, (target + 1) as u64, cur as u64, e, next);
                    } else {
                        lemma_cooldown_next_target(d, h, cutoff, target, cur as u64, e, next);
                    }
                },
                None => {},
            }
        }
    }
}

/// Once an epoch has reached the deactivation epoch, the effective stake of a
/// delegation does not grow from one epoch to the next (for a delegation whose
/// deactivation was set after its activation, or that was active from the start).
pub proof fn lemma_cooldown_monotonic(d: Delegation, h: Seq<(u64, StakeHistoryEntry)>, cutoff: u64, t: u64)
    requires
        d.activation_epoch < d.deactivation_epoch || d.activation_epoch == u64::MAX,
        d.deactivation_epoch <= t < u64::MAX,
    ensures
        activation_status(d, (t + 1) as u64, h, cutoff).effective <= activation_status(d, t, h, cutoff).effective,
{
    let t1 = (t + 1) as u64;
    if d.activation_epoch != u64::MAX {
        match entry_for(h, d.activation_epoch) {
            Some(e) => {
                lemma_warmup_target_independent(d, h, cutoff, t, t1, d.activation_epoch, e, 0);
            },
            None => {},
        }
    }
    assert(stake_and_activating(d, t, h, cutoff).0 == stake_and_activating(d, t1, h, cutoff).0);
    let eff = stake_and_activating(d, t, h, cutoff).0;
    match entry_for(h, d.deactivation_epoch) {
        Some(e) => {
            if t == d.deactivation_epoch {
                lemma_cooldown_at_most_start(d, h, cutoff, t1, d.deactivation_epoch, e, eff);
            } else {
                lemma_cooldown_next_target(d, h, cutoff, t, d.deactivation_epoch, e, eff);
            }
        },
        None => {},
    }
}

} // verus!
