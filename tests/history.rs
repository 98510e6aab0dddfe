use stake_program::stake_history::{StakeHistory, StakeHistoryEntry};
use stake_program::error::ProgramError;
use stake_program::merge_kind::MergeKind;
use stake_program::state::{Authorized, Clock, Delegation, Lockup, Meta, Stake, StakeFlags, StakeStateV2};

fn delegation(stake: u64, activation_epoch: u64, deactivation_epoch: u64) -> Delegation {
    Delegation {
        voter_pubkey: [9u8; 32],
        stake,
        activation_epoch,
        deactivation_epoch,
        warmup_cooldown_rate_bits: 0,
    }
}

#[test]
fn entry_constructors() {
    assert_eq!(StakeHistoryEntry::with_effective(5), StakeHistoryEntry { effective: 5, activating: 0, deactivating: 0 });
    assert_eq!(
        StakeHistoryEntry::with_effective_and_activating(5, 6),
        StakeHistoryEntry { effective: 5, activating: 6, deactivating: 0 }
    );
    assert_eq!(StakeHistoryEntry::with_deactivating(7), StakeHistoryEntry { effective: 7, activating: 0, deactivating: 7 });
    assert_eq!(StakeHistoryEntry::size(), 24);
}

#[test]
fn history_push_get_and_full() {
    let mut h = StakeHistory::new();
    assert_eq!(h.get(0), None);
    for e in 0..512u64 {
        assert!(h.push(e, StakeHistoryEntry::with_effective(e)).is_ok());
    }
    assert_eq!(h.push(600, StakeHistoryEntry::with_effective(1)), Err("StakeHistory is full"));
    assert_eq!(h.len(), 512);
    assert_eq!(h.get(3), Some(StakeHistoryEntry::with_effective(3)));
    assert_eq!(h.get_entry(511), Some(StakeHistoryEntry::with_effective(511)));
    assert_eq!(h.get_entry(600), None);
}

#[test]
fn history_from_account_data() {
    let mut data = Vec::new();
    data.extend_from_slice(&2u64.to_le_bytes());
    for (epoch, eff, act, deact) in [(9u64, 100u64, 10u64, 1u64), (8, 90, 20, 2)] {
        data.extend_from_slice(&epoch.to_le_bytes());
        data.extend_from_slice(&eff.to_le_bytes());
        data.extend_from_slice(&act.to_le_bytes());
        data.extend_from_slice(&deact.to_le_bytes());
    }
    let h = StakeHistory::from_account_data(&data, 10);
    assert_eq!(h.len(), 2);
    assert_eq!(h.get_entry(8), Some(StakeHistoryEntry { effective: 90, activating: 20, deactivating: 2 }));
    // a count larger than the data holds gives an empty history
    let mut short = data.clone();
    short[0] = 3;
    assert_eq!(StakeHistory::from_account_data(&short, 10).len(), 0);
    assert_eq!(StakeHistory::from_account_data(&[1, 2], 10).len(), 0);
}

#[test]
fn bootstrap_stake_is_fully_effective() {
    let d = delegation(1000, u64::MAX, u64::MAX);
    let s = d.stake_activating_and_deactivating(5, &StakeHistory::new(), u64::MAX);
    assert_eq!(s, StakeHistoryEntry { effective: 1000, activating: 0, deactivating: 0 });
}

#[test]
fn activation_epoch_is_all_activating() {
    let d = delegation(1000, 5, u64::MAX);
    let s = d.stake_activating_and_deactivating(5, &StakeHistory::new(), u64::MAX);
    assert_eq!(s, StakeHistoryEntry { effective: 0, activating: 1000, deactivating: 0 });
    assert_eq!(
        d.stake_activating_and_deactivating(4, &StakeHistory::new(), u64::MAX),
        StakeHistoryEntry { effective: 0, activating: 0, deactivating: 0 }
    );
}

#[test]
fn warmup_follows_the_cluster_rate() {
    // cluster: 1000 effective, 500 activating at each epoch
    let mut h = StakeHistory::new();
    for e in 0..20u64 {
        h.push(e, StakeHistoryEntry { effective: 1000, activating: 500, deactivating: 0 }).unwrap();
    }
    let d = delegation(500, 1, u64::MAX);
    // before the cutoff: 9/100 of 1000 = 90 per epoch for the whole activating 500
    assert_eq!(d.stake_activating_and_deactivating(2, &h, u64::MAX), StakeHistoryEntry { effective: 90, activating: 410, deactivating: 0 });
    // second epoch: 410 * 90 / 500 = 73
    assert_eq!(d.stake(3, &h, u64::MAX), 163);
    // after the cutoff: 1/4 of 1000 = 250 per epoch
    assert_eq!(d.stake(2, &h, 0), 250);
    assert_eq!(d.stake(3, &h, 0), 375);
    // no history entry for the activation epoch: fully effective
    assert_eq!(d.stake(3, &StakeHistory::new(), u64::MAX), 500);
}

#[test]
fn cooldown_is_monotonic_and_reaches_zero() {
    let mut h = StakeHistory::new();
    for e in 0..30u64 {
        h.push(e, StakeHistoryEntry { effective: 1000, activating: 0, deactivating: 100 }).unwrap();
    }
    let d = delegation(100, u64::MAX, 3);
    let mut prev = d.stake(3, &h, u64::MAX);
    assert_eq!(prev, 100);
    assert_eq!(d.stake_activating_and_deactivating(3, &h, u64::MAX), StakeHistoryEntry { effective: 100, activating: 0, deactivating: 100 });
    // 100 * 90 / 100 = 90 leaves the first epoch
    assert_eq!(d.stake(4, &h, u64::MAX), 10);
    for t in 4..20u64 {
        let cur = d.stake(t, &h, u64::MAX);
        assert!(cur <= prev);
        prev = cur;
    }
    assert_eq!(prev, 0);
}

#[test]
fn classification_of_states() {
    let meta = Meta {
        rent_exempt_reserve: 10,
        authorized: Authorized { staker: [1u8; 32], withdrawer: [2u8; 32] },
        lockup: Lockup { unix_timestamp: 0, epoch: 0, custodian: [0u8; 32] },
    };
    let h = StakeHistory::new();
    let clock = Clock { epoch: 10, unix_timestamp: 0 };
    let stake = |act: u64, deact: u64| Stake { delegation: delegation(100, act, deact), credits_observed: 0 };
    let flags = StakeFlags { bits: 0 };
    let k = |s: &StakeStateV2| MergeKind::get_if_mergeable(s, 500, &clock, &h, u64::MAX);
    assert!(matches!(k(&StakeStateV2::Initialized(meta)), Ok(MergeKind::Inactive(_, 500, _))));
    assert!(matches!(k(&StakeStateV2::Stake(meta, stake(3, u64::MAX), flags)), Ok(MergeKind::FullyActive(_, _))));
    assert!(matches!(k(&StakeStateV2::Stake(meta, stake(10, u64::MAX), flags)), Ok(MergeKind::ActivationEpoch(_, _, _))));
    assert!(matches!(k(&StakeStateV2::Stake(meta, stake(3, 9), flags)), Ok(MergeKind::Inactive(_, _, _))));
    assert_eq!(k(&StakeStateV2::Stake(meta, stake(3, 10), flags)).err(), Some(ProgramError::Custom(0x14)));
    assert_eq!(k(&StakeStateV2::Uninitialized).err(), Some(ProgramError::Custom(0x14)));
    assert_eq!(k(&StakeStateV2::RewardsPool).err(), Some(ProgramError::Custom(0x14)));
}
