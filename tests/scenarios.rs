use stake_program::account::{clock_id, stake_history_id, stake_program_id, vote_program_id, AccountInfo, InvokeContext};
use stake_program::entrypoint::process_instruction;
use stake_program::error::ProgramError;
use stake_program::handlers::derive_with_seed;
use stake_program::stake_history::{StakeHistory, StakeHistoryEntry};
use stake_program::state::{
    deserialize_state, serialize_state, Authorized, Clock, Delegation, Lockup, Meta, Stake, StakeFlags, StakeStateV2,
};
use stake_program::MINIMUM_DELEGATION;

const RESERVE: u64 = 2_282_880;
const STAKER: [u8; 32] = [11u8; 32];
const WITHDRAWER: [u8; 32] = [22u8; 32];
const CUSTODIAN: [u8; 32] = [33u8; 32];
const VOTER: [u8; 32] = [44u8; 32];

fn ctx(epoch: u64) -> InvokeContext {
    InvokeContext {
        clock: Clock { epoch, unix_timestamp: 1_000 },
        minimum_balance: RESERVE,
        stake_history: StakeHistory::new(),
        epoch_rewards_active: false,
    }
}

fn program_id() -> [u8; 32] {
    stake_program_id()
}

fn meta() -> Meta {
    Meta {
        rent_exempt_reserve: RESERVE,
        authorized: Authorized { staker: STAKER, withdrawer: WITHDRAWER },
        lockup: Lockup { unix_timestamp: 0, epoch: 0, custodian: CUSTODIAN },
    }
}

fn stake_of(voter: [u8; 32], amount: u64, activation: u64, deactivation: u64, credits: u64) -> Stake {
    Stake {
        delegation: Delegation {
            voter_pubkey: voter,
            stake: amount,
            activation_epoch: activation,
            deactivation_epoch: deactivation,
            warmup_cooldown_rate_bits: 0,
        },
        credits_observed: credits,
    }
}

fn stake_account(key: u8, lamports: u64, state: &StakeStateV2) -> AccountInfo {
    AccountInfo {
        key: [key; 32],
        owner: stake_program_id(),
        lamports,
        data: serialize_state(state),
        is_signer: false,
        is_writable: true,
    }
}

fn plain(key: [u8; 32], is_signer: bool) -> AccountInfo {
    AccountInfo { key, owner: [0u8; 32], lamports: 0, data: Vec::new(), is_signer, is_writable: false }
}

fn writable(key: [u8; 32], lamports: u64) -> AccountInfo {
    AccountInfo { key, owner: [0u8; 32], lamports, data: Vec::new(), is_signer: false, is_writable: true }
}

fn vote_account(key: [u8; 32], credits: &[(u64, u64, u64)]) -> AccountInfo {
    let mut data = Vec::new();
    data.extend_from_slice(&(credits.len() as u32).to_le_bytes());
    for &(e, c, p) in credits {
        data.extend_from_slice(&e.to_le_bytes());
        data.extend_from_slice(&c.to_le_bytes());
        data.extend_from_slice(&p.to_le_bytes());
    }
    AccountInfo { key, owner: vote_program_id(), lamports: 1, data, is_signer: false, is_writable: false }
}

fn state(a: &AccountInfo) -> StakeStateV2 {
    deserialize_state(&a.data).unwrap()
}

fn tag(t: u32) -> Vec<u8> {
    t.to_le_bytes().to_vec()
}

fn with_u64(t: u32, v: u64) -> Vec<u8> {
    let mut d = tag(t);
    d.extend_from_slice(&v.to_le_bytes());
    d
}

fn run(accounts: &mut Vec<AccountInfo>, data: &[u8], c: &InvokeContext) -> Result<Option<Vec<u8>>, ProgramError> {
    process_instruction(&program_id(), accounts, data, c)
}

fn custom(code: u32) -> ProgramError {
    ProgramError::Custom(code)
}

#[test]
fn initialize_then_delegate() {
    let c = ctx(7);
    let mut accounts = vec![
        stake_account(1, RESERVE + 2 * MINIMUM_DELEGATION, &StakeStateV2::Uninitialized),
        plain([5u8; 32], false),
    ];
    let mut data = tag(0);
    data.extend_from_slice(&STAKER);
    data.extend_from_slice(&WITHDRAWER);
    data.extend_from_slice(&0i64.to_le_bytes());
    data.extend_from_slice(&0u64.to_le_bytes());
    data.extend_from_slice(&[0u8; 32]);
    assert_eq!(run(&mut accounts, &data, &c), Ok(None));
    match state(&accounts[0]) {
        StakeStateV2::Initialized(m) => {
            assert_eq!(m.rent_exempt_reserve, RESERVE);
            assert_eq!(m.authorized.staker, STAKER);
            assert_eq!(m.authorized.withdrawer, WITHDRAWER);
        }
        other => panic!("unexpected {:?}", other),
    }
    let stake_acc = accounts.remove(0);
    let mut accounts = vec![
        stake_acc,
        vote_account(VOTER, &[(6, 50, 40)]),
        plain(clock_id(), false),
        plain(stake_history_id(), false),
        plain(STAKER, true),
    ];
    assert_eq!(run(&mut accounts, &tag(2), &c), Ok(None));
    match state(&accounts[0]) {
        StakeStateV2::Stake(_, s, _) => {
            assert_eq!(s.delegation.voter_pubkey, VOTER);
            assert_eq!(s.delegation.stake, 2 * MINIMUM_DELEGATION);
            assert_eq!(s.delegation.activation_epoch, 7);
            assert_eq!(s.delegation.deactivation_epoch, u64::MAX);
            assert_eq!(s.credits_observed, 50);
        }
        other => panic!("unexpected {:?}", other),
    }
}

#[test]
fn initialize_needs_the_reserve() {
    let c = ctx(7);
    let mut accounts = vec![stake_account(1, RESERVE - 1, &StakeStateV2::Uninitialized), plain([5u8; 32], false)];
    let mut data = tag(0);
    data.extend_from_slice(&[0u8; 112]);
    assert_eq!(run(&mut accounts, &data, &c), Err(ProgramError::InsufficientFunds));
    assert!(matches!(state(&accounts[0]), StakeStateV2::Uninitialized));
}

#[test]
fn delegate_below_minimum_is_refused() {
    let c = ctx(7);
    let mut accounts = vec![
        stake_account(1, RESERVE + MINIMUM_DELEGATION - 1, &StakeStateV2::Initialized(meta())),
        vote_account(VOTER, &[]),
        plain(clock_id(), false),
        plain(stake_history_id(), false),
        plain(STAKER, true),
    ];
    assert_eq!(run(&mut accounts, &tag(2), &c), Err(custom(0x12)));
}

#[test]
fn set_lockup_checked_not_in_force() {
    let c = ctx(1);
    let st = StakeStateV2::Initialized(meta());
    let mut data = tag(12);
    data.push(0);
    data.push(1);
    data.extend_from_slice(&3u64.to_le_bytes());
    let mut accounts = vec![stake_account(1, RESERVE, &st), plain(WITHDRAWER, true)];
    assert_eq!(run(&mut accounts, &data, &c), Ok(None));
    match state(&accounts[0]) {
        StakeStateV2::Initialized(m) => assert_eq!(m.lockup.epoch, 3),
        other => panic!("unexpected {:?}", other),
    }
    let mut accounts = vec![stake_account(1, RESERVE, &st), plain(CUSTODIAN, true)];
    assert_eq!(run(&mut accounts, &data, &c), Err(ProgramError::MissingRequiredSignature));
}

#[test]
fn set_lockup_in_force_needs_custodian() {
    let c = ctx(1);
    let mut m = meta();
    m.lockup.epoch = 10;
    let st = StakeStateV2::Initialized(m);
    let mut data = tag(6);
    data.push(0);
    data.push(1);
    data.extend_from_slice(&20u64.to_le_bytes());
    data.push(0);
    let mut accounts = vec![stake_account(1, RESERVE, &st), plain(WITHDRAWER, true)];
    assert_eq!(run(&mut accounts, &data, &c), Err(ProgramError::MissingRequiredSignature));
    let mut accounts = vec![stake_account(1, RESERVE, &st), plain(CUSTODIAN, true)];
    assert_eq!(run(&mut accounts, &data, &c), Ok(None));
    match state(&accounts[0]) {
        StakeStateV2::Initialized(m) => assert_eq!(m.lockup.epoch, 20),
        other => panic!("unexpected {:?}", other),
    }
}

#[test]
fn withdraw_everything_after_cooldown() {
    let mut c = ctx(20);
    for e in 0..30u64 {
        c.stake_history.push(e, StakeHistoryEntry { effective: 1000, activating: 0, deactivating: 100 }).unwrap();
    }
    let st = StakeStateV2::Stake(meta(), stake_of(VOTER, 100, 0, 1, 0), StakeFlags { bits: 0 });
    let mut accounts = vec![
        stake_account(1, RESERVE + 100, &st),
        writable([9u8; 32], 0),
        plain(clock_id(), false),
        plain(stake_history_id(), false),
        plain(WITHDRAWER, true),
    ];
    assert_eq!(run(&mut accounts, &with_u64(4, RESERVE + 100), &c), Ok(None));
    assert!(matches!(state(&accounts[0]), StakeStateV2::Uninitialized));
    assert_eq!(accounts[0].lamports, 0);
    assert_eq!(accounts[1].lamports, RESERVE + 100);
}

#[test]
fn withdraw_while_staked_is_refused() {
    let c = ctx(20);
    let st = StakeStateV2::Stake(meta(), stake_of(VOTER, 100, u64::MAX, u64::MAX, 0), StakeFlags { bits: 0 });
    let mut accounts = vec![
        stake_account(1, RESERVE + 100, &st),
        writable([9u8; 32], 0),
        plain(clock_id(), false),
        plain(stake_history_id(), false),
        plain(WITHDRAWER, true),
    ];
    assert_eq!(run(&mut accounts, &with_u64(4, RESERVE + 100), &c), Err(ProgramError::InsufficientFunds));
    assert_eq!(run(&mut accounts, &with_u64(4, 1), &c), Err(ProgramError::InsufficientFunds));
}

#[test]
fn withdraw_under_lockup() {
    let c = ctx(1);
    let mut m = meta();
    m.lockup.epoch = 5;
    let st = StakeStateV2::Initialized(m);
    let mut accounts = vec![
        stake_account(1, RESERVE + 100, &st),
        writable([9u8; 32], 0),
        plain(clock_id(), false),
        plain(stake_history_id(), false),
        plain(WITHDRAWER, true),
    ];
    assert_eq!(run(&mut accounts, &with_u64(4, 50), &c), Err(custom(0x15)));
    accounts.push(plain(CUSTODIAN, true));
    assert_eq!(run(&mut accounts, &with_u64(4, 50), &c), Ok(None));
    assert_eq!(accounts[0].lamports, RESERVE + 50);
    assert_eq!(accounts[1].lamports, 50);
}

#[test]
fn merge_two_activating_stakes() {
    let c = ctx(5);
    let dst = StakeStateV2::Stake(meta(), stake_of(VOTER, 40, 5, u64::MAX, 10), StakeFlags { bits: 0 });
    let src = StakeStateV2::Stake(meta(), stake_of(VOTER, 60, 5, u64::MAX, 20), StakeFlags { bits: 1 });
    let mut accounts = vec![
        stake_account(1, RESERVE + 40, &dst),
        stake_account(2, RESERVE + 60, &src),
        plain(clock_id(), false),
        plain(stake_history_id(), false),
        plain(STAKER, true),
    ];
    assert_eq!(run(&mut accounts, &tag(7), &c), Ok(None));
    match state(&accounts[0]) {
        StakeStateV2::Stake(_, s, f) => {
            assert_eq!(s.delegation.stake, 100);
            // ceil((40 * 10 + 60 * 20) / 100) = ceil(16.0) = 16
            assert_eq!(s.credits_observed, 16);
            assert_eq!(f.bits, 1);
        }
        other => panic!("unexpected {:?}", other),
    }
    assert!(matches!(state(&accounts[1]), StakeStateV2::Uninitialized));
    assert_eq!(accounts[1].lamports, 0);
    assert_eq!(accounts[0].lamports, 2 * RESERVE + 100);
}

#[test]
fn merge_credits_round_up() {
    let c = ctx(5);
    let dst = StakeStateV2::Stake(meta(), stake_of(VOTER, 40, 5, u64::MAX, 10), StakeFlags { bits: 0 });
    let src = StakeStateV2::Stake(meta(), stake_of(VOTER, 60, 5, u64::MAX, 21), StakeFlags { bits: 0 });
    let mut accounts = vec![
        stake_account(1, RESERVE + 40, &dst),
        stake_account(2, RESERVE + 60, &src),
        plain(clock_id(), false),
        plain(stake_history_id(), false),
        plain(STAKER, true),
    ];
    assert_eq!(run(&mut accounts, &tag(7), &c), Ok(None));
    match state(&accounts[0]) {
        // (400 + 1260 + 99) / 100 = 17
        StakeStateV2::Stake(_, s, _) => assert_eq!(s.credits_observed, 17),
        other => panic!("unexpected {:?}", other),
    }
}

#[test]
fn merge_of_different_voters_is_refused() {
    let c = ctx(5);
    let dst = StakeStateV2::Stake(meta(), stake_of(VOTER, 40, 5, u64::MAX, 10), StakeFlags { bits: 0 });
    let src = StakeStateV2::Stake(meta(), stake_of([45u8; 32], 60, 5, u64::MAX, 20), StakeFlags { bits: 0 });
    let mut accounts = vec![
        stake_account(1, RESERVE + 40, &dst),
        stake_account(2, RESERVE + 60, &src),
        plain(clock_id(), false),
        plain(stake_history_id(), false),
        plain(STAKER, true),
    ];
    assert_eq!(run(&mut accounts, &tag(7), &c), Err(custom(0x14)));
    assert_eq!(accounts[1].lamports, RESERVE + 60);
}

#[test]
fn deactivate_delinquent_positive() {
    let c = ctx(100);
    let delinquent = [50u8; 32];
    let st = StakeStateV2::Stake(meta(), stake_of(delinquent, MINIMUM_DELEGATION, 3, u64::MAX, 0), StakeFlags { bits: 0 });
    let mut accounts = vec![
        stake_account(1, RESERVE + MINIMUM_DELEGATION, &st),
        vote_account(delinquent, &[(93, 5, 4), (94, 6, 5)]),
        vote_account([51u8; 32], &[(96, 1, 0), (97, 2, 1), (98, 3, 2), (99, 4, 3), (100, 5, 4)]),
    ];
    assert_eq!(run(&mut accounts, &tag(14), &c), Ok(None));
    match state(&accounts[0]) {
        StakeStateV2::Stake(_, s, _) => assert_eq!(s.delegation.deactivation_epoch, 100),
        other => panic!("unexpected {:?}", other),
    }
}

#[test]
fn deactivate_delinquent_errors() {
    let c = ctx(100);
    let delinquent = [50u8; 32];
    let st = StakeStateV2::Stake(meta(), stake_of(delinquent, MINIMUM_DELEGATION, 3, u64::MAX, 0), StakeFlags { bits: 0 });
    // the reference misses epoch 98
    let mut accounts = vec![
        stake_account(1, RESERVE + MINIMUM_DELEGATION, &st),
        vote_account(delinquent, &[(94, 6, 5)]),
        vote_account([51u8; 32], &[(95, 1, 0), (96, 2, 1), (97, 3, 2), (99, 4, 3), (100, 5, 4)]),
    ];
    assert_eq!(run(&mut accounts, &tag(14), &c), Err(custom(0x16)));
    // the delinquent voted at 97
    let reference = vote_account([51u8; 32], &[(96, 1, 0), (97, 2, 1), (98, 3, 2), (99, 4, 3), (100, 5, 4)]);
    let mut accounts = vec![
        stake_account(1, RESERVE + MINIMUM_DELEGATION, &st),
        vote_account(delinquent, &[(97, 6, 5)]),
        reference,
    ];
    assert_eq!(run(&mut accounts, &tag(14), &c), Err(custom(0x17)));
    // the stake is delegated elsewhere
    let other = StakeStateV2::Stake(meta(), stake_of(VOTER, MINIMUM_DELEGATION, 3, u64::MAX, 0), StakeFlags { bits: 0 });
    let mut accounts = vec![
        stake_account(1, RESERVE + MINIMUM_DELEGATION, &other),
        vote_account(delinquent, &[(94, 6, 5)]),
        vote_account([51u8; 32], &[(96, 1, 0), (97, 2, 1), (98, 3, 2), (99, 4, 3), (100, 5, 4)]),
    ];
    assert_eq!(run(&mut accounts, &tag(14), &c), Err(custom(0x13)));
}

#[test]
fn split_at_the_exact_boundary() {
    let c = ctx(5);
    let st = StakeStateV2::Stake(meta(), stake_of(VOTER, 2 * MINIMUM_DELEGATION, 5, u64::MAX, 0), StakeFlags { bits: 0 });
    let mut accounts = vec![
        stake_account(1, RESERVE + 2 * MINIMUM_DELEGATION, &st),
        stake_account(2, 0, &StakeStateV2::Uninitialized),
        plain(STAKER, true),
    ];
    assert_eq!(run(&mut accounts, &with_u64(3, MINIMUM_DELEGATION + RESERVE), &c), Ok(None));
    for i in 0..2 {
        match state(&accounts[i]) {
            StakeStateV2::Stake(m, s, _) => {
                assert_eq!(s.delegation.stake, MINIMUM_DELEGATION);
                assert!(accounts[i].lamports >= m.rent_exempt_reserve);
            }
            other => panic!("unexpected {:?}", other),
        }
    }
    assert_eq!(accounts[0].lamports + accounts[1].lamports, RESERVE + 2 * MINIMUM_DELEGATION);
}

#[test]
fn split_leaving_too_little_is_refused() {
    let c = ctx(5);
    let st = StakeStateV2::Stake(meta(), stake_of(VOTER, 2 * MINIMUM_DELEGATION, 5, u64::MAX, 0), StakeFlags { bits: 0 });
    let mut accounts = vec![
        stake_account(1, RESERVE + 2 * MINIMUM_DELEGATION, &st),
        stake_account(2, 0, &StakeStateV2::Uninitialized),
        plain(STAKER, true),
    ];
    assert_eq!(run(&mut accounts, &with_u64(3, MINIMUM_DELEGATION + RESERVE + 1), &c), Err(custom(0x12)));
    assert_eq!(run(&mut accounts, &with_u64(3, 3 * MINIMUM_DELEGATION + RESERVE), &c), Err(ProgramError::InsufficientFunds));
}

#[test]
fn redelegate_rescinds_or_refuses() {
    let c = ctx(8);
    let st = StakeStateV2::Stake(meta(), stake_of(VOTER, MINIMUM_DELEGATION, 2, 8, 0), StakeFlags { bits: 0 });
    let accounts_for = |vote: [u8; 32]| {
        vec![
            stake_account(1, RESERVE + MINIMUM_DELEGATION, &st),
            vote_account(vote, &[]),
            plain(clock_id(), false),
            plain(stake_history_id(), false),
            plain(STAKER, true),
        ]
    };
    let mut accounts = accounts_for(VOTER);
    assert_eq!(run(&mut accounts, &tag(2), &c), Ok(None));
    match state(&accounts[0]) {
        StakeStateV2::Stake(_, s, _) => {
            assert_eq!(s.delegation.deactivation_epoch, u64::MAX);
            assert_eq!(s.delegation.activation_epoch, 2);
        }
        other => panic!("unexpected {:?}", other),
    }
    let mut accounts = accounts_for([46u8; 32]);
    assert_eq!(run(&mut accounts, &tag(2), &c), Err(custom(0x18)));
}

#[test]
fn deactivate_twice_is_refused() {
    let c = ctx(9);
    let st = StakeStateV2::Stake(meta(), stake_of(VOTER, MINIMUM_DELEGATION, 2, u64::MAX, 0), StakeFlags { bits: 0 });
    let mut accounts = vec![stake_account(1, RESERVE + MINIMUM_DELEGATION, &st), plain(clock_id(), false), plain(STAKER, true)];
    assert_eq!(run(&mut accounts, &tag(5), &c), Ok(None));
    match state(&accounts[0]) {
        StakeStateV2::Stake(_, s, _) => assert_eq!(s.delegation.deactivation_epoch, 9),
        other => panic!("unexpected {:?}", other),
    }
    assert_eq!(run(&mut accounts, &tag(5), &c), Err(custom(0x11)));
}

#[test]
fn authorize_rotates_one_role() {
    let c = ctx(9);
    let st = StakeStateV2::Stake(meta(), stake_of(VOTER, MINIMUM_DELEGATION, 2, u64::MAX, 7), StakeFlags { bits: 1 });
    let new_key = [77u8; 32];
    let mut data = tag(1);
    data.extend_from_slice(&new_key);
    data.extend_from_slice(&0u32.to_le_bytes());
    let mut accounts = vec![stake_account(1, RESERVE + MINIMUM_DELEGATION, &st), plain(clock_id(), false), plain(WITHDRAWER, true)];
    assert_eq!(run(&mut accounts, &data, &c), Ok(None));
    match state(&accounts[0]) {
        StakeStateV2::Stake(m, s, f) => {
            assert_eq!(m.authorized.staker, new_key);
            assert_eq!(m.authorized.withdrawer, WITHDRAWER);
            assert_eq!(m.lockup.custodian, CUSTODIAN);
            assert_eq!(s.credits_observed, 7);
            assert_eq!(f.bits, 1);
        }
        other => panic!("unexpected {:?}", other),
    }
    // the withdrawer role needs the withdrawer
    let mut data = tag(1);
    data.extend_from_slice(&new_key);
    data.extend_from_slice(&1u32.to_le_bytes());
    let mut accounts = vec![stake_account(1, RESERVE, &StakeStateV2::Initialized(meta())), plain(clock_id(), false), plain(STAKER, true)];
    assert_eq!(run(&mut accounts, &data, &c), Err(ProgramError::MissingRequiredSignature));
}

#[test]
fn move_lamports_between_inactive_accounts() {
    let c = ctx(9);
    let mut accounts = vec![
        stake_account(1, RESERVE + 500, &StakeStateV2::Initialized(meta())),
        stake_account(2, RESERVE, &StakeStateV2::Initialized(meta())),
        plain(STAKER, true),
    ];
    assert_eq!(run(&mut accounts, &with_u64(17, 501), &c), Err(ProgramError::InvalidArgument));
    assert_eq!(run(&mut accounts, &with_u64(17, 500), &c), Ok(None));
    assert_eq!(accounts[0].lamports, RESERVE);
    assert_eq!(accounts[1].lamports, RESERVE + 500);
    assert_eq!(run(&mut accounts, &with_u64(17, 0), &c), Err(ProgramError::InvalidArgument));
}

#[test]
fn move_stake_to_inactive_account() {
    let c = ctx(9);
    let st = StakeStateV2::Stake(meta(), stake_of(VOTER, 3 * MINIMUM_DELEGATION, 2, u64::MAX, 7), StakeFlags { bits: 0 });
    let mut accounts = vec![
        stake_account(1, RESERVE + 3 * MINIMUM_DELEGATION, &st),
        stake_account(2, RESERVE, &StakeStateV2::Initialized(meta())),
        plain(STAKER, true),
    ];
    assert_eq!(run(&mut accounts, &with_u64(16, MINIMUM_DELEGATION), &c), Ok(None));
    match (state(&accounts[0]), state(&accounts[1])) {
        (StakeStateV2::Stake(_, a, _), StakeStateV2::Stake(_, b, _)) => {
            assert_eq!(a.delegation.stake, 2 * MINIMUM_DELEGATION);
            assert_eq!(b.delegation.stake, MINIMUM_DELEGATION);
            assert_eq!(b.delegation.voter_pubkey, VOTER);
            assert_eq!(b.credits_observed, 7);
        }
        other => panic!("unexpected {:?}", other),
    }
    assert_eq!(accounts[0].lamports + accounts[1].lamports, 2 * RESERVE + 3 * MINIMUM_DELEGATION);
}

#[test]
fn get_minimum_delegation_returns_le_bytes() {
    let mut c = ctx(1);
    c.epoch_rewards_active = true;
    let mut accounts = Vec::new();
    let r = run(&mut accounts, &tag(13), &c).unwrap().unwrap();
    assert_eq!(r, MINIMUM_DELEGATION.to_le_bytes().to_vec());
    assert_eq!(run(&mut accounts, &tag(5), &c), Err(custom(0x19)));
}

#[test]
fn wrong_program_id_is_refused() {
    let c = ctx(1);
    let mut accounts = Vec::new();
    assert_eq!(process_instruction(&[1u8; 32], &mut accounts, &tag(13), &c), Err(ProgramError::IncorrectProgramId));
}

#[test]
fn authorize_with_seed_derived_staker() {
    let c = ctx(9);
    let base = [60u8; 32];
    let owner = [61u8; 32];
    let derived = derive_with_seed(&base, b"seed-for-staker", &owner).unwrap();
    let mut m = meta();
    m.authorized.staker = derived;
    let st = StakeStateV2::Initialized(m);
    let new_key = [62u8; 32];
    let mut data = tag(8);
    data.extend_from_slice(&new_key);
    data.extend_from_slice(&0u32.to_le_bytes());
    data.extend_from_slice(&15u64.to_le_bytes());
    data.extend_from_slice(b"seed-for-staker");
    data.extend_from_slice(&owner);
    // the base must sign
    let mut accounts = vec![stake_account(1, RESERVE, &st), plain(base, false), plain(clock_id(), false)];
    assert_eq!(run(&mut accounts, &data, &c), Err(ProgramError::MissingRequiredSignature));
    // a wrong seed derives another address
    let mut wrong = data.clone();
    let n = wrong.len();
    wrong[n - 33] = b'X';
    let mut accounts = vec![stake_account(1, RESERVE, &st), plain(base, true), plain(clock_id(), false)];
    assert_eq!(run(&mut accounts, &wrong, &c), Err(ProgramError::MissingRequiredSignature));
    assert_eq!(run(&mut accounts, &data, &c), Ok(None));
    match state(&accounts[0]) {
        StakeStateV2::Initialized(m) => {
            assert_eq!(m.authorized.staker, new_key);
            assert_eq!(m.authorized.withdrawer, WITHDRAWER);
        }
        other => panic!("unexpected {:?}", other),
    }
}

#[test]
fn authorize_checked_with_seed_needs_new_signer() {
    let c = ctx(9);
    let base = [60u8; 32];
    let owner = [61u8; 32];
    let derived = derive_with_seed(&base, b"abcd", &owner).unwrap();
    let mut m = meta();
    m.authorized.withdrawer = derived;
    let st = StakeStateV2::Initialized(m);
    let mut data = tag(11);
    data.extend_from_slice(&1u32.to_le_bytes());
    data.extend_from_slice(&4u64.to_le_bytes());
    data.extend_from_slice(b"abcd");
    data.extend_from_slice(&owner);
    let new_key = [63u8; 32];
    let mut accounts =
        vec![stake_account(1, RESERVE, &st), plain(base, true), plain(clock_id(), false), plain(new_key, false)];
    assert_eq!(run(&mut accounts, &data, &c), Err(ProgramError::MissingRequiredSignature));
    accounts[3].is_signer = true;
    assert_eq!(run(&mut accounts, &data, &c), Ok(None));
    match state(&accounts[0]) {
        StakeStateV2::Initialized(m) => {
            assert_eq!(m.authorized.withdrawer, new_key);
            assert_eq!(m.authorized.staker, STAKER);
        }
        other => panic!("unexpected {:?}", other),
    }
}

#[test]
fn seed_authorize_does_not_count_the_custodian_as_authority() {
    let c = ctx(9);
    let base = [60u8; 32];
    let owner = [61u8; 32];
    // the custodian holds the staker's key, but the derived address is neither authority
    let mut m = meta();
    m.lockup.custodian = STAKER;
    let st = StakeStateV2::Initialized(m);
    let mut data = tag(8);
    data.extend_from_slice(&[62u8; 32]);
    data.extend_from_slice(&0u32.to_le_bytes());
    data.extend_from_slice(&4u64.to_le_bytes());
    data.extend_from_slice(b"seed");
    data.extend_from_slice(&owner);
    let mut accounts = vec![stake_account(1, RESERVE, &st), plain(base, true), plain(clock_id(), false), plain(STAKER, true)];
    assert_eq!(run(&mut accounts, &data, &c), Err(ProgramError::MissingRequiredSignature));
    assert!(matches!(state(&accounts[0]), StakeStateV2::Initialized(_)));
}

#[test]
fn rescind_below_minimum_is_refused() {
    let c = ctx(8);
    let st = StakeStateV2::Stake(meta(), stake_of(VOTER, MINIMUM_DELEGATION - 1, 2, 8, 0), StakeFlags { bits: 0 });
    let mut accounts = vec![
        stake_account(1, RESERVE + MINIMUM_DELEGATION, &st),
        vote_account(VOTER, &[]),
        plain(clock_id(), false),
        plain(stake_history_id(), false),
        plain(STAKER, true),
    ];
    assert_eq!(run(&mut accounts, &tag(2), &c), Err(custom(0x12)));
}

#[test]
fn split_of_active_stake_into_unfunded_destination() {
    let c = ctx(9);
    let st = StakeStateV2::Stake(meta(), stake_of(VOTER, 3 * MINIMUM_DELEGATION, u64::MAX, u64::MAX, 0), StakeFlags { bits: 0 });
    let mut accounts = vec![
        stake_account(1, RESERVE + 3 * MINIMUM_DELEGATION, &st),
        stake_account(2, 0, &StakeStateV2::Uninitialized),
        plain(STAKER, true),
    ];
    assert_eq!(run(&mut accounts, &with_u64(3, RESERVE + MINIMUM_DELEGATION), &c), Ok(None));
    match (state(&accounts[0]), state(&accounts[1])) {
        (StakeStateV2::Stake(_, a, _), StakeStateV2::Stake(_, b, _)) => {
            assert_eq!(a.delegation.stake, 2 * MINIMUM_DELEGATION);
            assert_eq!(b.delegation.stake, MINIMUM_DELEGATION);
        }
        other => panic!("unexpected {:?}", other),
    }
}

#[test]
fn move_lamports_from_activating_source_is_refused() {
    let c = ctx(9);
    let st = StakeStateV2::Stake(meta(), stake_of(VOTER, MINIMUM_DELEGATION, 9, u64::MAX, 0), StakeFlags { bits: 0 });
    let mut accounts = vec![
        stake_account(1, RESERVE + MINIMUM_DELEGATION + 10, &st),
        stake_account(2, RESERVE, &StakeStateV2::Initialized(meta())),
        plain(STAKER, true),
    ];
    assert_eq!(run(&mut accounts, &with_u64(17, 5), &c), Err(custom(0x14)));
}

#[test]
fn merge_of_the_same_account_is_refused() {
    let c = ctx(9);
    let a = stake_account(1, RESERVE, &StakeStateV2::Initialized(meta()));
    let b = stake_account(1, RESERVE, &StakeStateV2::Initialized(meta()));
    let mut accounts = vec![a, b, plain(clock_id(), false), plain(stake_history_id(), false), plain(STAKER, true)];
    assert_eq!(run(&mut accounts, &tag(7), &c), Err(ProgramError::InvalidArgument));
}
