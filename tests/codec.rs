use stake_program::entrypoint::decode_instruction;
use stake_program::error::ProgramError;
use stake_program::instruction::{deserialize, parse_set_lockup_bytes, LockupCheckedArgs, StakeInstruction};
use stake_program::state::{
    deserialize_state, serialize_state, Authorized, Delegation, Lockup, Meta, Stake, StakeAuthorize, StakeFlags,
    StakeStateV2,
};

fn meta() -> Meta {
    Meta {
        rent_exempt_reserve: 2_282_880,
        authorized: Authorized { staker: [1u8; 32], withdrawer: [2u8; 32] },
        lockup: Lockup { unix_timestamp: -5, epoch: 9, custodian: [3u8; 32] },
    }
}

fn stake() -> Stake {
    Stake {
        delegation: Delegation {
            voter_pubkey: [4u8; 32],
            stake: 123,
            activation_epoch: 5,
            deactivation_epoch: u64::MAX,
            warmup_cooldown_rate_bits: 0x3FD0_0000_0000_0000,
        },
        credits_observed: 77,
    }
}

fn same(a: &StakeStateV2, b: &StakeStateV2) -> bool {
    serialize_state(a) == serialize_state(b)
}

#[test]
fn state_round_trip_all_variants() {
    let states = [
        StakeStateV2::Uninitialized,
        StakeStateV2::Initialized(meta()),
        StakeStateV2::Stake(meta(), stake(), StakeFlags { bits: 1 }),
        StakeStateV2::RewardsPool,
    ];
    for s in states.iter() {
        let bytes = serialize_state(s);
        assert_eq!(bytes.len(), 200);
        let back = deserialize_state(&bytes).unwrap();
        assert!(same(s, &back));
    }
}

#[test]
fn state_layout_offsets() {
    let bytes = serialize_state(&StakeStateV2::Stake(meta(), stake(), StakeFlags { bits: 1 }));
    assert_eq!(&bytes[0..4], &2u32.to_le_bytes());
    assert_eq!(&bytes[4..12], &2_282_880u64.to_le_bytes());
    assert_eq!(&bytes[12..44], &[1u8; 32]);
    assert_eq!(&bytes[76..84], &(-5i64).to_le_bytes());
    assert_eq!(&bytes[124..156], &[4u8; 32]);
    assert_eq!(&bytes[156..164], &123u64.to_le_bytes());
    assert_eq!(&bytes[188..196], &77u64.to_le_bytes());
    assert_eq!(bytes[196], 1);
}

#[test]
fn state_decode_rejects_bad_data() {
    let mut bytes = serialize_state(&StakeStateV2::Initialized(meta()));
    bytes[0] = 4;
    assert!(deserialize_state(&bytes).is_none());
    assert!(deserialize_state(&[0u8; 199]).is_none());
    // padding is not read
    let mut padded = serialize_state(&StakeStateV2::Initialized(meta()));
    padded[199] = 0xff;
    assert!(matches!(deserialize_state(&padded), Some(StakeStateV2::Initialized(_))));
}

fn with_u64(t: u32, v: u64) -> Vec<u8> {
    let mut d = t.to_le_bytes().to_vec();
    d.extend_from_slice(&v.to_le_bytes());
    d
}

#[test]
fn canonical_fixed_variants() {
    assert!(matches!(deserialize(&with_u64(3, 12345)), Ok(StakeInstruction::Split(12345))));
    assert!(matches!(deserialize(&with_u64(4, 777)), Ok(StakeInstruction::Withdraw(777))));
    assert!(matches!(deserialize(&with_u64(16, 42)), Ok(StakeInstruction::MoveStake(42))));
    assert!(matches!(deserialize(&with_u64(17, 42)), Ok(StakeInstruction::MoveLamports(42))));
    assert!(matches!(deserialize(&7u32.to_le_bytes()), Ok(StakeInstruction::Merge)));
    assert!(matches!(deserialize(&14u32.to_le_bytes()), Ok(StakeInstruction::DeactivateDelinquent)));
    assert!(matches!(deserialize(&15u32.to_le_bytes()), Ok(StakeInstruction::Redelegate)));
    let mut d = 10u32.to_le_bytes().to_vec();
    d.extend_from_slice(&1u32.to_le_bytes());
    assert!(matches!(deserialize(&d), Ok(StakeInstruction::AuthorizeChecked(StakeAuthorize::Withdrawer))));
}

#[test]
fn canonical_rejects_trailing_missing_and_unknown() {
    let mut d = with_u64(3, 1);
    d.push(0);
    assert!(matches!(deserialize(&d), Err(ProgramError::InvalidInstructionData)));
    assert!(matches!(deserialize(&with_u64(3, 1)[..11]), Err(ProgramError::InvalidInstructionData)));
    assert!(matches!(deserialize(&18u32.to_le_bytes()), Err(ProgramError::InvalidInstructionData)));
    let mut d = 10u32.to_le_bytes().to_vec();
    d.extend_from_slice(&2u32.to_le_bytes());
    assert!(matches!(deserialize(&d), Err(ProgramError::InvalidInstructionData)));
}

#[test]
fn canonical_set_lockup_options() {
    let mut d = 6u32.to_le_bytes().to_vec();
    d.push(1);
    d.extend_from_slice(&1234i64.to_le_bytes());
    d.push(0);
    d.push(1);
    d.extend_from_slice(&[8u8; 32]);
    match deserialize(&d) {
        Ok(StakeInstruction::SetLockup(a)) => {
            assert_eq!(a.unix_timestamp, Some(1234));
            assert_eq!(a.epoch, None);
            assert_eq!(a.custodian, Some([8u8; 32]));
        }
        other => panic!("unexpected {:?}", other),
    }
    let mut bad = 6u32.to_le_bytes().to_vec();
    bad.extend_from_slice(&[2, 0, 0]);
    assert!(deserialize(&bad).is_err());
}

#[test]
fn canonical_authorize_with_seed() {
    let mut d = 8u32.to_le_bytes().to_vec();
    d.extend_from_slice(&[5u8; 32]);
    d.extend_from_slice(&0u32.to_le_bytes());
    d.extend_from_slice(&3u64.to_le_bytes());
    d.extend_from_slice(b"abc");
    d.extend_from_slice(&[6u8; 32]);
    match deserialize(&d) {
        Ok(StakeInstruction::AuthorizeWithSeed(a)) => {
            assert_eq!(a.new_authorized_pubkey, [5u8; 32]);
            assert_eq!(a.stake_authorize, StakeAuthorize::Staker);
            assert_eq!(a.authority_seed, b"abc".to_vec());
            assert_eq!(a.authority_owner, [6u8; 32]);
        }
        other => panic!("unexpected {:?}", other),
    }
    // a seed longer than 32 bytes
    let mut long = 11u32.to_le_bytes().to_vec();
    long.extend_from_slice(&0u32.to_le_bytes());
    long.extend_from_slice(&33u64.to_le_bytes());
    long.extend_from_slice(&[b'x'; 33]);
    long.extend_from_slice(&[6u8; 32]);
    assert!(deserialize(&long).is_err());
}

#[test]
fn canonical_initialize() {
    let mut d = 0u32.to_le_bytes().to_vec();
    d.extend_from_slice(&[11u8; 32]);
    d.extend_from_slice(&[22u8; 32]);
    d.extend_from_slice(&(-1i64).to_le_bytes());
    d.extend_from_slice(&5u64.to_le_bytes());
    d.extend_from_slice(&[33u8; 32]);
    match deserialize(&d) {
        Ok(StakeInstruction::Initialize(a, l)) => {
            assert_eq!(a.staker, [11u8; 32]);
            assert_eq!(a.withdrawer, [22u8; 32]);
            assert_eq!(l.unix_timestamp, -1);
            assert_eq!(l.epoch, 5);
            assert_eq!(l.custodian, [33u8; 32]);
        }
        other => panic!("unexpected {:?}", other),
    }
}

#[test]
fn short_forms() {
    assert!(matches!(decode_instruction(&[]), Ok(StakeInstruction::DeactivateDelinquent)));
    assert!(matches!(decode_instruction(&[2]), Ok(StakeInstruction::DelegateStake)));
    assert!(matches!(decode_instruction(&[5, 0]), Ok(StakeInstruction::Deactivate)));
    assert!(matches!(decode_instruction(&[13]), Ok(StakeInstruction::GetMinimumDelegation)));
    assert!(matches!(decode_instruction(&[10]), Ok(StakeInstruction::AuthorizeChecked(StakeAuthorize::Staker))));
    match decode_instruction(&[11]) {
        Ok(StakeInstruction::AuthorizeCheckedWithSeed(a)) => {
            assert!(a.authority_seed.is_empty());
            assert_eq!(a.authority_owner, [0u8; 32]);
        }
        other => panic!("unexpected {:?}", other),
    }
    // the checked lockup short form needs its flag byte
    assert!(matches!(decode_instruction(&[12]), Err(ProgramError::InvalidInstructionData)));
    assert!(matches!(
        decode_instruction(&[12, 0]),
        Ok(StakeInstruction::SetLockupChecked(LockupCheckedArgs { unix_timestamp: None, epoch: None }))
    ));
    assert!(matches!(decode_instruction(&[12, 1]), Err(ProgramError::InvalidInstructionData)));
    assert!(matches!(decode_instruction(&[0]), Err(ProgramError::InvalidInstructionData)));
    assert!(matches!(decode_instruction(&[14]), Err(ProgramError::InvalidInstructionData)));
}

#[test]
fn compact_lockup_payloads() {
    let mut d = vec![0x07u8];
    d.extend_from_slice(&9i64.to_le_bytes());
    d.extend_from_slice(&3u64.to_le_bytes());
    d.extend_from_slice(&[4u8; 32]);
    let a = parse_set_lockup_bytes(&d, true).unwrap();
    assert_eq!(a.unix_timestamp, Some(9));
    assert_eq!(a.epoch, Some(3));
    assert_eq!(a.custodian, Some([4u8; 32]));
    assert!(parse_set_lockup_bytes(&d, false).is_err());
    assert!(parse_set_lockup_bytes(&[0x08], true).is_err());
    assert!(parse_set_lockup_bytes(&[], true).is_err());
    let mut e = vec![0x02u8];
    e.extend_from_slice(&56u64.to_le_bytes());
    let c = LockupCheckedArgs::parse(&e).unwrap();
    assert_eq!(c, LockupCheckedArgs { unix_timestamp: None, epoch: Some(56) });
    e.push(0);
    assert_eq!(LockupCheckedArgs::parse(&e), Err(ProgramError::InvalidInstructionData));
}

#[test]
fn single_byte_discriminant_is_invalid() {
    assert!(matches!(decode_instruction(&[12]), Err(ProgramError::InvalidInstructionData)));
}
