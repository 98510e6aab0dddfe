use stake_program::handlers::derive_with_seed;
use stake_program::error::ProgramError;
use stake_program::sha256::hash;

fn hex(b: &[u8]) -> String {
    b.iter().map(|x| format!("{:02x}", x)).collect()
}

#[test]
fn sha256_of_abc() {
    assert_eq!(hex(&hash(b"abc")), "ba7816bf8f01cfea414140de5dae2223b00361a396177a9cb410ff61f20015ad");
}

#[test]
fn sha256_of_empty() {
    assert_eq!(hex(&hash(b"")), "e3b0c44298fc1c149afbf4c8996fb92427ae41e4649b934ca495991b7852b855");
}

#[test]
fn sha256_of_two_blocks() {
    let m: Vec<u8> = (0u8..100).collect();
    assert_eq!(hex(&hash(&m)), "bce0aff19cf5aa6a7469a30d61d04e4376e4bbf6381052ee9e7f33925c954d52");
}

#[test]
fn derived_address_is_digest_of_base_seed_owner() {
    let base: [u8; 32] = core::array::from_fn(|i| i as u8);
    let owner = [7u8; 32];
    let k = derive_with_seed(&base, b"seed", &owner).unwrap();
    assert_eq!(hex(&k), "27334e74c857977d5285e9e2c7fa26a3d5d180368787c9061a3ffea753d53b45");
}

#[test]
fn derived_address_rejects_long_seed() {
    let base = [1u8; 32];
    let owner = [2u8; 32];
    let long = [b'a'; 33];
    assert_eq!(derive_with_seed(&base, &long, &owner), Err(ProgramError::InvalidInstructionData));
    let max = [b'a'; 32];
    assert!(derive_with_seed(&base, &max, &owner).is_ok());
}
