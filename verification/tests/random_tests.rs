use dolphin_sparta::random::{CommitmentInfo, SeedInfo};
use sha2::{Digest, Sha256};

fn expected_commitment(seed: u64) -> [u64; 2] {
    let d = Sha256::digest(seed.to_le_bytes());
    [
        u64::from_le_bytes(d[0..8].try_into().unwrap()),
        u64::from_le_bytes(d[8..16].try_into().unwrap()),
    ]
}

#[test]
fn commitment_info_accessors() {
    let c = CommitmentInfo::new(3, 4);
    assert_eq!(c.get_commitment(), [3, 4]);
}

#[test]
fn generated_commitment_is_the_seed_hash() {
    let s = SeedInfo::generate_seed_commitment();
    assert_eq!(s.seed, 12345);
    assert_eq!(s.commitment.get_commitment(), expected_commitment(12345));
    assert_ne!(s.commitment.get_commitment(), [0, 0]);
}

#[test]
fn generated_commitment_verifies() {
    let s = SeedInfo::generate_seed_commitment();
    assert!(s.verify_seed());
}

#[test]
fn any_committed_seed_verifies() {
    for seed in [0u64, 1, 77, u64::MAX] {
        let c = expected_commitment(seed);
        let s = SeedInfo { seed, commitment: CommitmentInfo::new(c[0], c[1]) };
        assert!(s.verify_seed());
    }
}

#[test]
fn wrong_commitment_fails() {
    let mut s = SeedInfo::generate_seed_commitment();
    s.seed = 12346;
    assert!(!s.verify_seed());
    let mut s = SeedInfo::generate_seed_commitment();
    s.commitment.0[1] ^= 1;
    assert!(!s.verify_seed());
}

#[test]
fn commitment_from_digest_reads_little_endian_words() {
    let mut digest = [0u8; 32];
    digest[0] = 1;
    digest[9] = 2;
    digest[16] = 0xff;
    let c = SeedInfo::commitment_from_digest(&digest);
    assert_eq!(c.get_commitment(), [1, 0x200]);
    let s = SeedInfo { seed: 0, commitment: CommitmentInfo::new(1, 0x200) };
    assert!(s.matches_digest(&digest));
    assert!(!s.matches_digest(&[0u8; 16]));
}

#[test]
fn random_is_seed_xor_signature() {
    let s = SeedInfo::generate_seed_commitment();
    assert_eq!(s.generate_random(0), 12345);
    assert_eq!(s.generate_random(0xff), 12345 ^ 0xff);
    assert_eq!(s.generate_random(0xff) ^ 0xff, s.seed);
}

#[test]
fn reveal_verify_and_generate() {
    let s = SeedInfo::generate_seed_commitment();
    assert_eq!(s.reveal_verify_and_generate_random(99), Ok(12345 ^ 99));
    let bad = SeedInfo { seed: 1, commitment: s.commitment };
    assert_eq!(
        bad.reveal_verify_and_generate_random(99),
        Err("Invalid seed: commitment verification failed")
    );
}
