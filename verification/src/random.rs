use sha2::Digest;
use vstd::bytes::{spec_u64_from_le_bytes, spec_u64_to_le_bytes, u64_from_le_bytes, u64_to_le_bytes};
use vstd::prelude::*;

verus! {

/// The SHA-256 digest of a byte sequence.
pub uninterp spec fn sha256_of(data: Seq<u8>) -> Seq<u8>;

/// Calls `sha2::Sha256::digest`. Trusted: the 32 bytes it returns are the
/// SHA-256 digest of `data` (named `sha256_of`), a fixed-size output of 32
/// bytes as the crate's `U32` output size states.
#[verifier::external_body]
fn sha256_digest(data: &[u8]) -> (digest: Vec<u8>)
    ensures
        digest@ == sha256_of(data@),
        digest@.len() == 32,
{
    sha2::Sha256::digest(data).to_vec()
}

/// The two little-endian words made of the first 16 bytes of a digest.
pub open spec fn digest_words(digest: Seq<u8>) -> (u64, u64) {
    (
        spec_u64_from_le_bytes(digest.subrange(0, 8)),
        spec_u64_from_le_bytes(digest.subrange(8, 16)),
    )
}

/// The commitment that belongs to a seed: the first 16 bytes of the
/// SHA-256 digest of the seed's little-endian bytes, read as two words.
pub open spec fn seed_commitment(seed: u64) -> (u64, u64) {
    digest_words(sha256_of(spec_u64_to_le_bytes(seed)))
}

/// The seed the administrator commits to.
pub const ADMIN_SEED: u64 = 12345;

/// A commitment to a seed: two words of its hash.
#[derive(Clone, Copy, Debug)]
pub struct CommitmentInfo(pub [u64; 2]);

impl CommitmentInfo {
    pub open spec fn words(self) -> (u64, u64) {
        (self.0[0], self.0[1])
    }

    pub fn new(c0: u64, c1: u64) -> (r: Self)
        ensures
            r.words() == (c0, c1),
    {
        CommitmentInfo([c0, c1])
    }

    pub fn get_commitment(&self) -> (r: [u64; 2])
        ensures
            r == self.0,
            (r[0], r[1]) == self.words(),
    {
        self.0
    }
}

/// A seed together with the commitment published for it.
#[derive(Clone, Copy, Debug)]
pub struct SeedInfo {
    pub seed: u64,
    pub commitment: CommitmentInfo,
}

/// The little-endian word made of the 8 bytes of `bytes` at `start`.
fn le_word_at(bytes: &[u8], start: usize) -> (w: u64)
    requires
        start + 8 <= bytes@.len(),
    ensures
        w == spec_u64_from_le_bytes(bytes@.subrange(start as int, start + 8)),
{
    let n: usize = bytes.len();
    let mut chunk: Vec<u8> = Vec::new();
    let mut i: usize = 0;
    while i < 8
        invariant
            0 <= i <= 8,
            n == bytes@.len(),
            start + 8 <= bytes@.len(),
            chunk@ == bytes@.subrange(start as int, start + i),
        decreases 8 - i,
    {
        chunk.push(bytes[start + i]);
        i = i + 1;
    }
    u64_from_le_bytes(chunk.as_slice())
}

impl SeedInfo {
    /// Whether the commitment is the one `seed` gives.
    pub open spec fn spec_verified(self) -> bool {
        self.commitment.words() == seed_commitment(self.seed)
    }

    /// Reads the commitment words out of a digest: its first 16 bytes as two
    /// little-endian words.
    pub fn commitment_from_digest(digest: &[u8]) -> (c: CommitmentInfo)
        requires
            digest@.len() >= 16,
        ensures
            c.words() == digest_words(digest@),
    {
        let c0: u64 = le_word_at(digest, 0);
        let c1: u64 = le_word_at(digest, 8);
        CommitmentInfo::new(c0, c1)
    }

    /// Whether a commitment matches the words of a given digest.
    pub fn matches_digest(&self, digest: &[u8]) -> (r: bool)
        requires
            digest@.len() >= 16,
        ensures
            r == (self.commitment.words() == digest_words(digest@)),
    {
        let c = Self::commitment_from_digest(digest);
        let commitment = self.commitment.get_commitment();
        c.0[0] == commitment[0] && c.0[1] == commitment[1]
    }

    /// Administrator side: the fixed seed and its commitment.
    pub fn generate_seed_commitment() -> (r: Self)
        ensures
            r.seed == ADMIN_SEED,
            r.commitment.words() == seed_commitment(ADMIN_SEED),
            r.spec_verified(),
    {
        let seed: u64 = ADMIN_SEED;
        let bytes = u64_to_le_bytes(seed);
        let digest = sha256_digest(bytes.as_slice());
        SeedInfo { seed, commitment: Self::commitment_from_digest(digest.as_slice()) }
    }

    /// Whether the revealed seed matches its commitment.
    pub fn verify_seed(&self) -> (r: bool)
        ensures
            r == self.spec_verified(),
    {
        let bytes = u64_to_le_bytes(self.seed);
        let digest = sha256_digest(bytes.as_slice());
        self.matches_digest(digest.as_slice())
    }

    /// The random number: the seed combined with the player's signature.
    pub fn generate_random(&self, player_signature: u64) -> (r: u64)
        ensures
            r == self.seed ^ player_signature,
    {
        self.seed ^ player_signature
    }

    /// Checks the seed against its commitment and, when it matches, gives
    /// the random number for the player's signature.
    pub fn reveal_verify_and_generate_random(&self, player_signature: u64) -> (r: Result<u64, &'static str>)
        ensures
            self.spec_verified() ==> r == Ok::<u64, &'static str>(self.seed ^ player_signature),
            !self.spec_verified() ==> (r matches Err(msg) && msg@ == "Invalid seed: commitment verification failed"@),
    {
        if !self.verify_seed() {
            return Err("Invalid seed: commitment verification failed");
        }
        let random: u64 = self.seed ^ player_signature;
        Ok(random)
    }
}

/// A seed published together with the commitment computed from it passes
/// verification, whatever the seed.
pub proof fn lemma_committed_seed_verifies(seed: u64)
    ensures
        (SeedInfo {
            seed,
            commitment: CommitmentInfo([seed_commitment(seed).0, seed_commitment(seed).1]),
        }).spec_verified(),
{
}

/// The random number reveals the seed to whoever knows the signature.
pub proof fn lemma_random_reveals_seed(seed: u64, player_signature: u64)
    ensures
        (seed ^ player_signature) ^ player_signature == seed,
{
    assert((seed ^ player_signature) ^ player_signature == seed) by (bit_vector);
}

} // verus!
