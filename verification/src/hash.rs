//! The two hash functions: Keccak-256, whose values are cached, and rapidhash, which picks the
//! bucket of an input.
use vstd::prelude::*;

verus! {

/// A 256-bit hash value.
pub type B256 = [u8; 32];

/// The Keccak-256 hash of the empty string.
pub const KECCAK256_EMPTY: B256 = [
    0xc5, 0xd2, 0x46, 0x01, 0x86, 0xf7, 0x23, 0x3c, 0x92, 0x7e, 0x7d, 0xb2, 0xdc, 0xc7, 0x03, 0xc0,
    0xe5, 0x00, 0xb6, 0x53, 0xca, 0x82, 0x27, 0x3b, 0x7b, 0xfa, 0xd8, 0x04, 0x5d, 0x85, 0xa4, 0x70,
];

/// The seed of the bucket hash.
pub const HASH_SEED: u64 = 0;

/// What `tiny_keccak`'s `Keccak::v256` gives for `data`.
pub uninterp spec fn keccak_v256_output(data: Seq<u8>) -> Seq<u8>;

/// The Keccak-256 hash of `data`.
pub open spec fn keccak256_digest(data: Seq<u8>) -> Seq<u8> {
    if data.len() == 0 {
        KECCAK256_EMPTY@
    } else {
        keccak_v256_output(data)
    }
}

/// What `rapidhash_v3_micro_inline`, without avalanche and protection and with the secrets that
/// `RapidSecrets::seed` makes of `seed`, gives for `data`.
pub uninterp spec fn rapid_digest(seed: u64, data: Seq<u8>) -> u64;

/// Calls `tiny_keccak::Keccak::v256`, absorbs `data` with `update` and squeezes 32 bytes with
/// `finalize`.
///
/// The output depends on the bytes of `data` alone, and for no bytes it is
/// [`KECCAK256_EMPTY`].
#[verifier::external_body]
fn keccak_v256(data: &[u8]) -> (output: B256)
    ensures
        data@.len() > 0 ==> output@ == keccak_v256_output(data@),
        data@.len() == 0 ==> output@ == KECCAK256_EMPTY@,
{
    let mut output = [0u8; 32];
    let mut hasher = tiny_keccak::Keccak::v256();
    tiny_keccak::Hasher::update(&mut hasher, data);
    tiny_keccak::Hasher::finalize(hasher, &mut output);
    output
}

/// Calls `rapidhash::v3::rapidhash_v3_micro_inline` with the secrets of
/// `rapidhash::v3::RapidSecrets::seed`.
///
/// The hash depends on the seed and the bytes of `data` alone.
#[verifier::external_body]
fn rapidhash_micro(seed: u64, data: &[u8]) -> (hash: u64)
    ensures
        hash == rapid_digest(seed, data@),
{
    rapidhash::v3::rapidhash_v3_micro_inline::<false, false>(
        data,
        &rapidhash::v3::RapidSecrets::seed(seed),
    )
}

/// The Keccak-256 hash of `data`, computed without any cache.
pub fn keccak256(data: &[u8]) -> (hash: B256)
    ensures
        hash@ == keccak256_digest(data@),
        data@.len() > 0 ==> hash@ == keccak_v256_output(data@),
        data@.len() == 0 ==> hash@ == KECCAK256_EMPTY@,
{
    keccak_v256(data)
}

/// The hash of the inputs of the cache.
pub fn rapid_hash(bytes: &[u8]) -> (hash: u64)
    ensures
        hash == rapid_digest(HASH_SEED, bytes@),
        hash == rapid_digest(0, bytes@),
{
    rapidhash_micro(HASH_SEED, bytes)
}

/// A 64-bit hash as a machine word: on a 32-bit machine the two halves are combined.
pub open spec fn folded(hash: u64) -> usize {
    if usize::BITS == 32 {
        ((hash >> 32) as usize) ^ (hash as usize)
    } else {
        hash as usize
    }
}

/// The machine word whose bits pick the bucket and the tag of `input`.
pub open spec fn input_hash(input: Seq<u8>) -> usize {
    folded(rapid_digest(HASH_SEED, input))
}

/// Brings a 64-bit hash to the width of a machine word.
pub fn fold_hash(hash: u64) -> (word: usize)
    ensures
        word == folded(hash),
        usize::BITS == 64 ==> word as int == hash as int,
        usize::BITS == 32 ==> word == ((hash >> 32) as usize) ^ (hash as usize),
{
    if usize::BITS == 32 {
        ((hash >> 32) as usize) ^ (hash as usize)
    } else {
        hash as usize
    }
}

/// Hashes an input to a machine word.
pub fn hash_input(input: &[u8]) -> (word: usize)
    ensures
        word == input_hash(input@),
        usize::BITS == 64 ==> word as int == rapid_digest(0, input@) as int,
{
    fold_hash(rapid_hash(input))
}

/// The state of the hasher that [`crate::Cache`] hashes its keys with.
///
/// A key is written in one piece, so the hash of the last piece is the hash of the key.
pub struct Hasher(u64);

impl Hasher {
    /// The hash that [`std::hash::Hasher::finish`] gives.
    pub closed spec fn state(&self) -> u64 {
        self.0
    }
}

impl Default for Hasher {
    fn default() -> (hasher: Hasher)
        ensures
            hasher.state() == 0,
    {
        Hasher(0)
    }
}

impl std::hash::Hasher for Hasher {
    fn finish(&self) -> (hash: u64)
        ensures
            hash == self.state(),
    {
        self.0
    }

    fn write(&mut self, bytes: &[u8])
        ensures
            final(self).state() == rapid_digest(HASH_SEED, bytes@),
            final(self).state() == rapid_digest(0, bytes@),
    {
        self.0 = rapid_hash(bytes);
    }

    /// Skips the length prefix of a slice: the hash of the bytes is good enough.
    fn write_usize(&mut self, i: usize)
        ensures
            final(self).state() == old(self).state(),
    {
    }
}

/// The Keccak-256 hash is a hash of the whole input, however long it is: it is what Keccak-256
/// gives for all of its bytes. For no bytes it is the constant.
pub proof fn law_digest_is_of_all_bytes(data: Seq<u8>)
    ensures
        data.len() > 0 ==> keccak256_digest(data) == keccak_v256_output(data),
        data.len() == 0 ==> keccak256_digest(data) == KECCAK256_EMPTY@,
{
}

/// No bit of a hash is lost on a 64-bit machine, and each half of it counts on a 32-bit machine.
pub proof fn law_folding_keeps_the_hash(hash: u64)
    ensures
        usize::BITS == 64 ==> folded(hash) as int == hash as int,
        usize::BITS == 32 ==> folded(hash) == ((hash >> 32) as usize) ^ (hash as usize),
{
}

/// On a 64-bit machine the word of an input is the hash of all of its bytes, with the seed zero.
pub proof fn law_input_hash_is_of_all_bytes(input: Seq<u8>)
    ensures
        usize::BITS == 64 ==> input_hash(input) as int == rapid_digest(0, input) as int,
        usize::BITS == 32 ==> input_hash(input) == ((rapid_digest(0, input) >> 32) as usize) ^ (
        rapid_digest(0, input) as usize),
{
}

} // verus!
