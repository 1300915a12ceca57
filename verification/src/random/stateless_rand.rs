use twox_hash::XxHash64;
use vstd::bytes::{
    lemma_auto_spec_u64_to_from_le_bytes, spec_u32_from_le_bytes, spec_u64_from_le_bytes,
    spec_u64_to_le_bytes, u64_to_le_bytes,
};
use vstd::prelude::*;

verus! {

pub const PRIME_1: u64 = 0x9E37_79B1_85EB_CA87;

pub const PRIME_2: u64 = 0xC2B2_AE3D_27D4_EB4F;

pub const PRIME_3: u64 = 0x1656_67B1_9E37_79F9;

pub const PRIME_4: u64 = 0x85EB_CA77_C2B2_AE63;

pub const PRIME_5: u64 = 0x27D4_EB2F_1656_67C5;

/// `value` with its bits moved `amount` places toward the high end, those that leave at the
/// top coming back in at the bottom.
pub open spec fn spec_rotate_left(value: u64, amount: u64) -> u64 {
    (value << amount) | (value >> ((64 - amount) as u64))
}

/// The digest before any input is mixed in: it depends on the seed and on how many bytes the
/// input has.
pub open spec fn spec_prepare_seed(seed: u64, num_bytes: u64) -> u64 {
    seed.wrapping_add(PRIME_5).wrapping_add(num_bytes)
}

/// `lhs` after one byte of input is mixed in.
pub open spec fn spec_mix_u8(lhs: u64, rhs: u8) -> u64 {
    spec_rotate_left(lhs ^ (rhs as u64).wrapping_mul(PRIME_5), 11).wrapping_mul(PRIME_1)
}

/// `lhs` after a 32-bit word of input is mixed in.
pub open spec fn spec_mix_u32(lhs: u64, rhs: u32) -> u64 {
    spec_rotate_left(lhs ^ (rhs as u64).wrapping_mul(PRIME_1), 23).wrapping_mul(
        PRIME_2,
    ).wrapping_add(PRIME_3)
}

/// `lhs` after a 64-bit word of input is mixed in.
pub open spec fn spec_mix_u64(lhs: u64, rhs: u64) -> u64 {
    spec_rotate_left(
        lhs ^ spec_rotate_left(rhs.wrapping_mul(PRIME_2), 31).wrapping_mul(PRIME_1),
        27,
    ).wrapping_mul(PRIME_1).wrapping_add(PRIME_4)
}

/// The last step, which spreads every bit of `digest` over the whole word.
pub open spec fn spec_finalize(digest: u64) -> u64 {
    let a = digest ^ (digest >> 33);
    let b = a.wrapping_mul(PRIME_2);
    let c = b ^ (b >> 29);
    let d = c.wrapping_mul(PRIME_3);
    d ^ (d >> 32)
}

/// `digest` after `bytes` are mixed in: eight at a time, read as a 64-bit word with the low
/// byte first, while eight are left; then four, read as a 32-bit word, if four are left; then
/// one by one.
pub open spec fn absorb(digest: u64, bytes: Seq<u8>) -> u64
    decreases bytes.len(),
{
    if bytes.len() >= 8 {
        absorb(spec_mix_u64(digest, spec_u64_from_le_bytes(bytes.take(8))), bytes.skip(8))
    } else if bytes.len() >= 4 {
        absorb(spec_mix_u32(digest, spec_u32_from_le_bytes(bytes.take(4))), bytes.skip(4))
    } else if bytes.len() >= 1 {
        absorb(spec_mix_u8(digest, bytes[0]), bytes.skip(1))
    } else {
        digest
    }
}

/// The digest of an input of fewer than 32 bytes under `seed`.
pub open spec fn short_digest(seed: u64, bytes: Seq<u8>) -> u64 {
    spec_finalize(absorb(spec_prepare_seed(seed, bytes.len() as u64), bytes))
}

/// The digest of one word under `seed`, mixed in directly.
pub open spec fn spec_hash_1u64(seed: u64, x: u64) -> u64 {
    spec_finalize(spec_mix_u64(spec_prepare_seed(seed, 8), x))
}

/// The digest of two words under `seed`, mixed in directly.
pub open spec fn spec_hash_2u64(seed: u64, x: u64, y: u64) -> u64 {
    spec_finalize(spec_mix_u64(spec_mix_u64(spec_prepare_seed(seed, 16), x), y))
}

/// The digest of three words under `seed`, mixed in directly.
pub open spec fn spec_hash_3u64(seed: u64, x: u64, y: u64, z: u64) -> u64 {
    spec_finalize(
        spec_mix_u64(spec_mix_u64(spec_mix_u64(spec_prepare_seed(seed, 24), x), y), z),
    )
}

/// The bytes that stand for `words`: eight for each word, in the order of the words, each
/// word with its low byte first.
pub open spec fn words_encoding(words: Seq<u64>) -> Seq<u8> {
    Seq::new(8 * words.len(), |i: int| spec_u64_to_le_bytes(words[i / 8])[i % 8])
}

/// The XXH64 digest of `bytes` under `seed`, as the `twox_hash` crate computes it.
pub uninterp spec fn xxh64_digest(seed: u64, bytes: Seq<u8>) -> u64;

/// The digest of `bytes` under `seed`: spelled out for an input of fewer than 32 bytes, and
/// by name for a longer one.
pub open spec fn spec_hash_bytes(seed: u64, bytes: Seq<u8>) -> u64 {
    if bytes.len() < 32 {
        short_digest(seed, bytes)
    } else {
        xxh64_digest(seed, bytes)
    }
}

/// Feeds `bytes` to a fresh `twox_hash::XxHash64` made by `with_seed(seed)`, in one `write`,
/// and hands back what `finish` gives.
///
/// Trusted: the result is the XXH64 digest of the bytes under the seed. For an input of fewer
/// than 32 bytes the hasher never fills a stripe: `finish` starts from the seed, the fifth
/// prime and the length, folds the buffered bytes in as 64-bit words, then one 32-bit word,
/// then single bytes, and ends with the avalanche, which is what `short_digest` says.
#[verifier::external_body]
fn xxh64(seed: u64, bytes: &[u8]) -> (digest: u64)
    ensures
        digest == xxh64_digest(seed, bytes@),
        bytes@.len() < 32 ==> digest == short_digest(seed, bytes@),
{
    let mut hasher = XxHash64::with_seed(seed);
    std::hash::Hasher::write(&mut hasher, bytes);
    std::hash::Hasher::finish(&hasher)
}

/// The bytes that stand for `words`.
pub fn encode_words(words: &[u64]) -> (bytes: Vec<u8>)
    requires
        8 * words@.len() <= usize::MAX,
    ensures
        bytes@ == words_encoding(words@),
{
    let mut bytes: Vec<u8> = Vec::new();
    let mut idx: usize = 0;
    proof {
        lemma_auto_spec_u64_to_from_le_bytes();
    }
    while idx < words.len()
        invariant
            idx <= words.len(),
            bytes@ == words_encoding(words@.take(idx as int)),
            forall|x: u64| #[trigger] spec_u64_to_le_bytes(x).len() == 8,
        decreases words.len() - idx,
    {
        let mut word = u64_to_le_bytes(words[idx]);
        bytes.append(&mut word);
        idx += 1;
    }
    bytes
}

/// `value` with its bits moved `amount` places toward the high end and round.
fn rotate_left(value: u64, amount: u64) -> (rotated: u64)
    requires
        0 < amount < 64,
    ensures
        rotated == spec_rotate_left(value, amount),
{
    (value << amount) | (value >> (64 - amount))
}

/// A hash context with a 64-bit seed and no other state.
#[derive(Copy, Clone, PartialEq, Eq, Debug)]
pub struct StatelessRand {
    seed: u64,
}

impl View for StatelessRand {
    type V = u64;

    /// The seed.
    closed spec fn view(&self) -> u64 {
        self.seed
    }
}

impl StatelessRand {
    pub fn from_seed(seed: u64) -> (rand: Self)
        ensures
            rand@ == seed,
    {
        Self { seed }
    }

    /// The digest of `bytes` under the seed.
    pub fn hash_bytes(&self, bytes: &[u8]) -> (digest: u64)
        ensures
            digest == spec_hash_bytes(self@, bytes@),
    {
        xxh64(self.seed, bytes)
    }

    /// The digest of the eight bytes that stand for `x`.
    pub fn hash_1u64(&self, x: u64) -> (digest: u64)
        ensures
            digest == spec_hash_1u64(self@, x),
            digest == spec_hash_bytes(self@, words_encoding(seq![x])),
    {
        let mut digest = self.prepare_seed(8);

        digest = Self::mix_u64(digest, x);

        proof {
            lemma_fixed_arity_hashes(self@, x, 0, 0);
        }
        Self::finalize(digest)
    }

    /// The digest of the sixteen bytes that stand for `x` and `y`, in this order.
    pub fn hash_2u64(&self, x: u64, y: u64) -> (digest: u64)
        ensures
            digest == spec_hash_2u64(self@, x, y),
            digest == spec_hash_bytes(self@, words_encoding(seq![x, y])),
    {
        let mut digest = self.prepare_seed(16);

        digest = Self::mix_u64(digest, x);
        digest = Self::mix_u64(digest, y);

        proof {
            lemma_fixed_arity_hashes(self@, x, y, 0);
        }
        Self::finalize(digest)
    }

    /// The digest of the twenty-four bytes that stand for `x`, `y` and `z`, in this order.
    pub fn hash_3u64(&self, x: u64, y: u64, z: u64) -> (digest: u64)
        ensures
            digest == spec_hash_3u64(self@, x, y, z),
            digest == spec_hash_bytes(self@, words_encoding(seq![x, y, z])),
    {
        let mut digest = self.prepare_seed(24);

        digest = Self::mix_u64(digest, x);
        digest = Self::mix_u64(digest, y);
        digest = Self::mix_u64(digest, z);

        proof {
            lemma_fixed_arity_hashes(self@, x, y, z);
        }
        Self::finalize(digest)
    }

    /// The digest of the bytes that stand for `words`. One, two and three words are mixed in
    /// directly; more are written out as bytes first.
    pub fn hash_words(&self, words: &[u64]) -> (digest: u64)
        requires
            8 * words@.len() <= usize::MAX,
        ensures
            digest == spec_hash_bytes(self@, words_encoding(words@)),
    {
        if words.len() == 1 {
            assert(words@ =~= seq![words@[0]]);
            self.hash_1u64(words[0])
        } else if words.len() == 2 {
            assert(words@ =~= seq![words@[0], words@[1]]);
            self.hash_2u64(words[0], words[1])
        } else if words.len() == 3 {
            assert(words@ =~= seq![words@[0], words@[1], words@[2]]);
            self.hash_3u64(words[0], words[1], words[2])
        } else {
            let bytes = encode_words(words);
            self.hash_bytes(bytes.as_slice())
        }
    }

    /// The digest before any input is mixed in, for an input of `num_bytes` bytes.
    pub fn prepare_seed(&self, num_bytes: u64) -> (digest: u64)
        ensures
            digest == spec_prepare_seed(self@, num_bytes),
    {
        self.seed.wrapping_add(PRIME_5).wrapping_add(num_bytes)
    }

    /// `lhs` after one byte of input is mixed in.
    pub fn mix_u8(lhs: u64, rhs: u8) -> (digest: u64)
        ensures
            digest == spec_mix_u8(lhs, rhs),
    {
        let rhs = (rhs as u64).wrapping_mul(PRIME_5);

        rotate_left(lhs ^ rhs, 11).wrapping_mul(PRIME_1)
    }

    /// `lhs` after a 32-bit word of input is mixed in.
    pub fn mix_u32(lhs: u64, rhs: u32) -> (digest: u64)
        ensures
            digest == spec_mix_u32(lhs, rhs),
    {
        let rhs = (rhs as u64).wrapping_mul(PRIME_1);

        rotate_left(lhs ^ rhs, 23).wrapping_mul(PRIME_2).wrapping_add(PRIME_3)
    }

    /// `lhs` after a 64-bit word of input is mixed in.
    pub fn mix_u64(lhs: u64, rhs: u64) -> (digest: u64)
        ensures
            digest == spec_mix_u64(lhs, rhs),
    {
        let rhs = rotate_left(rhs.wrapping_mul(PRIME_2), 31).wrapping_mul(PRIME_1);

        rotate_left(lhs ^ rhs, 27).wrapping_mul(PRIME_1).wrapping_add(PRIME_4)
    }

    /// The last step of every digest.
    pub fn finalize(digest: u64) -> (mixed: u64)
        ensures
            mixed == spec_finalize(digest),
    {
        let mut digest = digest;
        digest = digest ^ (digest >> 33);
        digest = digest.wrapping_mul(PRIME_2);
        digest = digest ^ (digest >> 29);
        digest = digest.wrapping_mul(PRIME_3);
        digest = digest ^ (digest >> 32);

        digest
    }
}

/// `digest` after the words of `words` are mixed in, from the first to the last.
pub open spec fn fold_words(digest: u64, words: Seq<u64>) -> u64
    decreases words.len(),
{
    if words.len() == 0 {
        digest
    } else {
        fold_words(spec_mix_u64(digest, words[0]), words.skip(1))
    }
}

/// The digests of one, two and three words are the digests of the bytes that stand for
/// them: whoever hashes the words and whoever hashes their bytes get the same, under every
/// seed.
pub proof fn lemma_fixed_arity_hashes(seed: u64, x: u64, y: u64, z: u64)
    ensures
        spec_hash_1u64(seed, x) == spec_hash_bytes(seed, words_encoding(seq![x])),
        spec_hash_2u64(seed, x, y) == spec_hash_bytes(seed, words_encoding(seq![x, y])),
        spec_hash_3u64(seed, x, y, z) == spec_hash_bytes(seed, words_encoding(seq![x, y, z])),
{
    lemma_absorb_words(spec_prepare_seed(seed, 8), seq![x]);
    lemma_absorb_words(spec_prepare_seed(seed, 16), seq![x, y]);
    lemma_absorb_words(spec_prepare_seed(seed, 24), seq![x, y, z]);
    assert(fold_words(spec_prepare_seed(seed, 8), seq![x]) == spec_mix_u64(
        spec_prepare_seed(seed, 8),
        x,
    )) by {
        reveal_with_fuel(fold_words, 2);
    }
    assert(fold_words(spec_prepare_seed(seed, 16), seq![x, y]) == spec_mix_u64(
        spec_mix_u64(spec_prepare_seed(seed, 16), x),
        y,
    )) by {
        reveal_with_fuel(fold_words, 3);
    }
    assert(fold_words(spec_prepare_seed(seed, 24), seq![x, y, z]) == spec_mix_u64(
        spec_mix_u64(spec_mix_u64(spec_prepare_seed(seed, 24), x), y),
        z,
    )) by {
        reveal_with_fuel(fold_words, 4);
    }
}

/// Mixing in the bytes that stand for whole words is mixing in the words.
pub proof fn lemma_absorb_words(digest: u64, words: Seq<u64>)
    ensures
        absorb(digest, words_encoding(words)) == fold_words(digest, words),
    decreases words.len(),
{
    lemma_auto_spec_u64_to_from_le_bytes();
    let bytes = words_encoding(words);
    if words.len() > 0 {
        assert(bytes.take(8) =~= spec_u64_to_le_bytes(words[0]));
        assert(bytes.skip(8) =~= words_encoding(words.skip(1)));
        lemma_absorb_words(spec_mix_u64(digest, words[0]), words.skip(1));
    }
}

} // verus!
