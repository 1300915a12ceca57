use crate::random::stateless_rand::{encode_words, spec_hash_bytes, words_encoding};
use crate::random::StatelessRand;
use crate::utils::{f64_bits_from_mantissa, F64_ONE_BITS};
use vstd::prelude::*;

verus! {

/// Noise that is constant over each cell of the unit lattice.
pub struct TileNode<const DIM: usize> {
    rng: StatelessRand,
}

impl<const DIM: usize> View for TileNode<DIM> {
    type V = u64;

    /// The seed.
    closed spec fn view(&self) -> u64 {
        self.rng@
    }
}

impl<const DIM: usize> TileNode<DIM> {
    pub fn new(seed: u64) -> (node: Self)
        ensures
            node@ == seed,
    {
        Self { rng: StatelessRand::from_seed(seed) }
    }

    /// The digest of a cell, which is given by the bit patterns of the coordinates of its
    /// lowest corner.
    pub fn digest_at(&self, cell: &[u64; DIM]) -> (digest: u64)
        requires
            8 * DIM <= usize::MAX,
        ensures
            digest == spec_hash_bytes(self@, words_encoding(cell@)),
    {
        let bytes = encode_words(cell.as_slice());

        self.rng.hash_bytes(bytes.as_slice())
    }

    /// The bit pattern of one more than the value of a cell: a double-precision number from
    /// one up to, but not reaching, two.
    pub fn value_bits_at(&self, cell: &[u64; DIM]) -> (bits: u64)
        requires
            8 * DIM <= usize::MAX,
        ensures
            bits == F64_ONE_BITS + spec_hash_bytes(self@, words_encoding(cell@)) / 0x1000,
            F64_ONE_BITS <= bits < 0x4000_0000_0000_0000,
    {
        f64_bits_from_mantissa(self.digest_at(cell))
    }
}

} // verus!
