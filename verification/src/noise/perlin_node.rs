use crate::geometry::neighborhood::power;
use crate::random::stateless_rand::{encode_words, spec_hash_bytes, words_encoding};
use crate::random::StatelessRand;
use vstd::arithmetic::power::{lemma_pow_increases, lemma_pow_positive, pow};
use vstd::arithmetic::power2::{lemma2_to64, lemma_pow2};
use vstd::prelude::*;

verus! {

/// How many gradients a gradient noise in `dim` dimensions chooses from.
pub open spec fn gradient_count(dim: nat) -> int {
    pow(2, dim + 3)
}

/// The chooser of a gradient noise: it gives each corner of the unit lattice the number of
/// one gradient of the pool.
pub struct PerlinNode<const DIM: usize> {
    rng: StatelessRand,
    num_gradients: usize,
}

impl<const DIM: usize> PerlinNode<DIM> {
    /// The seed.
    pub closed spec fn seed(&self) -> u64 {
        self.rng@
    }

    /// What holds of every node that `new` made.
    pub closed spec fn wf(&self) -> bool {
        self.num_gradients == gradient_count(DIM as nat)
    }

    pub fn new(seed: u64) -> (node: Self)
        requires
            gradient_count(DIM as nat) <= usize::MAX,
        ensures
            node.wf(),
            node.seed() == seed,
    {
        proof {
            if DIM >= 61 {
                lemma_pow_increases(2, 64, (DIM + 3) as nat);
                lemma_pow2(64);
                lemma2_to64();
            }
        }
        Self { rng: StatelessRand::from_seed(seed), num_gradients: power(2, DIM + 3) }
    }

    /// How many gradients the noise chooses from.
    pub fn num_gradients(&self) -> (count: usize)
        requires
            self.wf(),
        ensures
            count == gradient_count(DIM as nat),
    {
        self.num_gradients
    }

    /// The number of the gradient at a corner, which is given by the bit patterns of its
    /// coordinates: the digest of the corner, cut down to the size of the pool.
    pub fn gradient_index(&self, vertex: &[u64; DIM]) -> (index: usize)
        requires
            self.wf(),
            8 * DIM <= usize::MAX,
        ensures
            index == spec_hash_bytes(self.seed(), words_encoding(vertex@)) % (gradient_count(
                DIM as nat,
            ) as u64),
            index < gradient_count(DIM as nat),
    {
        proof {
            lemma_pow_positive(2, (DIM + 3) as nat);
        }
        let bytes = encode_words(vertex.as_slice());
        let hash = self.rng.hash_bytes(bytes.as_slice());

        (hash % (self.num_gradients as u64)) as usize
    }
}

} // verus!
