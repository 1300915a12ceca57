use crate::geometry::lattice_point::lattice_encoding;
use crate::geometry::neighborhood::{
    lattice_count, lattice_neighbor, lemma_neighbor_at, lemma_neighbor_count,
};
use crate::geometry::LatticePoint;
use crate::random::stateful_rand::{seeded_key, RandState};
use crate::random::stateless_rand::spec_hash_bytes;
use crate::random::{StatefulRand, StatelessRand};
use vstd::prelude::*;

verus! {

/// What a cellular noise paints a point with.
#[derive(Copy, Clone, PartialEq, Eq, Debug)]
pub enum WorleyPaintMethod {
    /// The value that belongs to the nearest seed point.
    Value,
    /// The distance to the nearest seed point.
    Distance,
}

/// The distances of `candidates`, in order.
pub open spec fn distances(candidates: Seq<(u64, u64)>) -> Seq<u64> {
    Seq::new(candidates.len(), |i: int| candidates[i].1)
}

/// The place of the least of `keys`; of the last of them, where it occurs more than once.
pub open spec fn last_min_index(keys: Seq<u64>) -> int
    decreases keys.len(),
{
    if keys.len() <= 1 {
        0
    } else {
        let front = last_min_index(keys.drop_last());
        if keys.last() <= keys[front] {
            keys.len() - 1
        } else {
            front
        }
    }
}

/// The state in which the generator of a cell with digest `hash` hands out its first word.
pub open spec fn cell_stream(seed: u64, hash: u64) -> RandState {
    RandState { key: seeded_key(seed), stream: hash, word_pos: 0 }
}

/// `last_min_index` is the place of a least key, and no later place holds one.
pub proof fn lemma_last_min_index(keys: Seq<u64>)
    requires
        keys.len() > 0,
    ensures
        0 <= last_min_index(keys) < keys.len(),
        forall|j: int| 0 <= j < keys.len() ==> keys[last_min_index(keys)] <= #[trigger] keys[j],
        forall|j: int|
            last_min_index(keys) < j < keys.len() ==> keys[last_min_index(keys)] < #[trigger] keys[j],
    decreases keys.len(),
{
    if keys.len() > 1 {
        let front = keys.drop_last();
        lemma_last_min_index(front);
        assert forall|j: int| 0 <= j < keys.len() implies keys[last_min_index(keys)]
            <= #[trigger] keys[j] by {
            if j < front.len() {
                assert(front[j] == keys[j]);
            }
        }
        assert forall|j: int| last_min_index(keys) < j < keys.len() implies keys[last_min_index(
            keys,
        )] < #[trigger] keys[j] by {
            if j < front.len() {
                assert(front[j] == keys[j]);
            }
        }
    }
}

/// A cell of the unit lattice with what places its seed point.
pub struct SeedCell<const DIM: usize> {
    /// The lowest corner of the cell.
    pub hypercube: LatticePoint<DIM>,
    /// One random word for each axis: how far along it the seed point lies in the cell.
    pub words: [u64; DIM],
    /// The digest of the cell, which is also the value of its seed point.
    pub hash: u64,
}

impl<const DIM: usize> SeedCell<DIM> {
    /// Whether this is the cell with lowest corner `hypercube` as a noise with seed `seed`
    /// knows it.
    pub open spec fn is_cell(self, seed: u64, hypercube: Seq<int>) -> bool {
        &&& self.hypercube@ == hypercube
        &&& self.hash == spec_hash_bytes(seed, lattice_encoding(hypercube))
        &&& forall|d: int|
            0 <= d < DIM ==> #[trigger] self.words[d] == cell_stream(seed, self.hash).skip(
                (2 * d) as nat,
            ).double_word()
    }
}

/// The generators and the choice of a cellular noise. Each cell of the unit lattice holds one
/// seed point, which is placed by the cell's own stream of random words.
pub struct WorleyNode<const DIM: usize> {
    stateless_rng: StatelessRand,
    stateful_rng: StatefulRand,
    paint_method: WorleyPaintMethod,
}

impl<const DIM: usize> WorleyNode<DIM> {
    /// The seed.
    pub closed spec fn seed(&self) -> u64 {
        self.stateless_rng@
    }

    /// What the noise paints with.
    pub closed spec fn spec_paint_method(&self) -> WorleyPaintMethod {
        self.paint_method
    }

    /// What holds of every node that `new` made: its two generators have the same seed.
    pub closed spec fn wf(&self) -> bool {
        self.stateful_rng@.key == seeded_key(self.stateless_rng@)
    }

    pub fn new(seed: u64, paint_method: WorleyPaintMethod) -> (node: Self)
        ensures
            node.wf(),
            node.seed() == seed,
            node.spec_paint_method() == paint_method,
    {
        Self {
            stateless_rng: StatelessRand::from_seed(seed),
            stateful_rng: StatefulRand::from_seed(seed),
            paint_method,
        }
    }

    pub fn paint_method(&self) -> (paint_method: WorleyPaintMethod)
        ensures
            paint_method == self.spec_paint_method(),
    {
        self.paint_method
    }

    /// The digest of the cell `hypercube`, and the random words that place its seed point:
    /// one for each axis, the first words of the stream that the digest names. Neither
    /// depends on what the node was asked before.
    pub fn hypercube_seed_words(&mut self, hypercube: LatticePoint<DIM>) -> (seeded: (
        [u64; DIM],
        u64,
    ))
        requires
            old(self).wf(),
        ensures
            final(self).wf(),
            final(self).seed() == old(self).seed(),
            final(self).spec_paint_method() == old(self).spec_paint_method(),
            seeded.1 == spec_hash_bytes(old(self).seed(), lattice_encoding(hypercube@)),
            forall|d: int|
                0 <= d < DIM ==> #[trigger] seeded.0[d] == cell_stream(
                    old(self).seed(),
                    seeded.1,
                ).skip((2 * d) as nat).double_word(),
    {
        let bytes = hypercube.as_bytes();
        let hash = self.stateless_rng.hash_bytes(bytes.as_slice());

        self.stateful_rng.set_word_pos(0);
        self.stateful_rng.set_stream(hash);

        let mut words = [0_u64; DIM];
        let mut dim: usize = 0;
        let ghost start = cell_stream(self.stateless_rng@, hash);
        while dim < DIM
            invariant
                dim <= DIM,
                self.stateless_rng@ == old(self).stateless_rng@,
                self.paint_method == old(self).paint_method,
                start == cell_stream(self.stateless_rng@, hash),
                self.stateful_rng@ == start.skip((2 * dim) as nat),
                forall|d: int| 0 <= d < dim ==> words[d] == start.skip((2 * d) as nat).double_word(),
            decreases DIM - dim,
        {
            words[dim] = self.stateful_rng.next_u64();
            dim += 1;
        }
        (words, hash)
    }

    /// The cell `cell` and the cells next to it, each with what places its seed point, in
    /// the order of the lattice neighbourhood.
    pub fn seed_cells_around(&mut self, cell: LatticePoint<DIM>) -> (cells: Vec<SeedCell<DIM>>)
        requires
            old(self).wf(),
            lattice_count(DIM as nat) <= usize::MAX,
            forall|d: int| 0 <= d < DIM ==> i32::MIN < #[trigger] cell@[d] < i32::MAX,
        ensures
            final(self).wf(),
            final(self).seed() == old(self).seed(),
            final(self).spec_paint_method() == old(self).spec_paint_method(),
            cells@.len() == lattice_count(DIM as nat),
            forall|k: int|
                0 <= k < cells@.len() ==> (#[trigger] cells@[k]).is_cell(
                    old(self).seed(),
                    lattice_neighbor(cell@, k),
                ),
    {
        let hypercubes = cell.neighbors_and_self().collect();
        proof {
            cell.lemma_view();
            lemma_neighbor_count(cell@, true);
            assert forall|k: int| 0 <= k < hypercubes@.len() implies (#[trigger] hypercubes@[k])@
                == lattice_neighbor(cell@, k) by {
                lemma_neighbor_at(cell@, true, 0, k);
            }
        }
        let mut cells: Vec<SeedCell<DIM>> = Vec::new();
        let mut idx: usize = 0;
        while idx < hypercubes.len()
            invariant
                idx <= hypercubes.len(),
                self.wf(),
                self.seed() == old(self).seed(),
                self.spec_paint_method() == old(self).spec_paint_method(),
                hypercubes@.len() == lattice_count(DIM as nat),
                forall|k: int|
                    0 <= k < hypercubes@.len() ==> (#[trigger] hypercubes@[k])@
                        == lattice_neighbor(cell@, k),
                cells@.len() == idx,
                forall|k: int|
                    0 <= k < idx ==> (#[trigger] cells@[k]).is_cell(
                        old(self).seed(),
                        lattice_neighbor(cell@, k),
                    ),
            decreases hypercubes.len() - idx,
        {
            let hypercube = hypercubes[idx];
            let (words, hash) = self.hypercube_seed_words(hypercube);
            cells.push(SeedCell { hypercube, words, hash });
            idx += 1;
        }
        cells
    }

    /// Takes the nearest candidate out of `candidates` and hands it back. A candidate is a
    /// seed point's value and a key that orders as its distance does; of several that are
    /// equally near, the last one is taken.
    pub fn pop_nearest(candidates: &mut Vec<(u64, u64)>) -> (nearest: (u64, u64))
        requires
            old(candidates)@.len() > 0,
        ensures
            nearest == old(candidates)@[last_min_index(distances(old(candidates)@))],
            final(candidates)@ == old(candidates)@.remove(
                last_min_index(distances(old(candidates)@)),
            ),
    {
        let mut best: usize = 0;
        let mut idx: usize = 1;
        let ghost keys = distances(candidates@);
        while idx < candidates.len()
            invariant
                1 <= idx <= candidates.len(),
                keys == distances(candidates@),
                best == last_min_index(keys.take(idx as int)),
                0 <= best < idx,
            decreases candidates.len() - idx,
        {
            proof {
                let next = keys.take(idx + 1);
                assert(next.drop_last() =~= keys.take(idx as int));
            }
            if candidates[idx].1 <= candidates[best].1 {
                best = idx;
            }
            idx += 1;
        }
        assert(keys.take(candidates.len() as int) =~= keys);
        candidates.remove(best)
    }
}

} // verus!
