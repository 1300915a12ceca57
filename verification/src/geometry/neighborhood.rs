use super::lattice_point::{fits_i32, LatticePoint};
use vstd::arithmetic::div_mod::{
    lemma_breakdown, lemma_div_denominator, lemma_div_multiples_vanish_fancy, lemma_mod_bound,
};
use vstd::arithmetic::power::{lemma_pow0, lemma_pow_increases, lemma_pow_positive, pow};
use vstd::prelude::*;

verus! {

/// The digit of `index` at `place`, when `index` is written in base `base` with the lowest
/// place first.
pub open spec fn digit(index: int, base: int, place: nat) -> int {
    (index % pow(base, place + 1)) / pow(base, place)
}

/// How many points the lattice neighbourhood of a point has, the point itself among them.
pub open spec fn lattice_count(dim: nat) -> int {
    pow(3, dim)
}

/// The place of the point itself among its lattice neighbours.
pub open spec fn self_index(dim: nat) -> int {
    lattice_count(dim) / 2
}

/// The lattice neighbour of `origin` with number `index`: each coordinate is moved by one
/// less than the digit of `index` in base three at that coordinate's place.
pub open spec fn lattice_neighbor(origin: Seq<int>, index: int) -> Seq<int> {
    Seq::new(origin.len(), |d: int| origin[d] + digit(index, 3, d as nat) - 1)
}

/// The lattice neighbours of `origin` from number `index` on, in order, with or without
/// `origin` itself.
pub open spec fn neighbors_from(origin: Seq<int>, include_self: bool, index: int) -> Seq<Seq<int>>
    decreases lattice_count(origin.len()) - index,
{
    if index < 0 || index >= lattice_count(origin.len()) {
        Seq::empty()
    } else if !include_self && index == self_index(origin.len()) {
        neighbors_from(origin, include_self, index + 1)
    } else {
        seq![lattice_neighbor(origin, index)] + neighbors_from(origin, include_self, index + 1)
    }
}

/// How many corners a unit hypercube has.
pub open spec fn vertex_count(dim: nat) -> int {
    pow(2, dim)
}

/// The corner with number `index` of the unit hypercube whose lowest corner is `origin`: each
/// coordinate is moved by the bit of `index` at that coordinate's place.
pub open spec fn hypercube_vertex(origin: Seq<int>, index: int) -> Seq<int> {
    Seq::new(origin.len(), |d: int| origin[d] + digit(index, 2, d as nat))
}

/// The corners from number `index` on, in order.
pub open spec fn vertices_from(origin: Seq<int>, index: int) -> Seq<Seq<int>> {
    Seq::new(
        if 0 <= index <= vertex_count(origin.len()) {
            (vertex_count(origin.len()) - index) as nat
        } else {
            0
        },
        |k: int| hypercube_vertex(origin, index + k),
    )
}

/// The views of `points`, in order.
pub open spec fn views<const DIM: usize>(points: Seq<LatticePoint<DIM>>) -> Seq<Seq<int>> {
    Seq::new(points.len(), |k: int| points[k]@)
}

/// A digit is what is left of `index`, after the lower places are cut off, when it is divided
/// by the base.
pub proof fn lemma_digit(index: int, base: int, place: nat)
    requires
        index >= 0,
        base > 0,
    ensures
        pow(base, place) > 0,
        pow(base, place + 1) == pow(base, place) * base,
        digit(index, base, place) == (index / pow(base, place)) % base,
        0 <= digit(index, base, place) < base,
        (index / pow(base, place)) / base == index / pow(base, place + 1),
{
    let unit = pow(base, place);
    lemma_pow_positive(base, place);
    assert(pow(base, place + 1) == unit * base) by {
        reveal(pow);
        assert(base * unit == unit * base) by (nonlinear_arith);
    }
    lemma_breakdown(index, unit, base);
    lemma_mod_bound(index, unit);
    lemma_div_multiples_vanish_fancy((index / unit) % base, index % unit, unit);
    lemma_mod_bound(index / unit, base);
    lemma_div_denominator(index, unit, base);
}

/// `base` to the power of `exponent`.
pub(crate) fn power(base: usize, exponent: usize) -> (result: usize)
    requires
        base > 0,
        pow(base as int, exponent as nat) <= usize::MAX,
    ensures
        result == pow(base as int, exponent as nat),
{
    let mut result: usize = 1;
    let mut done: usize = 0;
    proof {
        lemma_pow0(base as int);
    }
    while done < exponent
        invariant
            done <= exponent,
            base > 0,
            result == pow(base as int, done as nat),
            pow(base as int, exponent as nat) <= usize::MAX,
        decreases exponent - done,
    {
        proof {
            lemma_digit(0, base as int, done as nat);
            lemma_pow_increases(base as nat, (done + 1) as nat, exponent as nat);
        }
        result = result * base;
        done += 1;
    }
    result
}

/// The point that `origin` becomes when each coordinate is moved by the digit of `index` at
/// its place, less `shift`.
fn displaced<const DIM: usize>(
    origin: LatticePoint<DIM>,
    index: usize,
    base: usize,
    shift: i32,
) -> (point: LatticePoint<DIM>)
    requires
        0 < base <= 3,
        0 <= shift <= 1,
        forall|d: int|
            0 <= d < DIM ==> fits_i32(#[trigger] origin@[d] - shift) && fits_i32(
                origin@[d] + base - 1 - shift,
            ),
    ensures
        point@ == Seq::new(
            DIM as nat,
            |d: int| origin@[d] + digit(index as int, base as int, d as nat) - shift,
        ),
{
    let mut coordinates = [0_i32; DIM];
    let mut rest = index;
    let mut place: usize = 0;
    proof {
        lemma_pow0(base as int);
        origin.lemma_view();
    }
    while place < DIM
        invariant
            place <= DIM,
            origin@.len() == DIM,
            0 < base <= 3,
            0 <= shift <= 1,
            rest == (index as int) / pow(base as int, place as nat),
            forall|d: int|
                0 <= d < DIM ==> fits_i32(#[trigger] origin@[d] - shift) && fits_i32(
                    origin@[d] + base - 1 - shift,
                ),
            forall|d: int|
                0 <= d < place ==> coordinates[d] == origin@[d] + digit(
                    index as int,
                    base as int,
                    d as nat,
                ) - shift,
        decreases DIM - place,
    {
        proof {
            lemma_digit(index as int, base as int, place as nat);
            assert(fits_i32(origin@[place as int] - shift));
        }
        let step = (rest % base) as i32 - shift;
        coordinates[place] = origin[place] + step;
        rest = rest / base;
        place += 1;
    }
    let point = LatticePoint::new(coordinates);
    assert(point@ =~= Seq::new(
        DIM as nat,
        |d: int| origin@[d] + digit(index as int, base as int, d as nat) - shift,
    ));
    point
}

/// The points next to a lattice point: those whose coordinates each differ from its own by
/// at most one, handed out one by one with the first coordinate changing fastest.
pub struct LatticeNeighborhood<const DIM: usize> {
    origin: LatticePoint<DIM>,
    include_self: bool,
    current_index: usize,
    num_neighbors: usize,
}

impl<const DIM: usize> LatticeNeighborhood<DIM> {
    /// The point whose neighbours these are.
    pub closed spec fn origin(&self) -> Seq<int> {
        self.origin@
    }

    /// Whether the point itself is handed out among its neighbours.
    pub closed spec fn include_self(&self) -> bool {
        self.include_self
    }

    /// The number of the neighbour that comes next, the point itself counted.
    pub closed spec fn current_index(&self) -> int {
        self.current_index as int
    }

    /// What holds of every neighbourhood that `new` made, however far it has been walked.
    pub closed spec fn wf(&self) -> bool {
        &&& self.origin@.len() == DIM
        &&& self.num_neighbors == lattice_count(DIM as nat)
        &&& self.current_index <= self.num_neighbors
        &&& forall|d: int| 0 <= d < DIM ==> i32::MIN < #[trigger] self.origin@[d] < i32::MAX
    }

    /// The points still to come, in order.
    pub open spec fn remaining(&self) -> Seq<Seq<int>> {
        neighbors_from(self.origin(), self.include_self(), self.current_index())
    }

    pub fn new(origin: LatticePoint<DIM>, include_self: bool) -> (neighborhood: Self)
        requires
            lattice_count(DIM as nat) <= usize::MAX,
            forall|d: int| 0 <= d < DIM ==> i32::MIN < #[trigger] origin@[d] < i32::MAX,
        ensures
            neighborhood.wf(),
            neighborhood.origin() == origin@,
            neighborhood.include_self() == include_self,
            neighborhood.current_index() == 0,
    {
        proof {
            origin.lemma_view();
        }
        Self { origin, include_self, current_index: 0, num_neighbors: power(3, DIM) }
    }

    /// Hands out the next point, if one is left.
    pub fn next(&mut self) -> (point: Option<LatticePoint<DIM>>)
        requires
            old(self).wf(),
        ensures
            final(self).wf(),
            final(self).origin() == old(self).origin(),
            final(self).include_self() == old(self).include_self(),
            match point {
                Some(point) => {
                    &&& old(self).remaining().len() > 0
                    &&& point@ == old(self).remaining()[0]
                    &&& final(self).remaining() == old(self).remaining().skip(1)
                },
                None => {
                    &&& old(self).remaining().len() == 0
                    &&& final(self).remaining().len() == 0
                },
            },
    {
        proof {
            lemma_pow_positive(3, DIM as nat);
        }
        let ghost whole = self.remaining();
        if !self.include_self && self.current_index == self.num_neighbors / 2 {
            self.current_index += 1;
        }
        assert(self.remaining() == whole);
        if self.current_index < self.num_neighbors {
            let point = displaced(self.origin, self.current_index, 3, 1);
            self.current_index += 1;
            Some(point)
        } else {
            None
        }
    }

    /// Hands out all the points that are left, in order.
    pub fn collect(self) -> (points: Vec<LatticePoint<DIM>>)
        requires
            self.wf(),
        ensures
            views(points@) == self.remaining(),
    {
        let mut neighborhood = self;
        let mut points: Vec<LatticePoint<DIM>> = Vec::new();
        loop
            invariant
                neighborhood.wf(),
                self.remaining() == views(points@) + neighborhood.remaining(),
            ensures
                views(points@) == self.remaining(),
            decreases neighborhood.num_neighbors - neighborhood.current_index,
        {
            let ghost before = neighborhood;
            match neighborhood.next() {
                Some(point) => {
                    proof {
                        lemma_remaining_shrinks(before, neighborhood);
                    }
                    points.push(point);
                },
                None => {
                    break ;
                },
            }
        }
        points
    }
}

/// The corners of the unit hypercube whose lowest corner is a lattice point, handed out one
/// by one: the bits of a corner's number say along which axes it lies one above the lowest.
pub struct VertexNeighborhood<const DIM: usize> {
    origin: LatticePoint<DIM>,
    current_index: usize,
    num_vertices: usize,
}

impl<const DIM: usize> VertexNeighborhood<DIM> {
    /// The lowest corner.
    pub closed spec fn origin(&self) -> Seq<int> {
        self.origin@
    }

    /// The number of the corner that comes next.
    pub closed spec fn current_index(&self) -> int {
        self.current_index as int
    }

    /// What holds of every neighbourhood that `new` made, however far it has been walked.
    pub closed spec fn wf(&self) -> bool {
        &&& self.origin@.len() == DIM
        &&& self.num_vertices == vertex_count(DIM as nat)
        &&& self.current_index <= self.num_vertices
        &&& forall|d: int| 0 <= d < DIM ==> #[trigger] self.origin@[d] < i32::MAX
    }

    /// The corners still to come, in order.
    pub open spec fn remaining(&self) -> Seq<Seq<int>> {
        vertices_from(self.origin(), self.current_index())
    }

    pub fn new(origin: LatticePoint<DIM>) -> (neighborhood: Self)
        requires
            vertex_count(DIM as nat) <= usize::MAX,
            forall|d: int| 0 <= d < DIM ==> #[trigger] origin@[d] < i32::MAX,
        ensures
            neighborhood.wf(),
            neighborhood.origin() == origin@,
            neighborhood.current_index() == 0,
    {
        proof {
            origin.lemma_view();
        }
        Self { origin, current_index: 0, num_vertices: power(2, DIM) }
    }

    /// Hands out the next corner, if one is left.
    pub fn next(&mut self) -> (point: Option<LatticePoint<DIM>>)
        requires
            old(self).wf(),
        ensures
            final(self).wf(),
            final(self).origin() == old(self).origin(),
            match point {
                Some(point) => {
                    &&& old(self).remaining().len() > 0
                    &&& point@ == old(self).remaining()[0]
                    &&& final(self).remaining() == old(self).remaining().skip(1)
                },
                None => {
                    &&& old(self).remaining().len() == 0
                    &&& final(self).remaining().len() == 0
                },
            },
    {
        if self.current_index < self.num_vertices {
            proof {
                self.origin.lemma_view();
            }
            let point = displaced(self.origin, self.current_index, 2, 0);
            proof {
                assert(vertices_from(self.origin@, self.current_index as int).skip(1)
                    =~= vertices_from(self.origin@, self.current_index + 1));
            }
            self.current_index += 1;
            Some(point)
        } else {
            None
        }
    }

    /// Hands out all the corners that are left, in order.
    pub fn collect(self) -> (points: Vec<LatticePoint<DIM>>)
        requires
            self.wf(),
        ensures
            views(points@) == self.remaining(),
    {
        let mut neighborhood = self;
        let mut points: Vec<LatticePoint<DIM>> = Vec::new();
        loop
            invariant
                neighborhood.wf(),
                self.remaining() == views(points@) + neighborhood.remaining(),
            ensures
                views(points@) == self.remaining(),
            decreases neighborhood.num_vertices - neighborhood.current_index,
        {
            match neighborhood.next() {
                Some(point) => {
                    points.push(point);
                },
                None => {
                    break ;
                },
            }
        }
        points
    }
}

proof fn lemma_remaining_shrinks<const DIM: usize>(
    before: LatticeNeighborhood<DIM>,
    after: LatticeNeighborhood<DIM>,
)
    requires
        before.wf(),
        after.wf(),
        after.origin() == before.origin(),
        after.include_self() == before.include_self(),
        before.remaining().len() > 0,
        after.remaining() == before.remaining().skip(1),
    ensures
        after.current_index > before.current_index,
{
    if after.current_index <= before.current_index {
        lemma_neighbors_from_len(before.origin@, before.include_self, before.current_index as int);
        lemma_neighbors_from_len(before.origin@, before.include_self, after.current_index as int);
    }
}

/// How many neighbours are left from number `index` on.
pub proof fn lemma_neighbors_from_len(origin: Seq<int>, include_self: bool, index: int)
    requires
        0 <= index <= lattice_count(origin.len()),
    ensures
        neighbors_from(origin, include_self, index).len() == lattice_count(origin.len()) - index
            - if !include_self && index <= self_index(origin.len()) {
            1int
        } else {
            0int
        },
    decreases lattice_count(origin.len()) - index,
{
    lemma_pow_positive(3, origin.len());
    if index < lattice_count(origin.len()) {
        lemma_neighbors_from_len(origin, include_self, index + 1);
    }
}

/// Up to twenty dimensions the neighbours of a lattice point can be counted on every
/// machine, and up to thirty-one dimensions the corners of a hypercube.
pub proof fn lemma_counts_fit(dim: nat)
    ensures
        dim <= 20 ==> lattice_count(dim) <= usize::MAX,
        dim <= 31 ==> vertex_count(dim) <= usize::MAX,
{
    if dim <= 20 {
        lemma_pow_increases(3, dim, 20);
        assert(pow(3, 20) == 3486784401) by {
            reveal_with_fuel(pow, 21);
        }
    }
    if dim <= 31 {
        lemma_pow_increases(2, dim, 31);
        assert(pow(2, 31) == 2147483648) by {
            reveal_with_fuel(pow, 32);
        }
    }
}

/// A lattice point has three to the power of the dimension neighbours when it is counted
/// among them, and one fewer when it is not.
pub proof fn lemma_neighbor_count(origin: Seq<int>, include_self: bool)
    ensures
        neighbors_from(origin, include_self, 0).len() == if include_self {
            lattice_count(origin.len())
        } else {
            lattice_count(origin.len()) - 1
        },
{
    lemma_pow_positive(3, origin.len());
    lemma_neighbors_from_len(origin, include_self, 0);
}

/// The neighbour that stands at place `k` among those from number `index` on: the numbers
/// run on without a gap, but for the point's own number where it is left out.
pub proof fn lemma_neighbor_at(origin: Seq<int>, include_self: bool, index: int, k: int)
    requires
        0 <= index,
        0 <= k < neighbors_from(origin, include_self, index).len(),
    ensures
        neighbors_from(origin, include_self, index)[k] == lattice_neighbor(
            origin,
            if !include_self && index <= self_index(origin.len()) <= index + k {
                index + k + 1
            } else {
                index + k
            },
        ),
    decreases lattice_count(origin.len()) - index,
{
    if !include_self && index == self_index(origin.len()) {
        lemma_neighbor_at(origin, include_self, index + 1, k);
    } else if k > 0 {
        lemma_neighbor_at(origin, include_self, index + 1, k - 1);
    }
}

/// Three to the power of `dim` is odd, and its half grows threefold and by one from one
/// dimension to the next.
proof fn lemma_self_index_step(dim: nat)
    ensures
        lattice_count(dim) % 2 == 1,
        self_index(dim + 1) == 3 * self_index(dim) + 1,
    decreases dim,
{
    lemma_digit(0, 3, dim);
    if dim == 0 {
        lemma_pow0(3);
    } else {
        lemma_self_index_step((dim - 1) as nat);
        lemma_digit(0, 3, (dim - 1) as nat);
    }
}

/// The neighbour with the number in the middle is the point itself: it is this one that
/// is left out where a point is not counted among its neighbours.
pub proof fn lemma_self_is_center(origin: Seq<int>)
    ensures
        lattice_neighbor(origin, self_index(origin.len())) == origin,
{
    let dim = origin.len();
    let center = lattice_neighbor(origin, self_index(dim));
    assert forall|d: int| 0 <= d < dim implies #[trigger] center[d] == origin[d] by {
        lemma_center_digit(dim, d as nat);
    }
}

proof fn lemma_center_digit(dim: nat, place: nat)
    requires
        place < dim,
    ensures
        self_index(dim) / pow(3, place) == self_index((dim - place) as nat),
        digit(self_index(dim), 3, place) == 1,
    decreases place,
{
    lemma_pow_positive(3, dim);
    lemma_digit(self_index(dim), 3, place);
    if place == 0 {
        lemma_pow0(3);
    } else {
        lemma_center_digit(dim, (place - 1) as nat);
        lemma_digit(self_index(dim), 3, (place - 1) as nat);
        lemma_self_index_step((dim - place) as nat);
    }
    lemma_self_index_step((dim - place - 1) as nat);
}

/// The corner with number zero is the lowest corner itself.
pub proof fn lemma_lowest_corner_first(origin: Seq<int>)
    ensures
        hypercube_vertex(origin, 0) == origin,
{
    let first = hypercube_vertex(origin, 0);
    assert forall|d: int| 0 <= d < origin.len() implies #[trigger] first[d] == origin[d] by {
        lemma_digit(0, 2, d as nat);
    }
}

/// Every lattice neighbour lies within one step of the point along every axis, and every
/// corner of a unit hypercube at most one step above its lowest corner.
pub proof fn lemma_within_one_step(origin: Seq<int>, index: int, d: int)
    requires
        index >= 0,
        0 <= d < origin.len(),
    ensures
        origin[d] - 1 <= lattice_neighbor(origin, index)[d] <= origin[d] + 1,
        origin[d] <= hypercube_vertex(origin, index)[d] <= origin[d] + 1,
{
    lemma_digit(index, 3, d as nat);
    lemma_digit(index, 2, d as nat);
}

} // verus!
