use super::distance_metric::DistanceMetric;
use super::neighborhood::{lattice_count, neighbors_from, LatticeNeighborhood};
use vstd::bytes::{lemma_auto_spec_u32_to_from_le_bytes, spec_u32_to_le_bytes, u32_to_le_bytes};
use vstd::prelude::*;
use vstd::std_specs::convert::FromSpecImpl;
use vstd::std_specs::ops::{AddSpecImpl, DivSpecImpl, MulSpecImpl, RemSpecImpl, SubSpecImpl};
use vstd::std_specs::slice::into_iter_elts;

verus! {

/// Whether `value` can be held in a 32-bit signed coordinate.
pub open spec fn fits_i32(value: int) -> bool {
    i32::MIN <= value <= i32::MAX
}

/// Whether every element of `values` can be held in a 32-bit signed coordinate.
pub open spec fn all_fit_i32(values: Seq<int>) -> bool {
    forall|i: int| 0 <= i < values.len() ==> fits_i32(#[trigger] values[i])
}

/// The absolute value of `value`.
pub open spec fn abs_int(value: int) -> int {
    if value < 0 { -value } else { value }
}

/// The quotient of `lhs` by `rhs` rounded toward zero, as the machine divides signed
/// integers.
pub open spec fn trunc_div(lhs: int, rhs: int) -> int {
    if lhs >= 0 {
        if rhs >= 0 { lhs / rhs } else { -(lhs / (-rhs)) }
    } else {
        if rhs >= 0 { -((-lhs) / rhs) } else { (-lhs) / (-rhs) }
    }
}

/// What is left of `lhs` when `rhs` is taken out of it as often as `trunc_div` says: it
/// carries the sign of `lhs`.
pub open spec fn trunc_rem(lhs: int, rhs: int) -> int {
    lhs - rhs * trunc_div(lhs, rhs)
}

/// The sequence of length `len` whose elements all equal `value`.
pub open spec fn seq_fill(len: nat, value: int) -> Seq<int> {
    Seq::new(len, |i: int| value)
}

/// The sums of the elements of `lhs` and `rhs`, pair by pair.
pub open spec fn seq_add(lhs: Seq<int>, rhs: Seq<int>) -> Seq<int> {
    Seq::new(lhs.len(), |i: int| lhs[i] + rhs[i])
}

/// The differences of the elements of `lhs` and `rhs`, pair by pair.
pub open spec fn seq_sub(lhs: Seq<int>, rhs: Seq<int>) -> Seq<int> {
    Seq::new(lhs.len(), |i: int| lhs[i] - rhs[i])
}

/// The products of the elements of `lhs` and `rhs`, pair by pair.
pub open spec fn seq_mul(lhs: Seq<int>, rhs: Seq<int>) -> Seq<int> {
    Seq::new(lhs.len(), |i: int| lhs[i] * rhs[i])
}

/// The quotients of the elements of `lhs` by those of `rhs`, pair by pair, rounded toward
/// zero.
pub open spec fn seq_div(lhs: Seq<int>, rhs: Seq<int>) -> Seq<int> {
    Seq::new(lhs.len(), |i: int| trunc_div(lhs[i], rhs[i]))
}

/// The remainders of the elements of `lhs` by those of `rhs`, pair by pair.
pub open spec fn seq_rem(lhs: Seq<int>, rhs: Seq<int>) -> Seq<int> {
    Seq::new(lhs.len(), |i: int| trunc_rem(lhs[i], rhs[i]))
}

/// The absolute values of the elements of `values`.
pub open spec fn seq_abs(values: Seq<int>) -> Seq<int> {
    Seq::new(values.len(), |i: int| abs_int(values[i]))
}

/// No element of `values` is zero.
pub open spec fn none_zero(values: Seq<int>) -> bool {
    forall|i: int| 0 <= i < values.len() ==> #[trigger] values[i] != 0
}

/// The sum of the elements of `values`.
pub open spec fn seq_sum(values: Seq<int>) -> int
    decreases values.len(),
{
    if values.len() == 0 {
        0
    } else {
        seq_sum(values.drop_last()) + values.last()
    }
}

/// Whether the sum of every prefix of `values` can be held in a 32-bit signed integer, so
/// that adding the elements up from the first to the last never leaves the machine's range.
pub open spec fn running_sums_fit(values: Seq<int>) -> bool {
    forall|k: int| 0 <= k <= values.len() ==> fits_i32(#[trigger] seq_sum(values.take(k)))
}

/// The bytes that stand for `coordinates`: four for each coordinate, in the order of the
/// coordinates, each coordinate in two's complement with its low byte first.
pub open spec fn lattice_encoding(coordinates: Seq<int>) -> Seq<u8> {
    Seq::new(
        4 * coordinates.len(),
        |i: int| spec_u32_to_le_bytes(coordinates[i / 4] as u32)[i % 4],
    )
}

/// The quotient of `lhs` by `rhs`, as the machine computes it.
fn quotient(lhs: i32, rhs: i32) -> (q: i32)
    requires
        rhs != 0,
        fits_i32(trunc_div(lhs as int, rhs as int)),
    ensures
        q == trunc_div(lhs as int, rhs as int),
{
    let ghost x = lhs as int;
    let ghost y = rhs as int;
    proof {
        lemma_trunc_div(x, y);
        assert(x == i32::MIN && y == -1 ==> trunc_div(x, y) == -x) by (nonlinear_arith);
    }
    lhs / rhs
}

/// The remainder of `lhs` by `rhs`, as the machine computes it.
fn remainder(lhs: i32, rhs: i32) -> (r: i32)
    requires
        rhs != 0,
        fits_i32(trunc_div(lhs as int, rhs as int)),
    ensures
        r == trunc_rem(lhs as int, rhs as int),
{
    let ghost x = lhs as int;
    let ghost y = rhs as int;
    proof {
        lemma_trunc_div(x, y);
        assert(x == i32::MIN && y == -1 ==> trunc_div(x, y) == -x) by (nonlinear_arith);
    }
    lhs % rhs
}

/// Division rounds toward zero: the quotient is no larger in size than the dividend, and
/// the remainder is smaller in size than the divisor. Both are tied here to the flooring
/// division of ghost code.
pub proof fn lemma_trunc_div(x: int, y: int)
    requires
        y != 0,
    ensures
        x >= 0 ==> trunc_div(x, y) == x / y,
        x < 0 ==> trunc_div(x, y) == -((-x) / y),
        abs_int(trunc_div(x, y)) <= abs_int(x),
        x >= 0 ==> trunc_rem(x, y) == x % y,
        x < 0 ==> trunc_rem(x, y) == -((-x) % y),
        abs_int(trunc_rem(x, y)) < abs_int(y),
{
    let a = abs_int(x);
    let b = abs_int(y);
    assert(0 <= a / b <= a && a == b * (a / b) + a % b && 0 <= a % b < b) by (nonlinear_arith)
        requires
            a >= 0,
            b > 0,
    ;
    if y < 0 {
        assert(y < 0 ==> a / y == -(a / (-y))) by (nonlinear_arith)
            requires
                y != 0,
        ;
        vstd::arithmetic::div_mod::lemma_fundamental_div_mod(a, y);
        let q = a / b;
        assert(y * (-q) == -(y * q) && y * q == -(b * q)) by (nonlinear_arith)
            requires
                b == -y,
        ;
    }
    assert(y * -(a / b) == -(y * (a / b))) by (nonlinear_arith);
}

/// A point of the integer lattice in `DIM` dimensions.
///
/// Its view is the sequence of its coordinates, in order, as mathematical integers.
#[derive(Copy, Clone, PartialEq, Eq, Hash, Debug)]
pub struct LatticePoint<const DIM: usize> {
    coordinates: [i32; DIM],
}

impl<const DIM: usize> View for LatticePoint<DIM> {
    type V = Seq<int>;

    closed spec fn view(&self) -> Seq<int> {
        Seq::new(DIM as nat, |i: int| self.coordinates[i] as int)
    }
}

impl<const DIM: usize> LatticePoint<DIM> {
    /// The point whose coordinates are `coordinates`.
    pub closed spec fn with_view(coordinates: Seq<int>) -> Self {
        choose|point: Self| point@ == coordinates
    }

    /// A point has `DIM` coordinates, each within the 32-bit signed range, and is determined
    /// by them.
    pub proof fn lemma_view(self)
        ensures
            self@.len() == DIM,
            all_fit_i32(self@),
            Self::with_view(self@) == self,
    {
        let other = Self::with_view(self@);
        assert forall|i: int| 0 <= i < DIM implies other.coordinates[i] == self.coordinates[i] by {
            assert(other@[i] == self@[i]);
        }
        assert(other.coordinates =~= self.coordinates);
    }

    /// The point with the coordinates `coordinates`.
    pub fn new(coordinates: [i32; DIM]) -> (point: Self)
        ensures
            point@.len() == DIM,
            forall|i: int| 0 <= i < DIM ==> point@[i] == coordinates[i],
    {
        Self { coordinates }
    }

    /// The point whose coordinates are all zero.
    pub fn origin() -> (point: Self)
        ensures
            point@ == seq_fill(DIM as nat, 0),
    {
        Self { coordinates: [0_i32; DIM] }
    }

    /// The point whose coordinates all equal `scalar`.
    pub fn diagonal(scalar: i32) -> (point: Self)
        ensures
            point@ == seq_fill(DIM as nat, scalar as int),
    {
        Self { coordinates: [scalar; DIM] }
    }

    /// Walks through the coordinates, from the first to the last.
    pub fn iter(&self) -> (iter: core::slice::Iter<'_, i32>)
        ensures
            into_iter_elts(iter).len() == DIM,
            forall|i: int| 0 <= i < DIM ==> into_iter_elts(iter)[i] == self@[i],
    {
        let iter = self.coordinates.iter();
        proof {
            broadcast use vstd::std_specs::slice::axiom_spec_slice_iter;
        }
        iter
    }

    /// The points next to this one, without the point itself. They can be counted on every
    /// machine up to twenty dimensions (`lemma_counts_fit`).
    pub fn neighbors(self) -> (neighborhood: LatticeNeighborhood<DIM>)
        requires
            lattice_count(DIM as nat) <= usize::MAX,
            forall|d: int| 0 <= d < DIM ==> i32::MIN < #[trigger] self@[d] < i32::MAX,
        ensures
            neighborhood.wf(),
            neighborhood.remaining() == neighbors_from(self@, false, 0),
    {
        LatticeNeighborhood::<DIM>::new(self, false)
    }

    /// The points next to this one, and the point itself in their midst.
    pub fn neighbors_and_self(self) -> (neighborhood: LatticeNeighborhood<DIM>)
        requires
            lattice_count(DIM as nat) <= usize::MAX,
            forall|d: int| 0 <= d < DIM ==> i32::MIN < #[trigger] self@[d] < i32::MAX,
        ensures
            neighborhood.wf(),
            neighborhood.remaining() == neighbors_from(self@, true, 0),
    {
        LatticeNeighborhood::<DIM>::new(self, true)
    }

    /// The point of the absolute values of the coordinates.
    pub fn abs(&self) -> (point: Self)
        requires
            forall|i: int| 0 <= i < DIM ==> #[trigger] self@[i] != i32::MIN,
        ensures
            point@ == seq_abs(self@),
    {
        let mut coordinates = self.coordinates;
        let mut idx: usize = 0;
        while idx < DIM
            invariant
                idx <= DIM,
                forall|i: int| 0 <= i < DIM ==> #[trigger] self@[i] != i32::MIN,
                forall|i: int| 0 <= i < idx ==> coordinates[i] == abs_int(self@[i]),
            decreases DIM - idx,
        {
            let coordinate = self.coordinates[idx];
            assert(self@[idx as int] != i32::MIN);
            coordinates[idx] = if coordinate < 0 { -coordinate } else { coordinate };
            idx += 1;
        }
        Self { coordinates }
    }

    /// The sum of the coordinates, added up from the first to the last.
    pub fn sum(self) -> (total: i32)
        requires
            running_sums_fit(self@),
        ensures
            total == seq_sum(self@),
    {
        let mut total: i32 = 0;
        let mut idx: usize = 0;
        while idx < DIM
            invariant
                idx <= DIM,
                running_sums_fit(self@),
                total == seq_sum(self@.take(idx as int)),
            decreases DIM - idx,
        {
            proof {
                let next = self@.take(idx + 1);
                assert(next.drop_last() =~= self@.take(idx as int));
                assert(fits_i32(seq_sum(next)));
            }
            total = total + self.coordinates[idx];
            idx += 1;
        }
        assert(self@.take(DIM as int) =~= self@);
        total
    }

    /// The sum of the products of the coordinates of `self` and `rhs`, pair by pair.
    pub fn dot_product(self, rhs: Self) -> (product: i32)
        requires
            all_fit_i32(seq_mul(self@, rhs@)),
            running_sums_fit(seq_mul(self@, rhs@)),
        ensures
            product == seq_sum(seq_mul(self@, rhs@)),
    {
        (self * rhs).sum()
    }

    /// How long the vector from the origin to this point is under the metric `T`.
    pub fn magnitude<T: DistanceMetric>(self) -> (magnitude: i32)
        requires
            T::lattice_req(self@),
        ensures
            magnitude == T::lattice_norm(self@),
            magnitude >= 0,
    {
        T::lattice_magnitude::<DIM>(self)
    }

    /// The bytes that stand for this point where it is hashed: four for each coordinate, low
    /// byte first.
    pub fn as_bytes(&self) -> (bytes: Vec<u8>)
        ensures
            bytes@ == lattice_encoding(self@),
    {
        let mut bytes: Vec<u8> = Vec::new();
        let mut idx: usize = 0;
        proof {
            lemma_auto_spec_u32_to_from_le_bytes();
        }
        while idx < DIM
            invariant
                idx <= DIM,
                bytes@ == lattice_encoding(self@.take(idx as int)),
                forall|x: u32| #[trigger] spec_u32_to_le_bytes(x).len() == 4,
            decreases DIM - idx,
        {
            let coordinate = self.coordinates[idx];
            let mut word = u32_to_le_bytes(coordinate as u32);
            bytes.append(&mut word);
            idx += 1;
        }
        bytes
    }
}

impl<const DIM: usize> FromSpecImpl<[i32; DIM]> for LatticePoint<DIM> {
    open spec fn obeys_from_spec() -> bool {
        true
    }

    open spec fn from_spec(coordinates: [i32; DIM]) -> Self {
        Self::with_view(Seq::new(DIM as nat, |i: int| coordinates[i] as int))
    }
}

impl<const DIM: usize> From<[i32; DIM]> for LatticePoint<DIM> {
    fn from(coordinates: [i32; DIM]) -> (point: Self)
        ensures
            point@.len() == DIM,
            forall|i: int| 0 <= i < DIM ==> point@[i] == coordinates[i],
    {
        let point = Self { coordinates };
        proof {
            point.lemma_view();
        }
        point
    }
}

impl<const DIM: usize> vstd::std_specs::core::IndexSpecImpl<usize> for LatticePoint<DIM> {
    open spec fn index_req(&self, index: &usize) -> bool {
        *index < DIM
    }
}

impl<const DIM: usize> core::ops::Index<usize> for LatticePoint<DIM> {
    type Output = i32;

    fn index(&self, idx: usize) -> (coordinate: &i32)
        ensures
            *coordinate == self@[idx as int],
    {
        &self.coordinates[idx]
    }
}

impl<const DIM: usize> core::ops::IndexMut<usize> for LatticePoint<DIM> {
    fn index_mut(&mut self, idx: usize) -> (coordinate: &mut i32)
        requires
            idx < DIM,
        ensures
            *coordinate == old(self)@[idx as int],
            final(self)@ == old(self)@.update(idx as int, *final(coordinate) as int),
    {
        &mut self.coordinates[idx]
    }
}

// Addition, coordinate by coordinate.

impl<const DIM: usize> AddSpecImpl for LatticePoint<DIM> {
    open spec fn obeys_add_spec() -> bool {
        true
    }

    open spec fn add_req(self, rhs: Self) -> bool {
        all_fit_i32(seq_add(self@, rhs@))
    }

    open spec fn add_spec(self, rhs: Self) -> Self {
        Self::with_view(seq_add(self@, rhs@))
    }
}

impl<const DIM: usize> core::ops::Add for LatticePoint<DIM> {
    type Output = Self;

    fn add(self, rhs: Self) -> (sum: Self)
        ensures
            sum@ == seq_add(self@, rhs@),
    {
        let mut coordinates = self.coordinates;
        let mut idx: usize = 0;
        while idx < DIM
            invariant
                idx <= DIM,
                all_fit_i32(seq_add(self@, rhs@)),
                forall|i: int| 0 <= i < idx ==> coordinates[i] == self@[i] + rhs@[i],
            decreases DIM - idx,
        {
            assert(fits_i32(seq_add(self@, rhs@)[idx as int]));
            coordinates[idx] = self.coordinates[idx] + rhs.coordinates[idx];
            idx += 1;
        }
        let sum = Self { coordinates };
        proof {
            assert(sum@ =~= seq_add(self@, rhs@));
            sum.lemma_view();
        }
        sum
    }
}

impl<const DIM: usize> AddSpecImpl<i32> for LatticePoint<DIM> {
    open spec fn obeys_add_spec() -> bool {
        true
    }

    open spec fn add_req(self, scalar: i32) -> bool {
        all_fit_i32(seq_add(self@, seq_fill(DIM as nat, scalar as int)))
    }

    open spec fn add_spec(self, scalar: i32) -> Self {
        Self::with_view(seq_add(self@, seq_fill(DIM as nat, scalar as int)))
    }
}

impl<const DIM: usize> core::ops::Add<i32> for LatticePoint<DIM> {
    type Output = Self;

    fn add(self, scalar: i32) -> (sum: Self)
        ensures
            sum@ == seq_add(self@, seq_fill(DIM as nat, scalar as int)),
    {
        let sum = self + Self::diagonal(scalar);
        proof {
            sum.lemma_view();
        }
        sum
    }
}

impl<const DIM: usize> core::ops::AddAssign for LatticePoint<DIM> {
    fn add_assign(&mut self, rhs: Self)
        requires
            all_fit_i32(seq_add(old(self)@, rhs@)),
        ensures
            final(self)@ == seq_add(old(self)@, rhs@),
    {
        *self = *self + rhs;
    }
}

impl<const DIM: usize> core::ops::AddAssign<i32> for LatticePoint<DIM> {
    fn add_assign(&mut self, scalar: i32)
        requires
            all_fit_i32(seq_add(old(self)@, seq_fill(DIM as nat, scalar as int))),
        ensures
            final(self)@ == seq_add(old(self)@, seq_fill(DIM as nat, scalar as int)),
    {
        *self = *self + scalar;
    }
}

// Subtraction, coordinate by coordinate.

impl<const DIM: usize> SubSpecImpl for LatticePoint<DIM> {
    open spec fn obeys_sub_spec() -> bool {
        true
    }

    open spec fn sub_req(self, rhs: Self) -> bool {
        all_fit_i32(seq_sub(self@, rhs@))
    }

    open spec fn sub_spec(self, rhs: Self) -> Self {
        Self::with_view(seq_sub(self@, rhs@))
    }
}

impl<const DIM: usize> core::ops::Sub for LatticePoint<DIM> {
    type Output = Self;

    fn sub(self, rhs: Self) -> (difference: Self)
        ensures
            difference@ == seq_sub(self@, rhs@),
    {
        let mut coordinates = self.coordinates;
        let mut idx: usize = 0;
        while idx < DIM
            invariant
                idx <= DIM,
                all_fit_i32(seq_sub(self@, rhs@)),
                forall|i: int| 0 <= i < idx ==> coordinates[i] == self@[i] - rhs@[i],
            decreases DIM - idx,
        {
            assert(fits_i32(seq_sub(self@, rhs@)[idx as int]));
            coordinates[idx] = self.coordinates[idx] - rhs.coordinates[idx];
            idx += 1;
        }
        let difference = Self { coordinates };
        proof {
            assert(difference@ =~= seq_sub(self@, rhs@));
            difference.lemma_view();
        }
        difference
    }
}

impl<const DIM: usize> SubSpecImpl<i32> for LatticePoint<DIM> {
    open spec fn obeys_sub_spec() -> bool {
        true
    }

    open spec fn sub_req(self, scalar: i32) -> bool {
        all_fit_i32(seq_sub(self@, seq_fill(DIM as nat, scalar as int)))
    }

    open spec fn sub_spec(self, scalar: i32) -> Self {
        Self::with_view(seq_sub(self@, seq_fill(DIM as nat, scalar as int)))
    }
}

impl<const DIM: usize> core::ops::Sub<i32> for LatticePoint<DIM> {
    type Output = Self;

    fn sub(self, scalar: i32) -> (difference: Self)
        ensures
            difference@ == seq_sub(self@, seq_fill(DIM as nat, scalar as int)),
    {
        let difference = self - Self::diagonal(scalar);
        proof {
            difference.lemma_view();
        }
        difference
    }
}

impl<const DIM: usize> core::ops::SubAssign for LatticePoint<DIM> {
    fn sub_assign(&mut self, rhs: Self)
        requires
            all_fit_i32(seq_sub(old(self)@, rhs@)),
        ensures
            final(self)@ == seq_sub(old(self)@, rhs@),
    {
        *self = *self - rhs;
    }
}

impl<const DIM: usize> core::ops::SubAssign<i32> for LatticePoint<DIM> {
    fn sub_assign(&mut self, scalar: i32)
        requires
            all_fit_i32(seq_sub(old(self)@, seq_fill(DIM as nat, scalar as int))),
        ensures
            final(self)@ == seq_sub(old(self)@, seq_fill(DIM as nat, scalar as int)),
    {
        *self = *self - scalar;
    }
}

// Multiplication, coordinate by coordinate.

impl<const DIM: usize> MulSpecImpl for LatticePoint<DIM> {
    open spec fn obeys_mul_spec() -> bool {
        true
    }

    open spec fn mul_req(self, rhs: Self) -> bool {
        all_fit_i32(seq_mul(self@, rhs@))
    }

    open spec fn mul_spec(self, rhs: Self) -> Self {
        Self::with_view(seq_mul(self@, rhs@))
    }
}

impl<const DIM: usize> core::ops::Mul for LatticePoint<DIM> {
    type Output = Self;

    fn mul(self, rhs: Self) -> (product: Self)
        ensures
            product@ == seq_mul(self@, rhs@),
    {
        let mut coordinates = self.coordinates;
        let mut idx: usize = 0;
        while idx < DIM
            invariant
                idx <= DIM,
                all_fit_i32(seq_mul(self@, rhs@)),
                forall|i: int| 0 <= i < idx ==> coordinates[i] == self@[i] * rhs@[i],
            decreases DIM - idx,
        {
            assert(fits_i32(seq_mul(self@, rhs@)[idx as int]));
            coordinates[idx] = self.coordinates[idx] * rhs.coordinates[idx];
            idx += 1;
        }
        let product = Self { coordinates };
        proof {
            assert(product@ =~= seq_mul(self@, rhs@));
            product.lemma_view();
        }
        product
    }
}

impl<const DIM: usize> MulSpecImpl<i32> for LatticePoint<DIM> {
    open spec fn obeys_mul_spec() -> bool {
        true
    }

    open spec fn mul_req(self, scalar: i32) -> bool {
        all_fit_i32(seq_mul(self@, seq_fill(DIM as nat, scalar as int)))
    }

    open spec fn mul_spec(self, scalar: i32) -> Self {
        Self::with_view(seq_mul(self@, seq_fill(DIM as nat, scalar as int)))
    }
}

impl<const DIM: usize> core::ops::Mul<i32> for LatticePoint<DIM> {
    type Output = Self;

    fn mul(self, scalar: i32) -> (product: Self)
        ensures
            product@ == seq_mul(self@, seq_fill(DIM as nat, scalar as int)),
    {
        let product = self * Self::diagonal(scalar);
        proof {
            product.lemma_view();
        }
        product
    }
}

impl<const DIM: usize> core::ops::MulAssign for LatticePoint<DIM> {
    fn mul_assign(&mut self, rhs: Self)
        requires
            all_fit_i32(seq_mul(old(self)@, rhs@)),
        ensures
            final(self)@ == seq_mul(old(self)@, rhs@),
    {
        *self = *self * rhs;
    }
}

impl<const DIM: usize> core::ops::MulAssign<i32> for LatticePoint<DIM> {
    fn mul_assign(&mut self, scalar: i32)
        requires
            all_fit_i32(seq_mul(old(self)@, seq_fill(DIM as nat, scalar as int))),
        ensures
            final(self)@ == seq_mul(old(self)@, seq_fill(DIM as nat, scalar as int)),
    {
        *self = *self * scalar;
    }
}

// Division, coordinate by coordinate.

impl<const DIM: usize> DivSpecImpl for LatticePoint<DIM> {
    open spec fn obeys_div_spec() -> bool {
        true
    }

    open spec fn div_req(self, rhs: Self) -> bool {
        none_zero(rhs@) && all_fit_i32(seq_div(self@, rhs@))
    }

    open spec fn div_spec(self, rhs: Self) -> Self {
        Self::with_view(seq_div(self@, rhs@))
    }
}

impl<const DIM: usize> core::ops::Div for LatticePoint<DIM> {
    type Output = Self;

    fn div(self, rhs: Self) -> (quotient: Self)
        ensures
            quotient@ == seq_div(self@, rhs@),
    {
        let mut coordinates = self.coordinates;
        let mut idx: usize = 0;
        while idx < DIM
            invariant
                idx <= DIM,
                none_zero(rhs@),
                all_fit_i32(seq_div(self@, rhs@)),
                forall|i: int| 0 <= i < idx ==> coordinates[i] == trunc_div(self@[i], rhs@[i]),
            decreases DIM - idx,
        {
            assert(fits_i32(seq_div(self@, rhs@)[idx as int]));
            coordinates[idx] = quotient(self.coordinates[idx], rhs.coordinates[idx]);
            idx += 1;
        }
        let quotient = Self { coordinates };
        proof {
            assert(quotient@ =~= seq_div(self@, rhs@));
            quotient.lemma_view();
        }
        quotient
    }
}

impl<const DIM: usize> DivSpecImpl<i32> for LatticePoint<DIM> {
    open spec fn obeys_div_spec() -> bool {
        true
    }

    open spec fn div_req(self, scalar: i32) -> bool {
        none_zero(seq_fill(DIM as nat, scalar as int)) && all_fit_i32(seq_div(self@, seq_fill(DIM as nat, scalar as int)))
    }

    open spec fn div_spec(self, scalar: i32) -> Self {
        Self::with_view(seq_div(self@, seq_fill(DIM as nat, scalar as int)))
    }
}

impl<const DIM: usize> core::ops::Div<i32> for LatticePoint<DIM> {
    type Output = Self;

    fn div(self, scalar: i32) -> (quotient: Self)
        ensures
            quotient@ == seq_div(self@, seq_fill(DIM as nat, scalar as int)),
    {
        let quotient = self / Self::diagonal(scalar);
        proof {
            quotient.lemma_view();
        }
        quotient
    }
}

impl<const DIM: usize> core::ops::DivAssign for LatticePoint<DIM> {
    fn div_assign(&mut self, rhs: Self)
        requires
            none_zero(rhs@) && all_fit_i32(seq_div(old(self)@, rhs@)),
        ensures
            final(self)@ == seq_div(old(self)@, rhs@),
    {
        *self = *self / rhs;
    }
}

impl<const DIM: usize> core::ops::DivAssign<i32> for LatticePoint<DIM> {
    fn div_assign(&mut self, scalar: i32)
        requires
            none_zero(seq_fill(DIM as nat, scalar as int)) && all_fit_i32(seq_div(old(self)@, seq_fill(DIM as nat, scalar as int))),
        ensures
            final(self)@ == seq_div(old(self)@, seq_fill(DIM as nat, scalar as int)),
    {
        *self = *self / scalar;
    }
}

// Remainder, coordinate by coordinate.

impl<const DIM: usize> RemSpecImpl for LatticePoint<DIM> {
    open spec fn obeys_rem_spec() -> bool {
        true
    }

    open spec fn rem_req(self, rhs: Self) -> bool {
        none_zero(rhs@) && all_fit_i32(seq_div(self@, rhs@))
    }

    open spec fn rem_spec(self, rhs: Self) -> Self {
        Self::with_view(seq_rem(self@, rhs@))
    }
}

impl<const DIM: usize> core::ops::Rem for LatticePoint<DIM> {
    type Output = Self;

    fn rem(self, rhs: Self) -> (remainder: Self)
        ensures
            remainder@ == seq_rem(self@, rhs@),
    {
        let mut coordinates = self.coordinates;
        let mut idx: usize = 0;
        while idx < DIM
            invariant
                idx <= DIM,
                none_zero(rhs@),
                all_fit_i32(seq_div(self@, rhs@)),
                forall|i: int| 0 <= i < idx ==> coordinates[i] == trunc_rem(self@[i], rhs@[i]),
            decreases DIM - idx,
        {
            assert(fits_i32(seq_div(self@, rhs@)[idx as int]));
            coordinates[idx] = remainder(self.coordinates[idx], rhs.coordinates[idx]);
            idx += 1;
        }
        let remainder = Self { coordinates };
        proof {
            assert(remainder@ =~= seq_rem(self@, rhs@));
            remainder.lemma_view();
        }
        remainder
    }
}

impl<const DIM: usize> RemSpecImpl<i32> for LatticePoint<DIM> {
    open spec fn obeys_rem_spec() -> bool {
        true
    }

    open spec fn rem_req(self, scalar: i32) -> bool {
        none_zero(seq_fill(DIM as nat, scalar as int)) && all_fit_i32(seq_div(self@, seq_fill(DIM as nat, scalar as int)))
    }

    open spec fn rem_spec(self, scalar: i32) -> Self {
        Self::with_view(seq_rem(self@, seq_fill(DIM as nat, scalar as int)))
    }
}

impl<const DIM: usize> core::ops::Rem<i32> for LatticePoint<DIM> {
    type Output = Self;

    fn rem(self, scalar: i32) -> (remainder: Self)
        ensures
            remainder@ == seq_rem(self@, seq_fill(DIM as nat, scalar as int)),
    {
        let remainder = self % Self::diagonal(scalar);
        proof {
            remainder.lemma_view();
        }
        remainder
    }
}

impl<const DIM: usize> core::ops::RemAssign for LatticePoint<DIM> {
    fn rem_assign(&mut self, rhs: Self)
        requires
            none_zero(rhs@) && all_fit_i32(seq_div(old(self)@, rhs@)),
        ensures
            final(self)@ == seq_rem(old(self)@, rhs@),
    {
        *self = *self % rhs;
    }
}

impl<const DIM: usize> core::ops::RemAssign<i32> for LatticePoint<DIM> {
    fn rem_assign(&mut self, scalar: i32)
        requires
            none_zero(seq_fill(DIM as nat, scalar as int)) && all_fit_i32(seq_div(old(self)@, seq_fill(DIM as nat, scalar as int))),
        ensures
            final(self)@ == seq_rem(old(self)@, seq_fill(DIM as nat, scalar as int)),
    {
        *self = *self % scalar;
    }
}

} // verus!
