use super::lattice_point::{
    abs_int, all_fit_i32, fits_i32, running_sums_fit, seq_abs, seq_fill, seq_mul, seq_sum,
    LatticePoint,
};
use vstd::prelude::*;

verus! {

/// The largest absolute value among `values`; zero where there is none.
pub open spec fn max_abs(values: Seq<int>) -> int
    decreases values.len(),
{
    if values.len() == 0 {
        0
    } else {
        let rest = max_abs(values.drop_last());
        let last = abs_int(values.last());
        if last > rest { last } else { rest }
    }
}

/// Whether `root` is the integer nearest to the square root of `square`.
pub open spec fn is_nearest_root(square: int, root: int) -> bool {
    &&& root >= 0
    &&& square <= root * root + root
    &&& root == 0 || root * root - root < square
}

/// The integer nearest to the square root of `square` (a square root of an integer never
/// lies halfway between two integers).
pub open spec fn nearest_root(square: int) -> int {
    choose|root: int| is_nearest_root(square, root)
}

/// A way to measure how long a vector is.
pub trait DistanceMetric {
    /// The inputs for which the magnitude of a lattice point can be computed within the
    /// 32-bit signed range.
    spec fn lattice_req(coordinates: Seq<int>) -> bool;

    /// The magnitude that the metric gives to a lattice point with these coordinates.
    spec fn lattice_norm(coordinates: Seq<int>) -> int;

    fn lattice_magnitude<const DIM: usize>(point: LatticePoint<DIM>) -> (magnitude: i32)
        requires
            Self::lattice_req(point@),
        ensures
            magnitude == Self::lattice_norm(point@),
            magnitude >= 0,
    ;

    /// No lattice point has a negative magnitude.
    proof fn lemma_norm_nonnegative(coordinates: Seq<int>)
        ensures
            Self::lattice_norm(coordinates) >= 0,
    ;

    /// The origin has magnitude zero, in every dimension.
    proof fn lemma_norm_of_origin(dim: nat)
        ensures
            Self::lattice_norm(seq_fill(dim, 0)) == 0,
    ;
}

/// The largest absolute coordinate.
#[derive(Copy, Clone, PartialEq, Eq, Debug)]
pub struct ChebyshevMetric;

/// The root of the sum of the squared coordinates.
#[derive(Copy, Clone, PartialEq, Eq, Debug)]
pub struct EuclideanMetric;

/// The sum of the absolute coordinates.
#[derive(Copy, Clone, PartialEq, Eq, Debug)]
pub struct ManhattanMetric;

/// The generalised norm with exponent `P / Q`. It gives lattice points no magnitude of their
/// own: `lattice_magnitude` is zero throughout.
#[derive(Copy, Clone, PartialEq, Eq, Debug)]
pub struct MinkowskiMetric<const P: u32, const Q: u32>;

/// `max_abs` is an upper bound of the absolute values, and one of them.
pub proof fn lemma_max_abs(values: Seq<int>)
    ensures
        max_abs(values) >= 0,
        forall|i: int| 0 <= i < values.len() ==> abs_int(#[trigger] values[i]) <= max_abs(values),
        values.len() > 0 ==> exists|i: int|
            0 <= i < values.len() && max_abs(values) == abs_int(#[trigger] values[i]),
    decreases values.len(),
{
    if values.len() > 0 {
        let front = values.drop_last();
        lemma_max_abs(front);
        assert forall|i: int| 0 <= i < values.len() implies abs_int(#[trigger] values[i])
            <= max_abs(values) by {
            if i < front.len() {
                assert(front[i] == values[i]);
            }
        }
    }
}

/// The sum of a sequence of nonnegative numbers is nonnegative, and grows with every element.
pub proof fn lemma_sum_of_nonnegative(values: Seq<int>, k: int)
    requires
        forall|i: int| 0 <= i < values.len() ==> #[trigger] values[i] >= 0,
        0 <= k <= values.len(),
    ensures
        0 <= seq_sum(values.take(k)) <= seq_sum(values),
    decreases values.len() - k,
{
    if k == values.len() {
        assert(values.take(k) =~= values);
        lemma_sum_nonnegative(values);
    } else {
        lemma_sum_of_nonnegative(values, k + 1);
        assert(values.take(k + 1).drop_last() =~= values.take(k));
        lemma_sum_nonnegative(values.take(k));
    }
}

proof fn lemma_sum_nonnegative(values: Seq<int>)
    requires
        forall|i: int| 0 <= i < values.len() ==> #[trigger] values[i] >= 0,
    ensures
        seq_sum(values) >= 0,
    decreases values.len(),
{
    if values.len() > 0 {
        lemma_sum_nonnegative(values.drop_last());
    }
}

proof fn lemma_sum_of_zeros(len: nat)
    ensures
        seq_sum(seq_fill(len, 0)) == 0,
    decreases len,
{
    if len > 0 {
        assert(seq_fill(len, 0).drop_last() =~= seq_fill((len - 1) as nat, 0));
        lemma_sum_of_zeros((len - 1) as nat);
    }
}

/// Every nonnegative integer has exactly one nearest root.
pub proof fn lemma_nearest_root(square: int)
    requires
        square >= 0,
    ensures
        is_nearest_root(square, nearest_root(square)),
        forall|root: int| is_nearest_root(square, root) ==> root == nearest_root(square),
    decreases square,
{
    if square == 0 {
        assert(is_nearest_root(0, 0));
    } else {
        lemma_nearest_root(square - 1);
        let below = nearest_root(square - 1);
        if square <= below * below + below {
            assert(is_nearest_root(square, below));
        } else {
            assert(is_nearest_root(square, below + 1)) by (nonlinear_arith)
                requires
                    below >= 0,
                    square == below * below + below + 1,
            ;
        }
    }
    let chosen = nearest_root(square);
    assert forall|root: int| is_nearest_root(square, root) implies root == chosen by {
        lemma_nearest_root_unique(square, root, chosen);
    }
}

proof fn lemma_nearest_root_unique(square: int, a: int, b: int)
    requires
        is_nearest_root(square, a),
        is_nearest_root(square, b),
    ensures
        a == b,
{
    if a < b {
        assert(a * a + a <= b * b - b) by (nonlinear_arith)
            requires
                0 <= a,
                a + 1 <= b,
        ;
    } else if b < a {
        assert(b * b + b <= a * a - a) by (nonlinear_arith)
            requires
                0 <= b,
                b + 1 <= a,
        ;
    }
}

/// The integer nearest to the square root of `square`.
fn rounded_root(square: i32) -> (root: i32)
    requires
        square >= 0,
    ensures
        root == nearest_root(square as int),
        root >= 0,
{
    let mut low: i32 = 0;
    let mut high: i32 = 46341;
    while high - low > 1
        invariant
            0 <= low < high <= 46341,
            low * low <= square < high * high,
        decreases high - low,
    {
        let mid = low + (high - low) / 2;
        assert(mid * mid <= 46340 * 46340) by (nonlinear_arith)
            requires
                0 <= mid <= 46340,
        ;
        if mid * mid <= square {
            low = mid;
        } else {
            high = mid;
        }
    }
    assert(low * low <= 46340 * 46340) by (nonlinear_arith)
        requires
            0 <= low <= 46340,
    ;
    assert((low + 1) * (low + 1) == low * low + 2 * low + 1) by (nonlinear_arith);
    let root = if square - low * low > low { low + 1 } else { low };
    proof {
        assert(is_nearest_root(square as int, root as int)) by (nonlinear_arith)
            requires
                0 <= low,
                low * low <= square < low * low + 2 * low + 1,
                square - low * low > low ==> root == low + 1,
                square - low * low <= low ==> root == low,
        ;
        lemma_nearest_root(square as int);
    }
    root
}

impl DistanceMetric for ChebyshevMetric {
    /// There is a coordinate, and each has an absolute value within range.
    open spec fn lattice_req(coordinates: Seq<int>) -> bool {
        &&& coordinates.len() > 0
        &&& forall|i: int| 0 <= i < coordinates.len() ==> #[trigger] coordinates[i] != i32::MIN
    }

    open spec fn lattice_norm(coordinates: Seq<int>) -> int {
        max_abs(coordinates)
    }

    fn lattice_magnitude<const DIM: usize>(point: LatticePoint<DIM>) -> (magnitude: i32) {
        proof {
            point.lemma_view();
            lemma_max_abs(point@);
        }
        let distances = point.abs();
        let mut magnitude: i32 = 0;
        let mut idx: usize = 0;
        while idx < DIM
            invariant
                idx <= DIM,
                point@.len() == DIM,
                distances@ == seq_abs(point@),
                magnitude == max_abs(point@.take(idx as int)),
            decreases DIM - idx,
        {
            proof {
                let next = point@.take(idx + 1);
                assert(next.drop_last() =~= point@.take(idx as int));
            }
            let distance = distances[idx];
            if distance > magnitude {
                magnitude = distance;
            }
            idx += 1;
        }
        assert(point@.take(DIM as int) =~= point@);
        magnitude
    }

    proof fn lemma_norm_nonnegative(coordinates: Seq<int>) {
        lemma_max_abs(coordinates);
    }

    proof fn lemma_norm_of_origin(dim: nat) {
        lemma_max_abs(seq_fill(dim, 0));
    }
}

impl DistanceMetric for EuclideanMetric {
    /// The sum of the squares is within range.
    open spec fn lattice_req(coordinates: Seq<int>) -> bool {
        fits_i32(seq_sum(seq_mul(coordinates, coordinates)))
    }

    open spec fn lattice_norm(coordinates: Seq<int>) -> int {
        nearest_root(seq_sum(seq_mul(coordinates, coordinates)))
    }

    fn lattice_magnitude<const DIM: usize>(point: LatticePoint<DIM>) -> (magnitude: i32) {
        proof {
            lemma_squares(point@);
            lemma_squares_nonnegative(point@);
            lemma_sum_nonnegative(seq_mul(point@, point@));
        }
        let dot_product = point.dot_product(point);

        rounded_root(dot_product)
    }

    proof fn lemma_norm_nonnegative(coordinates: Seq<int>) {
        lemma_squares_nonnegative(coordinates);
        lemma_sum_nonnegative(seq_mul(coordinates, coordinates));
        lemma_nearest_root(seq_sum(seq_mul(coordinates, coordinates)));
    }

    proof fn lemma_norm_of_origin(dim: nat) {
        let zeros = seq_fill(dim, 0);
        assert(seq_mul(zeros, zeros) =~= zeros);
        lemma_sum_of_zeros(dim);
        lemma_nearest_root(0);
        assert(is_nearest_root(0, 0));
    }
}

impl DistanceMetric for ManhattanMetric {
    /// Each coordinate has an absolute value within range, and so has their sum.
    open spec fn lattice_req(coordinates: Seq<int>) -> bool {
        &&& forall|i: int| 0 <= i < coordinates.len() ==> #[trigger] coordinates[i] != i32::MIN
        &&& fits_i32(seq_sum(seq_abs(coordinates)))
    }

    open spec fn lattice_norm(coordinates: Seq<int>) -> int {
        seq_sum(seq_abs(coordinates))
    }

    fn lattice_magnitude<const DIM: usize>(point: LatticePoint<DIM>) -> (magnitude: i32) {
        proof {
            point.lemma_view();
            let distances = seq_abs(point@);
            assert forall|k: int| 0 <= k <= distances.len() implies fits_i32(
                #[trigger] seq_sum(distances.take(k)),
            ) by {
                lemma_sum_of_nonnegative(distances, k);
            }
            lemma_sum_nonnegative(distances);
        }
        point.abs().sum()
    }

    proof fn lemma_norm_nonnegative(coordinates: Seq<int>) {
        lemma_sum_nonnegative(seq_abs(coordinates));
    }

    proof fn lemma_norm_of_origin(dim: nat) {
        assert(seq_abs(seq_fill(dim, 0)) =~= seq_fill(dim, 0));
        lemma_sum_of_zeros(dim);
    }
}

impl<const P: u32, const Q: u32> DistanceMetric for MinkowskiMetric<P, Q> {
    open spec fn lattice_req(coordinates: Seq<int>) -> bool {
        true
    }

    open spec fn lattice_norm(coordinates: Seq<int>) -> int {
        0
    }

    fn lattice_magnitude<const DIM: usize>(point: LatticePoint<DIM>) -> (magnitude: i32) {
        0
    }

    proof fn lemma_norm_nonnegative(coordinates: Seq<int>) {
    }

    proof fn lemma_norm_of_origin(dim: nat) {
    }
}

proof fn lemma_squares_nonnegative(coordinates: Seq<int>)
    ensures
        forall|i: int|
            0 <= i < coordinates.len() ==> #[trigger] seq_mul(coordinates, coordinates)[i] >= 0,
{
    assert forall|i: int| 0 <= i < coordinates.len() implies #[trigger] seq_mul(
        coordinates,
        coordinates,
    )[i] >= 0 by {
        let c = coordinates[i];
        assert(c * c >= 0) by (nonlinear_arith);
    }
}

/// Where the sum of the squares is within range, so are the squares, and the sums on the way.
proof fn lemma_squares(coordinates: Seq<int>)
    requires
        fits_i32(seq_sum(seq_mul(coordinates, coordinates))),
    ensures
        all_fit_i32(seq_mul(coordinates, coordinates)),
        running_sums_fit(seq_mul(coordinates, coordinates)),
{
    let squares = seq_mul(coordinates, coordinates);
    lemma_squares_nonnegative(coordinates);
    assert forall|k: int| 0 <= k <= squares.len() implies fits_i32(
        #[trigger] seq_sum(squares.take(k)),
    ) by {
        lemma_sum_of_nonnegative(squares, k);
    }
    assert forall|i: int| 0 <= i < squares.len() implies fits_i32(#[trigger] squares[i]) by {
        lemma_sum_of_nonnegative(squares, i);
        lemma_sum_of_nonnegative(squares, i + 1);
        assert(squares.take(i + 1).drop_last() =~= squares.take(i));
    }
}

} // verus!
