use lattice_noise::geometry::{
    ChebyshevMetric, EuclideanMetric, LatticePoint, ManhattanMetric, MinkowskiMetric,
};

#[test]
fn lattice_point_add() {
    let mut lhs = LatticePoint::<2>::new([15, 8]);
    let rhs = LatticePoint::<2>::new([5, 3]);

    let result = LatticePoint::<2>::new([20, 11]);

    assert_eq!(lhs + rhs, result);

    lhs += rhs;

    assert_eq!(lhs, result);
}

#[test]
fn lattice_point_sub() {
    let mut lhs = LatticePoint::<2>::new([15, 8]);
    let rhs = LatticePoint::<2>::new([5, 3]);

    let result = LatticePoint::<2>::new([10, 5]);

    assert_eq!(lhs - rhs, result);

    lhs -= rhs;

    assert_eq!(lhs, result);
}

#[test]
fn lattice_point_mul() {
    let mut lhs = LatticePoint::<2>::new([15, 8]);
    let rhs = LatticePoint::<2>::new([5, 3]);

    let result = LatticePoint::<2>::new([75, 24]);

    assert_eq!(lhs * rhs, result);

    lhs *= rhs;

    assert_eq!(lhs, result);
}

#[test]
fn lattice_point_div() {
    let mut lhs = LatticePoint::<2>::new([15, 8]);
    let rhs = LatticePoint::<2>::new([5, 3]);

    let result = LatticePoint::<2>::new([3, 2]);

    assert_eq!(lhs / rhs, result);

    lhs /= rhs;

    assert_eq!(lhs, result);
}

#[test]
fn lattice_point_rem() {
    let mut lhs = LatticePoint::<2>::new([15, 8]);
    let rhs = LatticePoint::<2>::new([5, 3]);

    let result = LatticePoint::<2>::new([0, 2]);

    assert_eq!(lhs % rhs, result);

    lhs %= rhs;

    assert_eq!(lhs, result);
}

#[test]
fn scalar_arithmetic_broadcasts() {
    let mut point = LatticePoint::<3>::new([15, -8, 0]);

    assert_eq!(point + 2, LatticePoint::<3>::new([17, -6, 2]));
    assert_eq!(point - 2, LatticePoint::<3>::new([13, -10, -2]));
    assert_eq!(point * -3, LatticePoint::<3>::new([-45, 24, 0]));
    assert_eq!(point / 4, LatticePoint::<3>::new([3, -2, 0]));
    assert_eq!(point % 4, LatticePoint::<3>::new([3, 0, 0]));

    point += 1;
    assert_eq!(point, LatticePoint::<3>::new([16, -7, 1]));
    point -= 6;
    assert_eq!(point, LatticePoint::<3>::new([10, -13, -5]));
    point *= 2;
    assert_eq!(point, LatticePoint::<3>::new([20, -26, -10]));
    point /= 3;
    assert_eq!(point, LatticePoint::<3>::new([6, -8, -3]));
    point %= 4;
    assert_eq!(point, LatticePoint::<3>::new([2, 0, -3]));
}

#[test]
fn division_truncates_toward_zero() {
    let lhs = LatticePoint::<4>::new([7, -7, 7, -7]);
    let rhs = LatticePoint::<4>::new([2, 2, -2, -2]);

    assert_eq!(lhs / rhs, LatticePoint::<4>::new([3, -3, -3, 3]));
    assert_eq!(lhs % rhs, LatticePoint::<4>::new([1, -1, 1, -1]));

    let extreme = LatticePoint::<2>::new([i32::MIN, i32::MAX]);
    assert_eq!(extreme / 2, LatticePoint::<2>::new([-1_073_741_824, 1_073_741_823]));
    assert_eq!(extreme % 2, LatticePoint::<2>::new([0, 1]));
    assert_eq!(
        extreme / LatticePoint::<2>::new([1, -1]),
        LatticePoint::<2>::new([i32::MIN, -i32::MAX])
    );
}

#[test]
fn constructors_and_access() {
    assert_eq!(LatticePoint::<3>::origin(), LatticePoint::<3>::new([0, 0, 0]));
    assert_eq!(LatticePoint::<3>::diagonal(-4), LatticePoint::<3>::new([-4, -4, -4]));
    assert_eq!(LatticePoint::<2>::from([3, 9]), LatticePoint::<2>::new([3, 9]));

    let mut point = LatticePoint::<3>::new([1, -2, 3]);
    assert_eq!(point[0], 1);
    assert_eq!(point[1], -2);
    assert_eq!(point[2], 3);

    point[1] = 20;
    assert_eq!(point, LatticePoint::<3>::new([1, 20, 3]));

    let seen: Vec<i32> = point.iter().copied().collect();
    assert_eq!(seen, vec![1, 20, 3]);
}

#[test]
fn abs_sum_and_dot_product() {
    let point = LatticePoint::<4>::new([3, -4, 0, -12]);

    assert_eq!(point.abs(), LatticePoint::<4>::new([3, 4, 0, 12]));
    assert_eq!(point.sum(), -13);
    assert_eq!(point.dot_product(point), 169);
    assert_eq!(point.dot_product(LatticePoint::<4>::new([1, 2, 3, -1])), 7);
    assert_eq!(LatticePoint::<4>::origin().sum(), 0);
    assert_eq!(LatticePoint::<2>::new([-i32::MAX, 5]).abs(), LatticePoint::<2>::new([i32::MAX, 5]));
}

#[test]
fn as_bytes_is_four_bytes_per_coordinate_low_byte_first() {
    let point = LatticePoint::<3>::new([1, -2, 0x1234_5678]);

    assert_eq!(
        point.as_bytes(),
        vec![0x01, 0, 0, 0, 0xFE, 0xFF, 0xFF, 0xFF, 0x78, 0x56, 0x34, 0x12]
    );

    let mut expected = Vec::new();
    for coordinate in [i32::MIN, -1, i32::MAX] {
        expected.extend_from_slice(&coordinate.to_le_bytes());
    }
    assert_eq!(LatticePoint::<3>::new([i32::MIN, -1, i32::MAX]).as_bytes(), expected);
    assert_eq!(LatticePoint::<0>::new([]).as_bytes(), Vec::<u8>::new());
}

#[test]
fn chebyshev_magnitude_is_the_largest_absolute_coordinate() {
    assert_eq!(LatticePoint::<3>::new([3, -7, 5]).magnitude::<ChebyshevMetric>(), 7);
    assert_eq!(LatticePoint::<3>::new([-1, -1, -1]).magnitude::<ChebyshevMetric>(), 1);
    assert_eq!(LatticePoint::<1>::new([i32::MAX]).magnitude::<ChebyshevMetric>(), i32::MAX);
    assert_eq!(LatticePoint::<4>::origin().magnitude::<ChebyshevMetric>(), 0);
}

#[test]
fn manhattan_magnitude_is_the_sum_of_the_absolute_coordinates() {
    assert_eq!(LatticePoint::<3>::new([3, -7, 5]).magnitude::<ManhattanMetric>(), 15);
    assert_eq!(LatticePoint::<2>::new([-i32::MAX, 0]).magnitude::<ManhattanMetric>(), i32::MAX);
    assert_eq!(LatticePoint::<0>::new([]).magnitude::<ManhattanMetric>(), 0);
    assert_eq!(LatticePoint::<4>::origin().magnitude::<ManhattanMetric>(), 0);
}

#[test]
fn euclidean_magnitude_is_the_rounded_root() {
    assert_eq!(LatticePoint::<2>::new([3, 4]).magnitude::<EuclideanMetric>(), 5);
    assert_eq!(LatticePoint::<2>::new([1, 1]).magnitude::<EuclideanMetric>(), 1);
    assert_eq!(LatticePoint::<2>::new([1, 2]).magnitude::<EuclideanMetric>(), 2);
    assert_eq!(LatticePoint::<2>::new([2, 2]).magnitude::<EuclideanMetric>(), 3);
    assert_eq!(LatticePoint::<3>::new([-1, -1, -1]).magnitude::<EuclideanMetric>(), 2);
    assert_eq!(LatticePoint::<4>::origin().magnitude::<EuclideanMetric>(), 0);
    assert_eq!(LatticePoint::<2>::new([46340, 0]).magnitude::<EuclideanMetric>(), 46340);
    assert_eq!(LatticePoint::<2>::new([32767, 32767]).magnitude::<EuclideanMetric>(), 46340);
}

#[test]
fn euclidean_magnitude_agrees_with_the_floating_point_root() {
    let mut checked = 0;
    for a in (0..46340).step_by(97) {
        for b in [0, 1, 2, 3, 5, 8, 13, 21, 34, 55, 89, 144, 233, 377, 610, 987] {
            let square = a * a + b * b;
            let expected = (square as f64).sqrt().round() as i32;
            assert_eq!(LatticePoint::<2>::new([a, -b]).magnitude::<EuclideanMetric>(), expected);
            checked += 1;
        }
    }
    for root in 1..=7_i32 {
        // The sums of squares on either side of the middle between `root` and `root + 1`.
        let mut coordinates = [0_i32; 9];
        coordinates[0] = root;
        for one in 1..=root as usize {
            coordinates[one] = 1;
        }
        let below = LatticePoint::<9>::new(coordinates);
        assert_eq!(below.dot_product(below), root * root + root);
        assert_eq!(below.magnitude::<EuclideanMetric>(), root);

        coordinates[root as usize + 1] = -1;
        let above = LatticePoint::<9>::new(coordinates);
        assert_eq!(above.dot_product(above), root * root + root + 1);
        assert_eq!(above.magnitude::<EuclideanMetric>(), root + 1);
        checked += 2;
    }
    assert!(checked > 7000);
}

#[test]
fn minkowski_gives_lattice_points_no_magnitude() {
    assert_eq!(LatticePoint::<3>::new([3, -7, 5]).magnitude::<MinkowskiMetric<3, 2>>(), 0);
    assert_eq!(LatticePoint::<3>::origin().magnitude::<MinkowskiMetric<1, 1>>(), 0);
}

#[test]
fn magnitudes_are_never_negative() {
    for x in [-1000, -3, -1, 0, 1, 2, 999] {
        for y in [-77, 0, 5] {
            let point = LatticePoint::<2>::new([x, y]);
            assert!(point.magnitude::<ChebyshevMetric>() >= 0);
            assert!(point.magnitude::<EuclideanMetric>() >= 0);
            assert!(point.magnitude::<ManhattanMetric>() >= 0);
            assert!(point.magnitude::<MinkowskiMetric<2, 1>>() >= 0);
        }
    }
}
