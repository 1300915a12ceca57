use lattice_noise::geometry::{LatticeNeighborhood, LatticePoint, VertexNeighborhood};

#[test]
fn lattice_neighborhood_iterate() {
    let point = LatticePoint::<2>::new([5, 2]);

    let neighbors: Vec<LatticePoint<2>> = point.neighbors().collect();
    let neighbors_and_self: Vec<LatticePoint<2>> = point.neighbors_and_self().collect();

    assert_eq!(neighbors, vec![
        LatticePoint::<2>::new([4, 1]),
        LatticePoint::<2>::new([5, 1]),
        LatticePoint::<2>::new([6, 1]),

        LatticePoint::<2>::new([4, 2]),
        LatticePoint::<2>::new([6, 2]),

        LatticePoint::<2>::new([4, 3]),
        LatticePoint::<2>::new([5, 3]),
        LatticePoint::<2>::new([6, 3])
    ]);

    assert_eq!(neighbors_and_self, vec![
        LatticePoint::<2>::new([4, 1]),
        LatticePoint::<2>::new([5, 1]),
        LatticePoint::<2>::new([6, 1]),

        LatticePoint::<2>::new([4, 2]),
        LatticePoint::<2>::new([5, 2]),
        LatticePoint::<2>::new([6, 2]),

        LatticePoint::<2>::new([4, 3]),
        LatticePoint::<2>::new([5, 3]),
        LatticePoint::<2>::new([6, 3])
    ]);
}

#[test]
fn vertex_neighborhood_iterate() {
    let point: [f64; 3] = [1.2, -5.9, 8.0];
    let cell = LatticePoint::<3>::new(point.map(|c| c.floor() as i32));
    let vertices: Vec<[f64; 3]> = VertexNeighborhood::new(cell)
        .collect()
        .iter()
        .map(|vertex| [vertex[0] as f64, vertex[1] as f64, vertex[2] as f64])
        .collect();

    assert_eq!(vertices, vec![
        [1.0, -6.0, 8.0],
        [2.0, -6.0, 8.0],
        [1.0, -5.0, 8.0],
        [2.0, -5.0, 8.0],
        [1.0, -6.0, 9.0],
        [2.0, -6.0, 9.0],
        [1.0, -5.0, 9.0],
        [2.0, -5.0, 9.0]
    ]);
}

#[test]
fn lattice_neighborhood_counts() {
    assert_eq!(LatticePoint::<1>::new([7]).neighbors().collect().len(), 2);
    assert_eq!(LatticePoint::<1>::new([7]).neighbors_and_self().collect().len(), 3);
    assert_eq!(LatticePoint::<3>::new([7, 8, 9]).neighbors().collect().len(), 26);
    assert_eq!(LatticePoint::<3>::new([7, 8, 9]).neighbors_and_self().collect().len(), 27);
    assert_eq!(LatticePoint::<5>::origin().neighbors().collect().len(), 242);
    assert_eq!(LatticePoint::<5>::origin().neighbors_and_self().collect().len(), 243);
    assert_eq!(LatticePoint::<0>::new([]).neighbors().collect().len(), 0);
    assert_eq!(LatticePoint::<0>::new([]).neighbors_and_self().collect().len(), 1);
}

#[test]
fn lattice_neighborhood_leaves_out_the_point_itself_and_nothing_else() {
    let point = LatticePoint::<3>::new([-4, 0, 11]);
    let with_self = point.neighbors_and_self().collect();
    let without_self = point.neighbors().collect();

    assert_eq!(with_self[13], point);
    assert!(!without_self.contains(&point));

    let mut expected = with_self.clone();
    expected.remove(13);
    assert_eq!(without_self, expected);

    for neighbor in with_self {
        for d in 0..3 {
            assert!((neighbor[d] - point[d]).abs() <= 1);
        }
    }
}

#[test]
fn lattice_neighborhood_in_one_dimension() {
    let point = LatticePoint::<1>::new([5]);

    assert_eq!(point.neighbors().collect(), vec![
        LatticePoint::<1>::new([4]),
        LatticePoint::<1>::new([6])
    ]);
    assert_eq!(
        LatticePoint::<1>::new([i32::MAX - 1]).neighbors_and_self().collect(),
        vec![
            LatticePoint::<1>::new([i32::MAX - 2]),
            LatticePoint::<1>::new([i32::MAX - 1]),
            LatticePoint::<1>::new([i32::MAX])
        ]
    );
}

#[test]
fn lattice_neighborhood_next_walks_once_and_restarts_afresh() {
    let point = LatticePoint::<1>::new([0]);
    let mut walk = LatticeNeighborhood::new(point, false);

    assert_eq!(walk.next(), Some(LatticePoint::<1>::new([-1])));
    assert_eq!(walk.next(), Some(LatticePoint::<1>::new([1])));
    assert_eq!(walk.next(), None);
    assert_eq!(walk.next(), None);

    let mut again = LatticeNeighborhood::new(point, true);
    assert_eq!(again.next(), Some(LatticePoint::<1>::new([-1])));
    assert_eq!(again.next(), Some(point));
    assert_eq!(again.collect(), vec![LatticePoint::<1>::new([1])]);
}

#[test]
fn vertex_neighborhood_counts_and_order() {
    assert_eq!(VertexNeighborhood::new(LatticePoint::<0>::new([])).collect().len(), 1);
    assert_eq!(VertexNeighborhood::new(LatticePoint::<4>::origin()).collect().len(), 16);
    assert_eq!(VertexNeighborhood::new(LatticePoint::<10>::origin()).collect().len(), 1024);

    let corners = VertexNeighborhood::new(LatticePoint::<2>::new([-1, 40])).collect();
    assert_eq!(corners, vec![
        LatticePoint::<2>::new([-1, 40]),
        LatticePoint::<2>::new([0, 40]),
        LatticePoint::<2>::new([-1, 41]),
        LatticePoint::<2>::new([0, 41])
    ]);

    let mut walk = VertexNeighborhood::new(LatticePoint::<1>::new([3]));
    assert_eq!(walk.next(), Some(LatticePoint::<1>::new([3])));
    assert_eq!(walk.next(), Some(LatticePoint::<1>::new([4])));
    assert_eq!(walk.next(), None);
}
