use lattice_noise::geometry::LatticePoint;
use lattice_noise::noise::{PerlinNode, TileNode, WorleyNode, WorleyPaintMethod};
use lattice_noise::random::{StatefulRand, StatelessRand};
use lattice_noise::utils::{f32_bits_from_mantissa, f64_bits_from_mantissa};

#[test]
fn mantissa_bits_lie_from_one_up_to_two() {
    assert_eq!(f64::from_bits(f64_bits_from_mantissa(0)), 1.0);
    assert_eq!(f64::from_bits(f64_bits_from_mantissa(0xFFF)), 1.0);
    assert_eq!(f64::from_bits(f64_bits_from_mantissa(1 << 63)), 1.5);
    assert_eq!(f64::from_bits(f64_bits_from_mantissa(1 << 62)), 1.25);
    assert_eq!(f64_bits_from_mantissa(u64::MAX), 0x3FFF_FFFF_FFFF_FFFF);
    assert!(f64::from_bits(f64_bits_from_mantissa(u64::MAX)) < 2.0);

    assert_eq!(f32::from_bits(f32_bits_from_mantissa(0)), 1.0);
    assert_eq!(f32::from_bits(f32_bits_from_mantissa(0x1FF)), 1.0);
    assert_eq!(f32::from_bits(f32_bits_from_mantissa(1 << 31)), 1.5);
    assert_eq!(f32_bits_from_mantissa(u32::MAX), 0x3FFF_FFFF);
    assert!(f32::from_bits(f32_bits_from_mantissa(u32::MAX)) < 2.0);
}

#[test]
fn a_mantissa_gives_a_value_in_the_unit_interval() {
    let mut rand = StatefulRand::from_seed(4);
    for _ in 0..1000 {
        let value = f64::from_bits(f64_bits_from_mantissa(rand.next_u64())).mul_add(1.0, -1.0);
        assert!((0.0..1.0).contains(&value));
        let value = f32::from_bits(f32_bits_from_mantissa(rand.next_u32())).mul_add(1.0, -1.0);
        assert!((0.0..1.0).contains(&value));
    }
    for mantissa in [0, 1, 0xFFF, 0x1000, u64::MAX - 0xFFF, u64::MAX] {
        let value = f64::from_bits(f64_bits_from_mantissa(mantissa)).mul_add(1.0, -1.0);
        assert!((0.0..1.0).contains(&value));
    }
}

#[test]
fn tile_digest_is_the_hash_of_the_coordinate_bytes() {
    let tile = TileNode::<3>::new(99);
    let corner = [1.0_f64, -6.0, 8.0];
    let mut bytes = Vec::new();
    for coordinate in corner {
        bytes.extend_from_slice(&coordinate.to_le_bytes());
    }
    let digest = StatelessRand::from_seed(99).hash_bytes(&bytes);

    assert_eq!(tile.digest_at(&corner.map(f64::to_bits)), digest);
    assert_eq!(tile.digest_at(&corner.map(f64::to_bits)), StatelessRand::from_seed(99).hash_3u64(
        corner[0].to_bits(),
        corner[1].to_bits(),
        corner[2].to_bits()
    ));
    assert_eq!(tile.value_bits_at(&corner.map(f64::to_bits)), 0x3FF0_0000_0000_0000 | (digest >> 12));

    let value = f64::from_bits(tile.value_bits_at(&corner.map(f64::to_bits))) - 1.0;
    assert!((0.0..1.0).contains(&value));
    assert_ne!(
        tile.digest_at(&corner.map(f64::to_bits)),
        tile.digest_at(&[2.0_f64, -6.0, 8.0].map(f64::to_bits))
    );
    assert_ne!(
        tile.digest_at(&corner.map(f64::to_bits)),
        TileNode::<3>::new(100).digest_at(&corner.map(f64::to_bits))
    );
}

#[test]
fn tile_digest_in_many_dimensions() {
    let tile = TileNode::<6>::new(5);
    let corner = [0.0_f64, 1.0, -1.0, 2.0, -2.0, 1e9];
    let mut bytes = Vec::new();
    for coordinate in corner {
        bytes.extend_from_slice(&coordinate.to_le_bytes());
    }
    assert_eq!(tile.digest_at(&corner.map(f64::to_bits)), StatelessRand::from_seed(5).hash_bytes(&bytes));
}

#[test]
fn worley_seed_words_come_from_the_stream_of_the_cell() {
    let seed = 424_242;
    let mut node = WorleyNode::<3>::new(seed, WorleyPaintMethod::Value);
    let cell = LatticePoint::<3>::new([4, -1, 7]);
    let (words, hash) = node.hypercube_seed_words(cell);

    assert_eq!(hash, StatelessRand::from_seed(seed).hash_bytes(&cell.as_bytes()));

    let mut rand = StatefulRand::from_seed(seed);
    rand.set_word_pos(0);
    rand.set_stream(hash);
    assert_eq!(words, [rand.next_u64(), rand.next_u64(), rand.next_u64()]);
    assert_eq!(node.paint_method(), WorleyPaintMethod::Value);
}

#[test]
fn worley_seed_words_do_not_depend_on_earlier_questions() {
    let mut node = WorleyNode::<2>::new(1, WorleyPaintMethod::Distance);
    let a = LatticePoint::<2>::new([0, 0]);
    let b = LatticePoint::<2>::new([0, 1]);

    let first = node.hypercube_seed_words(a);
    let other = node.hypercube_seed_words(b);
    let second = node.hypercube_seed_words(a);
    let mut fresh = WorleyNode::<2>::new(1, WorleyPaintMethod::Value);

    assert_eq!(first, second);
    assert_ne!(first, other);
    assert_eq!(fresh.hypercube_seed_words(b), other);
    assert_eq!(node.paint_method(), WorleyPaintMethod::Distance);
    assert_ne!(WorleyNode::<2>::new(2, WorleyPaintMethod::Value).hypercube_seed_words(a), first);
}

#[test]
fn pop_nearest_takes_the_least_distance() {
    let mut candidates = vec![(10, 5), (11, 3), (12, 9), (13, 1), (14, 4)];

    assert_eq!(WorleyNode::<2>::pop_nearest(&mut candidates), (13, 1));
    assert_eq!(candidates, vec![(10, 5), (11, 3), (12, 9), (14, 4)]);
    assert_eq!(WorleyNode::<2>::pop_nearest(&mut candidates), (11, 3));
    assert_eq!(WorleyNode::<2>::pop_nearest(&mut candidates), (14, 4));
    assert_eq!(WorleyNode::<2>::pop_nearest(&mut candidates), (10, 5));
    assert_eq!(WorleyNode::<2>::pop_nearest(&mut candidates), (12, 9));
    assert!(candidates.is_empty());
}

#[test]
fn pop_nearest_takes_the_last_of_equals_as_sorting_and_popping_does() {
    let distances = [0.5_f64, 0.25, 2.0, 0.25, 0.0, 0.5, 0.0, 1e300, 0.25];
    let pairs: Vec<(u64, f64)> = distances.iter().enumerate().map(|(i, &d)| (i as u64, d)).collect();

    let mut sorted = pairs.clone();
    sorted.sort_by(|a, b| b.1.partial_cmp(&a.1).unwrap());

    let mut candidates: Vec<(u64, u64)> = pairs.iter().map(|&(i, d)| (i, d.to_bits())).collect();
    while let Some((value, distance)) = sorted.pop() {
        assert_eq!(WorleyNode::<1>::pop_nearest(&mut candidates), (value, distance.to_bits()));
    }
    assert!(candidates.is_empty());
}

#[test]
fn worley_seed_cells_are_the_neighbours_in_order() {
    let mut node = WorleyNode::<2>::new(77, WorleyPaintMethod::Value);
    let cell = LatticePoint::<2>::new([5, 2]);
    let cells = node.seed_cells_around(cell);
    let neighbours = cell.neighbors_and_self().collect();

    assert_eq!(cells.len(), 9);
    for (seed_cell, &neighbour) in cells.iter().zip(neighbours.iter()) {
        let mut single = WorleyNode::<2>::new(77, WorleyPaintMethod::Value);
        let (words, hash) = single.hypercube_seed_words(neighbour);

        assert_eq!(seed_cell.hypercube, neighbour);
        assert_eq!(seed_cell.words, words);
        assert_eq!(seed_cell.hash, hash);
    }
    assert_eq!(cells[4].hypercube, cell);

    let again = node.seed_cells_around(cell);
    for (first, second) in cells.iter().zip(again.iter()) {
        assert_eq!(first.words, second.words);
        assert_eq!(first.hash, second.hash);
    }
}

#[test]
fn worley_value_of_the_nearest_seed_lies_in_the_unit_interval() {
    let mut node = WorleyNode::<3>::new(9, WorleyPaintMethod::Value);
    for x in -3..3 {
        let cells = node.seed_cells_around(LatticePoint::<3>::new([x, 2 * x, -x]));
        let point = [x as f64 + 0.3, 2.0 * x as f64 + 0.9, -x as f64 + 0.5];
        let mut candidates: Vec<(u64, u64)> = cells
            .iter()
            .map(|cell| {
                let mut square = 0.0;
                for d in 0..3 {
                    let offset = f64::from_bits(f64_bits_from_mantissa(cell.words[d])) - 1.0;
                    assert!((0.0..1.0).contains(&offset));
                    let seed = cell.hypercube[d] as f64 + offset;
                    square += (seed - point[d]) * (seed - point[d]);
                }
                (cell.hash, square.sqrt().to_bits())
            })
            .collect();
        let (value, distance) = WorleyNode::<3>::pop_nearest(&mut candidates);
        let painted = f64::from_bits(f64_bits_from_mantissa(value)).mul_add(1.0, -1.0);

        assert!((0.0..=1.0).contains(&painted));
        assert!(candidates.iter().all(|&(_, other)| f64::from_bits(distance) <= f64::from_bits(other)));
        assert_eq!(candidates.len(), 26);
    }
}

#[test]
fn perlin_gradient_index_is_the_digest_cut_down_to_the_pool() {
    let node = PerlinNode::<4>::new(31);
    assert_eq!(node.num_gradients(), 128);
    assert_eq!(PerlinNode::<1>::new(31).num_gradients(), 16);
    assert_eq!(PerlinNode::<0>::new(31).num_gradients(), 8);

    let mut seen = [false; 128];
    for i in 0..2000 {
        let corner = [i as f64, 1.0, -2.0, 0.0].map(f64::to_bits);
        let mut bytes = Vec::new();
        for word in corner {
            bytes.extend_from_slice(&word.to_le_bytes());
        }
        let digest = StatelessRand::from_seed(31).hash_bytes(&bytes);
        let index = node.gradient_index(&corner);

        assert_eq!(index as u64, digest % 128);
        seen[index] = true;
    }
    assert!(seen.iter().all(|&hit| hit));
}
