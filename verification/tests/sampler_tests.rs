use emergence_lib::hex::HexCoordinate;
use emergence_lib::rng::RandomSource;
use emergence_lib::sampler::sample_unique;
use emergence_lib::sampler::PlacementError;

#[test]
fn sample_unique_partitions_without_overlap() {
    let center = HexCoordinate { alpha: 0, beta: 0 };
    let candidates = HexCoordinate::hexagon(center, 2);
    assert_eq!(candidates.len(), 19);
    let counts = vec![3usize, 2, 1];
    let mut rng = RandomSource::from_seed_u64(5);
    let groups = sample_unique(&candidates, &counts, &mut rng).unwrap();
    assert_eq!(groups.len(), 3);
    assert_eq!(groups[0].len(), 3);
    assert_eq!(groups[1].len(), 2);
    assert_eq!(groups[2].len(), 1);
    let all: Vec<HexCoordinate> = groups.iter().flatten().copied().collect();
    assert_eq!(all.len(), 6);
    for (i, a) in all.iter().enumerate() {
        assert!(candidates.contains(a));
        for b in all.iter().skip(i + 1) {
            assert_ne!(*a, *b);
        }
    }
}

#[test]
fn sample_unique_empty_counts_give_empty_groups() {
    let center = HexCoordinate { alpha: 0, beta: 0 };
    let candidates = HexCoordinate::hexagon(center, 1);
    let counts = vec![0usize, 0, 0];
    let mut rng = RandomSource::from_seed_u64(5);
    let groups = sample_unique(&candidates, &counts, &mut rng).unwrap();
    assert_eq!(groups.len(), 3);
    assert!(groups.iter().all(|g| g.is_empty()));
}

#[test]
fn sample_unique_rejects_excess_counts() {
    let center = HexCoordinate { alpha: 0, beta: 0 };
    let candidates = HexCoordinate::hexagon(center, 1);
    assert_eq!(candidates.len(), 7);
    let counts = vec![5usize, 2, 1];
    let mut rng = RandomSource::from_seed_u64(5);
    let result = sample_unique(&candidates, &counts, &mut rng);
    assert_eq!(result, Err(PlacementError::InsufficientCandidates));
}

#[test]
fn sample_unique_can_draw_every_candidate() {
    let center = HexCoordinate { alpha: 4, beta: -1 };
    let candidates = HexCoordinate::hexagon(center, 1);
    let counts = vec![7usize];
    let mut rng = RandomSource::from_seed_u64(9);
    let groups = sample_unique(&candidates, &counts, &mut rng).unwrap();
    assert_eq!(groups.len(), 1);
    let mut drawn = groups[0].clone();
    assert_eq!(drawn.len(), 7);
    let mut original = candidates.clone();
    drawn.sort_by_key(|p| (p.alpha, p.beta));
    original.sort_by_key(|p| (p.alpha, p.beta));
    assert_eq!(drawn, original);
}
