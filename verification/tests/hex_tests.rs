use emergence_lib::hex::HexCoordinate;

/// Hex distance between two axial coordinates, in the summed axial form.
fn dist(a: HexCoordinate, b: HexCoordinate) -> i64 {
    let da = b.alpha - a.alpha;
    let db = b.beta - a.beta;
    (da.abs() + db.abs() + (da + db).abs()) / 2
}

#[test]
fn hexagon_radius_zero_is_center() {
    let center = HexCoordinate { alpha: 2, beta: -5 };
    let tiles = HexCoordinate::hexagon(center, 0);
    assert_eq!(tiles.len(), 1);
    assert_eq!(tiles[0], center);
}

#[test]
fn hexagon_count_formula() {
    let center = HexCoordinate { alpha: 0, beta: 0 };
    for r in 0u32..6 {
        let tiles = HexCoordinate::hexagon(center, r);
        let r = r as usize;
        assert_eq!(tiles.len(), 3 * r * r + 3 * r + 1);
    }
}

#[test]
fn hexagon_within_distance_no_duplicates() {
    let center = HexCoordinate { alpha: -3, beta: 7 };
    let tiles = HexCoordinate::hexagon(center, 2);
    for (i, a) in tiles.iter().enumerate() {
        assert!(dist(center, *a) <= 2);
        for b in tiles.iter().skip(i + 1) {
            assert_ne!(*a, *b);
        }
    }
}

#[test]
fn hexagon_ring_complete() {
    // Every coordinate at distance exactly 2 appears exactly once.
    let center = HexCoordinate { alpha: 1, beta: 1 };
    let tiles = HexCoordinate::hexagon(center, 2);
    let mut ring = 0;
    for da in -2i64..=2 {
        for db in -2i64..=2 {
            let p = HexCoordinate { alpha: center.alpha + da, beta: center.beta + db };
            if dist(center, p) == 2 {
                ring += 1;
                assert_eq!(tiles.iter().filter(|q| **q == p).count(), 1);
            }
        }
    }
    assert_eq!(ring, 12);
}
