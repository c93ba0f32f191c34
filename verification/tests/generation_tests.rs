use emergence_lib::config::ConfigurationError;
use emergence_lib::config::GenerationConfig;
use emergence_lib::generation::generate;
use emergence_lib::generation::Category;
use emergence_lib::geometry::GridCoordinate;
use emergence_lib::geometry::GridSize;
use emergence_lib::geometry::MapGeometry;
use emergence_lib::hex::HexCoordinate;
use emergence_lib::rng::RandomSource;
use emergence_lib::terrain::TerrainWeights;
use emergence_lib::terrain::Weight;
use emergence_lib::terrain::WeightError;

fn demo_weights() -> TerrainWeights {
    TerrainWeights {
        plain: Weight::Units(5),
        impassable: Weight::Units(3),
        high: Weight::Units(2),
    }
}

#[test]
fn map_geometry_accessors() {
    let geometry = MapGeometry::new(10);
    assert_eq!(geometry.diameter(), 21);
    assert_eq!(geometry.size(), GridSize { x: 21, y: 21 });
    assert_eq!(geometry.center(), GridCoordinate { x: 11, y: 11 });
    let default_geometry = MapGeometry::default();
    assert_eq!(default_geometry.radius, 10);
}

#[test]
fn grid_conversion_round_trips() {
    let geometry = MapGeometry::new(2);
    // The axial origin sits at the grid center.
    let origin = HexCoordinate { alpha: 0, beta: 0 };
    assert_eq!(geometry.to_grid(origin), Some(geometry.center()));
    // Every map tile round-trips through the grid.
    for p in HexCoordinate::hexagon(origin, 2) {
        let g = geometry.to_grid(p).expect("tile of the map has a grid cell");
        assert_eq!(geometry.from_grid(g), Some(p));
    }
    // Off-map coordinates have no grid cell.
    assert_eq!(geometry.to_grid(HexCoordinate { alpha: 3, beta: 0 }), None);
    assert_eq!(geometry.to_grid(HexCoordinate { alpha: 2, beta: 1 }), None);
    // The corner cells of the bounding grid lie outside the hexagon.
    assert_eq!(geometry.from_grid(GridCoordinate { x: 5, y: 5 }), None);
}

#[test]
fn config_rejects_zero_radius() {
    let result = GenerationConfig::new(0, 1, 1, 1);
    assert_eq!(result, Err(ConfigurationError::NonPositiveRadius));
}

#[test]
fn config_rejects_excess_entities() {
    // A radius of 1 yields 7 tiles; 5 + 2 + 1 = 8 entities do not fit.
    let result = GenerationConfig::new(1, 5, 2, 1);
    assert_eq!(result, Err(ConfigurationError::TooManyEntities));
}

#[test]
fn config_accepts_full_map() {
    let config = GenerationConfig::new(1, 5, 1, 1).unwrap();
    assert_eq!(config.map_radius, 1);
    assert_eq!(config.n_ant, 5);
}

#[test]
fn generation_emits_tiles_then_entities() {
    // 19 candidate tiles at radius 2, then 3 + 2 + 1 entities.
    let config = GenerationConfig::new(2, 3, 2, 1).unwrap();
    let weights = demo_weights();
    let mut rng = RandomSource::from_seed_u64(42);
    let requests = generate(&config, &weights, &mut rng).unwrap();
    assert_eq!(requests.len(), 19 + 6);
    let tiles = HexCoordinate::hexagon(HexCoordinate { alpha: 0, beta: 0 }, 2);
    for (i, request) in requests.iter().enumerate() {
        if i < 19 {
            assert_eq!(request.category, Category::Tile);
            assert!(request.terrain.is_some());
            assert_eq!(request.position, tiles[i]);
        } else {
            assert!(request.terrain.is_none());
            assert!(tiles.contains(&request.position));
        }
    }
    let entities = &requests[19..];
    for (i, a) in entities.iter().enumerate() {
        for b in entities.iter().skip(i + 1) {
            assert_ne!(a.position, b.position);
        }
    }
    assert!(entities[0..3].iter().all(|r| r.category == Category::Ant));
    assert!(entities[3..5].iter().all(|r| r.category == Category::Plant));
    assert!(entities[5..6].iter().all(|r| r.category == Category::Fungi));
}

#[test]
fn generation_is_deterministic_under_a_seed() {
    let config = GenerationConfig::new(3, 4, 3, 2).unwrap();
    let weights = demo_weights();
    let mut first_rng = RandomSource::from_seed_u64(123);
    let first = generate(&config, &weights, &mut first_rng).unwrap();
    let mut second_rng = RandomSource::from_seed_u64(123);
    let second = generate(&config, &weights, &mut second_rng).unwrap();
    assert_eq!(first, second);
}

#[test]
fn generation_aborts_on_bad_weights() {
    let config = GenerationConfig::new(2, 1, 1, 1).unwrap();
    let mut rng = RandomSource::from_seed_u64(1);
    let all_zero = TerrainWeights {
        plain: Weight::Units(0),
        impassable: Weight::Units(0),
        high: Weight::Units(0),
    };
    assert_eq!(generate(&config, &all_zero, &mut rng), Err(WeightError::AllZero));
    let invalid = TerrainWeights {
        plain: Weight::Invalid,
        impassable: Weight::Units(1),
        high: Weight::Units(1),
    };
    assert_eq!(generate(&config, &invalid, &mut rng), Err(WeightError::Invalid));
}
