use emergence_lib::rng::RandomSource;
use emergence_lib::terrain::TerrainType;
use emergence_lib::terrain::TerrainWeights;
use emergence_lib::terrain::Weight;
use emergence_lib::terrain::WeightError;

#[test]
fn variants_in_declaration_order() {
    let variants = TerrainType::variants();
    assert_eq!(
        variants,
        vec![TerrainType::Plain, TerrainType::Impassable, TerrainType::High]
    );
}

#[test]
fn choose_random_all_mass_on_plain() {
    let weights = TerrainWeights {
        plain: Weight::Units(1000),
        impassable: Weight::Units(0),
        high: Weight::Units(0),
    };
    let mut rng = RandomSource::from_seed_u64(7);
    for _ in 0..200 {
        let drawn = TerrainType::choose_random(&mut rng, &weights);
        assert_eq!(drawn, Ok(TerrainType::Plain));
    }
}

#[test]
fn choose_random_all_zero_fails() {
    let weights = TerrainWeights {
        plain: Weight::Units(0),
        impassable: Weight::Units(0),
        high: Weight::Units(0),
    };
    let mut rng = RandomSource::from_seed_u64(7);
    let drawn = TerrainType::choose_random(&mut rng, &weights);
    assert_eq!(drawn, Err(WeightError::AllZero));
}

#[test]
fn choose_random_invalid_weight_fails() {
    let weights = TerrainWeights {
        plain: Weight::Units(3),
        impassable: Weight::Invalid,
        high: Weight::Units(1),
    };
    let mut rng = RandomSource::from_seed_u64(7);
    let drawn = TerrainType::choose_random(&mut rng, &weights);
    assert_eq!(drawn, Err(WeightError::Invalid));
}

#[test]
fn choose_random_reaches_every_positive_variant() {
    let weights = TerrainWeights {
        plain: Weight::Units(1),
        impassable: Weight::Units(1),
        high: Weight::Units(1),
    };
    let mut rng = RandomSource::from_seed_u64(11);
    let mut seen = [false; 3];
    for _ in 0..200 {
        match TerrainType::choose_random(&mut rng, &weights) {
            Ok(TerrainType::Plain) => seen[0] = true,
            Ok(TerrainType::Impassable) => seen[1] = true,
            Ok(TerrainType::High) => seen[2] = true,
            Err(e) => panic!("unexpected weight error: {:?}", e),
        }
    }
    assert!(seen[0] && seen[1] && seen[2]);
}

#[test]
fn next_below_stays_below_bound() {
    let mut rng = RandomSource::from_seed_u64(3);
    for _ in 0..50 {
        assert_eq!(rng.next_below(1), 0);
    }
    for bound in 2u64..20 {
        let draw = rng.next_below(bound);
        assert!(draw < bound);
    }
}
