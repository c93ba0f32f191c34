//! Generation orchestrator: enumerates the tiles of the configured map, draws
//! a terrain type per tile, samples collision-free entity positions, and emits
//! one creation request per tile and per entity. All terrain requests precede
//! all entity requests; a failed terrain draw aborts generation entirely.
use vstd::prelude::*;

verus! {

use vstd::pervasive::unreached;
use crate::config::GenerationConfig;
use crate::hex::HexCoordinate;
use crate::hex::hex_count;
use crate::hex::hex_dist;
use crate::rng::RandomSource;
use crate::sampler::counts_before;
use crate::sampler::counts_total;
use crate::sampler::distinct_seq;
use crate::sampler::sample_unique;
use crate::terrain::TerrainType;
use crate::terrain::TerrainWeights;
use crate::terrain::WeightError;
use crate::terrain::has_invalid;
use crate::terrain::total_units;
use crate::terrain::units_of;

/// The category of a creation request.
#[derive(Clone, Copy, PartialEq, Eq, Structural, Debug)]
pub enum Category {
    /// A terrain tile.
    Tile,
    /// An ant unit.
    Ant,
    /// A plant structure.
    Plant,
    /// A fungus structure.
    Fungi,
}

/// One creation request handed to the external entity-storage sink. Tile
/// requests carry the terrain chosen for the tile; entity requests carry none.
#[derive(Clone, Copy, PartialEq, Eq, Debug)]
pub struct CreationRequest {
    pub position: HexCoordinate,
    pub category: Category,
    pub terrain: Option<TerrainType>,
}

/// The axial coordinate generation centers the map on.
pub open spec fn map_center() -> HexCoordinate {
    HexCoordinate { alpha: 0, beta: 0 }
}

/// The number of tile requests a configuration yields.
pub open spec fn tile_count(config: GenerationConfig) -> int {
    hex_count(config.map_radius as int)
}

/// The number of entity requests a configuration yields.
pub open spec fn entity_count(config: GenerationConfig) -> int {
    config.n_ant + config.n_plant + config.n_fungi
}

/// The category of the request at an index: all tiles first, then the ants,
/// the plants, and the fungi, in contiguous spans.
pub open spec fn category_of_index(config: GenerationConfig, i: int) -> Category {
    if i < tile_count(config) {
        Category::Tile
    } else if i < tile_count(config) + config.n_ant {
        Category::Ant
    } else if i < tile_count(config) + config.n_ant + config.n_plant {
        Category::Plant
    } else {
        Category::Fungi
    }
}

/// Whether a tile request carries a terrain of positive weight.
pub open spec fn tile_terrain_ok(weights: TerrainWeights, request: CreationRequest) -> bool {
    match request.terrain {
        Some(terrain) => units_of(weights, terrain) > 0,
        None => false,
    }
}

/// The entity request that belongs at an index past the tile requests: the
/// position comes from the drawn group of the index's category.
spec fn entity_request(
    config: GenerationConfig,
    groups: Seq<Vec<HexCoordinate>>,
    i: int,
) -> CreationRequest {
    let t = tile_count(config);
    if i < t + config.n_ant {
        CreationRequest { position: groups[0]@[i - t], category: Category::Ant, terrain: None }
    } else if i < t + config.n_ant + config.n_plant {
        CreationRequest {
            position: groups[1]@[i - t - config.n_ant],
            category: Category::Plant,
            terrain: None,
        }
    } else {
        CreationRequest {
            position: groups[2]@[i - t - config.n_ant - config.n_plant],
            category: Category::Fungi,
            terrain: None,
        }
    }
}

/// The positions of the tile requests, in emission order.
pub open spec fn tile_positions(config: GenerationConfig, requests: Seq<CreationRequest>) -> Seq<
    HexCoordinate,
> {
    requests.subrange(0, tile_count(config)).map_values(|r: CreationRequest| r.position)
}

/// What a successful generation run guarantees of the emitted requests.
pub open spec fn generated_ok(
    config: GenerationConfig,
    weights: TerrainWeights,
    requests: Seq<CreationRequest>,
) -> bool {
    let t = tile_count(config);
    &&& !has_invalid(weights) && total_units(weights) > 0
    &&& requests.len() == t + entity_count(config)
    &&& forall|i: int|
        0 <= i < requests.len() ==> (#[trigger] requests[i]).category == category_of_index(
            config,
            i,
        )
    &&& forall|i: int|
        0 <= i < requests.len() ==> hex_dist(map_center(), (#[trigger] requests[i]).position)
            <= config.map_radius
    &&& forall|i: int| 0 <= i < t ==> tile_terrain_ok(weights, #[trigger] requests[i])
    &&& forall|i: int| t <= i < requests.len() ==> (#[trigger] requests[i]).terrain is None
    &&& forall|i: int, j: int|
        0 <= i < j < t ==> (#[trigger] requests[i]).position != (#[trigger] requests[j]).position
    &&& forall|p: HexCoordinate| #![trigger tile_positions(config, requests).contains(p)]
        hex_dist(map_center(), p) <= config.map_radius ==> tile_positions(
            config,
            requests,
        ).contains(p)
    &&& forall|i: int, j: int|
        t <= i < j < requests.len() ==> (#[trigger] requests[i]).position != (
        #[trigger] requests[j]).position
}

/// Appends one creation request per position of a drawn group, all of one
/// category and without terrain, keeping the requests already emitted.
fn push_category(
    requests: &mut Vec<CreationRequest>,
    group: &Vec<HexCoordinate>,
    category: Category,
)
    ensures
        final(requests)@.len() == old(requests)@.len() + group@.len(),
        forall|i: int|
            0 <= i < old(requests)@.len() ==> #[trigger] final(requests)@[i] == old(requests)@[i],
        forall|k: int|
            0 <= k < group@.len() ==> #[trigger] final(requests)@[old(requests)@.len() + k] == (
            CreationRequest { position: group@[k], category, terrain: None }),
{
    let ghost base = requests@;
    let mut k: usize = 0;
    while k < group.len()
        invariant
            k <= group@.len(),
            requests@.len() == base.len() + k as int,
            forall|i: int| 0 <= i < base.len() ==> #[trigger] requests@[i] == base[i],
            forall|m: int|
                0 <= m < k as int ==> #[trigger] requests@[base.len() + m] == (CreationRequest {
                    position: group@[m],
                    category,
                    terrain: None,
                }),
        decreases group@.len() - k,
    {
        requests.push(CreationRequest { position: group[k], category, terrain: None });
        k = k + 1;
    }
}

/// Runs both generation phases for a validated configuration and returns the
/// creation requests for the external sink: one tile request per position of
/// the map's hexagon, in enumeration order, then the entity requests, ants
/// first, then plants, then fungi, on pairwise distinct positions drawn from
/// the same hexagon. Fails with `WeightError::Invalid` exactly when some
/// weight is invalid, and with `WeightError::AllZero` exactly when all
/// weights are valid but zero; nothing else can fail.
pub fn generate(
    config: &GenerationConfig,
    weights: &TerrainWeights,
    rng: &mut RandomSource,
) -> (result: Result<Vec<CreationRequest>, WeightError>)
    requires
        config.wf(),
        hex_count(config.map_radius as int) <= usize::MAX,
    ensures
        match result {
            Ok(requests) => generated_ok(*config, *weights, requests@),
            Err(e) => (e == WeightError::Invalid <==> has_invalid(*weights)) && (e
                == WeightError::AllZero <==> (!has_invalid(*weights) && total_units(*weights)
                == 0)),
        },
{
    let radius: u32 = config.map_radius;
    let center = HexCoordinate { alpha: 0, beta: 0 };
    proof {
        assert(hex_count(radius as int) == 3 * (radius as int) * (radius as int) + 3 * (
        radius as int) + 1);
        assert(3 * (radius as int) * (radius as int) + 3 * (radius as int) + 1 >= 1)
            by (nonlinear_arith)
            requires radius as int >= 0;
    }
    let positions = HexCoordinate::hexagon(center, radius);
    // Phase 1: one tile request per position, with a weighted terrain draw.
    let mut requests: Vec<CreationRequest> = Vec::new();
    let mut idx: usize = 0;
    while idx < positions.len()
        invariant
            positions@.len() == hex_count(radius as int),
            forall|i: int|
                0 <= i < positions@.len() ==> hex_dist(center, #[trigger] positions@[i])
                    <= radius,
            idx <= positions@.len(),
            requests@.len() == idx as int,
            forall|i: int|
                0 <= i < idx as int ==> (#[trigger] requests@[i]).position == positions@[i],
            forall|i: int|
                0 <= i < idx as int ==> (#[trigger] requests@[i]).category == Category::Tile,
            forall|i: int|
                0 <= i < idx as int ==> tile_terrain_ok(*weights, #[trigger] requests@[i]),
            idx > 0 ==> !has_invalid(*weights) && total_units(*weights) > 0,
        decreases positions@.len() - idx as int,
    {
        let position = positions[idx];
        let terrain: TerrainType = match TerrainType::choose_random(rng, weights) {
            Ok(terrain) => terrain,
            Err(e) => {
                return Err(e);
            },
        };
        requests.push(
            CreationRequest { position, category: Category::Tile, terrain: Some(terrain) },
        );
        idx = idx + 1;
    }
    // Phase 2: draw distinct entity positions from the same candidates and
    // emit the entity requests, ants first, then plants, then fungi.
    let mut counts: Vec<usize> = Vec::new();
    counts.push(config.n_ant);
    counts.push(config.n_plant);
    counts.push(config.n_fungi);
    proof {
        assert(counts@ =~= seq![config.n_ant, config.n_plant, config.n_fungi]);
        assert(counts_before(counts@, 0) == 0);
        assert(counts_before(counts@, 1) == config.n_ant);
        assert(counts_before(counts@, 2) == config.n_ant + config.n_plant);
        assert(counts_before(counts@, 3) == config.n_ant + config.n_plant + config.n_fungi);
        assert(counts_total(counts@) == entity_count(*config));
        assert(distinct_seq(positions@));
    }
    let groups: Vec<Vec<HexCoordinate>> = match sample_unique(&positions, &counts, rng) {
        Ok(groups) => groups,
        Err(_) => unreached(),
    };
    let ghost base = requests@;
    let ghost t = tile_count(*config);
    push_category(&mut requests, &groups[0], Category::Ant);
    let ghost with_ants = requests@;
    push_category(&mut requests, &groups[1], Category::Plant);
    let ghost with_plants = requests@;
    push_category(&mut requests, &groups[2], Category::Fungi);
    proof {
        let reqs = requests@;
        assert(groups@[0]@.len() == config.n_ant && groups@[1]@.len() == config.n_plant
            && groups@[2]@.len() == config.n_fungi);
        assert(reqs.len() == t + entity_count(*config));
        // Every request below the tile count is the phase 1 request.
        assert forall|i: int| 0 <= i < t implies #[trigger] reqs[i] == base[i] by {
            assert(with_ants[i] == base[i]);
            assert(with_plants[i] == with_ants[i]);
        }
        // The three entity spans hold the drawn groups, in order.
        assert forall|k: int| 0 <= k < config.n_ant implies #[trigger] reqs[t + k] == (
        CreationRequest { position: groups@[0]@[k], category: Category::Ant, terrain: None }) by {
            assert(with_ants[t + k] == (CreationRequest {
                position: groups@[0]@[k],
                category: Category::Ant,
                terrain: None,
            }));
            assert(with_plants[t + k] == with_ants[t + k]);
            assert(reqs[t + k] == with_plants[t + k]);
        }
        assert forall|k: int| 0 <= k < config.n_plant implies #[trigger] reqs[t + config.n_ant + k]
            == (CreationRequest {
            position: groups@[1]@[k],
            category: Category::Plant,
            terrain: None,
        }) by {
            assert(with_plants[with_ants.len() + k] == (CreationRequest {
                position: groups@[1]@[k],
                category: Category::Plant,
                terrain: None,
            }));
            assert(reqs[with_ants.len() + k] == with_plants[with_ants.len() + k]);
        }
        assert forall|k: int| 0 <= k < config.n_fungi implies #[trigger] reqs[t + config.n_ant
            + config.n_plant + k] == (CreationRequest {
            position: groups@[2]@[k],
            category: Category::Fungi,
            terrain: None,
        }) by {
            assert(reqs[with_plants.len() + k] == (CreationRequest {
                position: groups@[2]@[k],
                category: Category::Fungi,
                terrain: None,
            }));
        }
        // Every request past the tile span is the entity request of its
        // index: the three spans hold the drawn groups, in order.
        assert forall|i: int| t <= i < reqs.len() implies #[trigger] reqs[i] == entity_request(
            *config,
            groups@,
            i,
        ) by {
            if i < t + config.n_ant {
                let k = i - t;
                assert(reqs[t + k] == (CreationRequest {
                    position: groups@[0]@[k],
                    category: Category::Ant,
                    terrain: None,
                }));
            } else if i < t + config.n_ant + config.n_plant {
                let k = i - t - config.n_ant;
                assert(reqs[t + config.n_ant + k] == (CreationRequest {
                    position: groups@[1]@[k],
                    category: Category::Plant,
                    terrain: None,
                }));
            } else {
                let k = i - t - config.n_ant - config.n_plant;
                assert(reqs[t + config.n_ant + config.n_plant + k] == (CreationRequest {
                    position: groups@[2]@[k],
                    category: Category::Fungi,
                    terrain: None,
                }));
            }
        }
        // Membership: every entity position was drawn from the candidates.
        assert forall|i: int| t <= i < reqs.len() implies hex_dist(
            map_center(),
            (#[trigger] reqs[i]).position,
        ) <= config.map_radius && reqs[i].terrain is None by {
            assert(reqs[i] == entity_request(*config, groups@, i));
            let q = reqs[i].position;
            assert(positions@.contains(q));
            let w = choose|w: int| 0 <= w < positions@.len() && positions@[w] == q;
            assert(hex_dist(center, positions@[w]) <= radius);
        }
        // Entity positions are pairwise distinct: the sampler never returns a
        // position twice.
        assert forall|i: int, j: int| t <= i < j < reqs.len() implies (
        #[trigger] reqs[i]).position != (#[trigger] reqs[j]).position by {
            assert(reqs[i] == entity_request(*config, groups@, i));
            assert(reqs[j] == entity_request(*config, groups@, j));
        }
        // The tile requests enumerate the hexagon: same positions, same order.
        assert(tile_positions(*config, reqs) =~= positions@);
        assert forall|p: HexCoordinate|
            hex_dist(map_center(), p) <= config.map_radius implies #[trigger] tile_positions(
            *config,
            reqs,
        ).contains(p) by {
            assert(positions@.contains(p));
        }
        assert(generated_ok(*config, *weights, reqs));
    }
    Ok(requests)
}

} // verus!
