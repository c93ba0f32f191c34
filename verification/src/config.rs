//! Validated generation configuration: the fatal configuration checks run
//! here, before any terrain or placement draw.
use vstd::prelude::*;

verus! {

use crate::hex::hex_count;

/// Fatal configuration errors, checked eagerly before generation starts.
#[derive(Clone, Copy, PartialEq, Eq, Structural, Debug)]
pub enum ConfigurationError {
    /// The map radius is not positive.
    NonPositiveRadius,
    /// More entities are requested than the map has tiles.
    TooManyEntities,
}

/// Configuration of a generation run: map radius and the entity counts per
/// category. A value of this type always satisfies [`GenerationConfig::wf`]:
/// the constructor rejects everything else.
#[derive(Clone, Copy, PartialEq, Eq, Structural, Debug)]
pub struct GenerationConfig {
    pub map_radius: u32,
    pub n_ant: usize,
    pub n_plant: usize,
    pub n_fungi: usize,
}

impl GenerationConfig {
    /// The configuration invariant: a positive radius, and an entity total
    /// that fits in the tile count of the hexagon of that radius.
    pub open spec fn wf(self) -> bool {
        &&& self.map_radius > 0
        &&& self.n_ant + self.n_plant + self.n_fungi <= hex_count(self.map_radius as int)
    }

    /// Validates and builds a configuration: fails with `NonPositiveRadius`
    /// exactly when the radius is zero, and with `TooManyEntities` exactly
    /// when the radius is positive but the requested entity total exceeds
    /// the tile count of the map.
    pub fn new(map_radius: u32, n_ant: usize, n_plant: usize, n_fungi: usize) -> (result: Result<
        GenerationConfig,
        ConfigurationError,
    >)
        ensures
            match result {
                Ok(config) => config == (GenerationConfig { map_radius, n_ant, n_plant, n_fungi })
                    && config.wf(),
                Err(e) => (e == ConfigurationError::NonPositiveRadius <==> map_radius == 0) && (e
                    == ConfigurationError::TooManyEntities <==> (map_radius > 0 && n_ant + n_plant
                    + n_fungi > hex_count(map_radius as int))),
            },
    {
        if map_radius == 0 {
            return Err(ConfigurationError::NonPositiveRadius);
        }
        let radius: u128 = map_radius as u128;
        proof {
            assert(3 * (radius as int) * (radius as int) + 3 * (radius as int) + 1
                < 0x100000000000000000) by (nonlinear_arith)
                requires radius <= 0xffffffffu128;
        }
        let tiles: u128 = 3 * radius * radius + 3 * radius + 1;
        let total: u128 = n_ant as u128 + n_plant as u128 + n_fungi as u128;
        if total > tiles {
            return Err(ConfigurationError::TooManyEntities);
        }
        Ok(GenerationConfig { map_radius, n_ant, n_plant, n_fungi })
    }
}

} // verus!
