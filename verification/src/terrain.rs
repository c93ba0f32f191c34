//! Terrain variants and weighted random terrain selection.
use vstd::prelude::*;

verus! {

use crate::rng::RandomSource;

/// The marker component for plain terrain.
#[derive(Clone, Copy, Debug)]
pub struct PlainTerrain;

/// The marker component for impassable terrain.
#[derive(Clone, Copy, Debug, Default)]
pub struct ImpassableTerrain;

/// The marker component for high terrain.
#[derive(Clone, Copy, Debug, Default)]
pub struct HighTerrain;

/// Available terrain types.
#[derive(Clone, Copy, PartialEq, Eq, Structural, Debug, Hash)]
pub enum TerrainType {
    /// Terrain with no distinguishing characteristics.
    Plain,
    /// Terrain that is impassable.
    Impassable,
    /// Terrain that has higher altitude compared to others.
    High,
}

/// A caller-supplied weight as the generation core reads it: either invalid
/// (negative or not a number in the caller's configuration) or a non-negative
/// magnitude in arbitrary proportional units. A variant the caller did not
/// set carries zero units.
#[derive(Clone, Copy, PartialEq, Eq, Structural, Debug)]
pub enum Weight {
    /// A weight the caller supplied that is no usable magnitude.
    Invalid,
    /// A non-negative magnitude; only the ratios between variants matter.
    Units(u32),
}

/// The weight table for a weighted terrain draw: one weight per variant.
#[derive(Clone, Copy, PartialEq, Eq, Structural, Debug)]
pub struct TerrainWeights {
    pub plain: Weight,
    pub impassable: Weight,
    pub high: Weight,
}

/// Errors of weighted terrain selection.
#[derive(Clone, Copy, PartialEq, Eq, Structural, Debug)]
pub enum WeightError {
    /// No variant has positive weight.
    AllZero,
    /// Some weight is invalid.
    Invalid,
}

/// The weight the table assigns to a variant.
pub open spec fn weight_of(weights: TerrainWeights, terrain: TerrainType) -> Weight {
    match terrain {
        TerrainType::Plain => weights.plain,
        TerrainType::Impassable => weights.impassable,
        TerrainType::High => weights.high,
    }
}

/// The magnitude of a variant's weight; an invalid weight counts as zero.
pub open spec fn units_of(weights: TerrainWeights, terrain: TerrainType) -> int {
    match weight_of(weights, terrain) {
        Weight::Invalid => 0,
        Weight::Units(u) => u as int,
    }
}

/// Whether any entry of the table is invalid.
pub open spec fn has_invalid(weights: TerrainWeights) -> bool {
    ||| weights.plain == Weight::Invalid
    ||| weights.impassable == Weight::Invalid
    ||| weights.high == Weight::Invalid
}

/// The sum of all weight magnitudes.
pub open spec fn total_units(weights: TerrainWeights) -> int {
    units_of(weights, TerrainType::Plain) + units_of(weights, TerrainType::Impassable)
        + units_of(weights, TerrainType::High)
}

/// The variant a uniform roll below `total_units` selects: the variants own
/// consecutive intervals of rolls, each as long as its weight, in declaration
/// order. A draw is therefore proportional to the weights.
pub open spec fn variant_at(weights: TerrainWeights, roll: int) -> TerrainType {
    if roll < units_of(weights, TerrainType::Plain) {
        TerrainType::Plain
    } else if roll < units_of(weights, TerrainType::Plain) + units_of(
        weights,
        TerrainType::Impassable,
    ) {
        TerrainType::Impassable
    } else {
        TerrainType::High
    }
}

impl TerrainType {
    /// The closed set of terrain variants, in declaration order.
    pub fn variants() -> (variants: Vec<TerrainType>)
        ensures
            variants@ =~= seq![TerrainType::Plain, TerrainType::Impassable, TerrainType::High],
    {
        let mut variants: Vec<TerrainType> = Vec::new();
        variants.push(TerrainType::Plain);
        variants.push(TerrainType::Impassable);
        variants.push(TerrainType::High);
        variants
    }

    /// Chooses a terrain variant at random, each variant with probability
    /// proportional to its weight. Fails with `WeightError::Invalid` exactly
    /// when some weight is invalid, and with `WeightError::AllZero` exactly
    /// when all weights are valid but zero; otherwise the drawn variant has
    /// positive weight and is the one whose roll interval the draw hit.
    pub fn choose_random(rng: &mut RandomSource, weights: &TerrainWeights) -> (result: Result<
        TerrainType,
        WeightError,
    >)
        ensures
            match result {
                Ok(terrain) => !has_invalid(*weights) && total_units(*weights) > 0 && units_of(
                    *weights,
                    terrain,
                ) > 0 && exists|roll: int|
                    0 <= roll < total_units(*weights) && terrain == variant_at(*weights, roll),
                Err(e) => (e == WeightError::Invalid <==> has_invalid(*weights)) && (e
                    == WeightError::AllZero <==> (!has_invalid(*weights) && total_units(*weights)
                    == 0)),
            },
    {
        let plain_units: u32 = match weights.plain {
            Weight::Units(u) => u,
            Weight::Invalid => {
                return Err(WeightError::Invalid);
            },
        };
        let impassable_units: u32 = match weights.impassable {
            Weight::Units(u) => u,
            Weight::Invalid => {
                return Err(WeightError::Invalid);
            },
        };
        let high_units: u32 = match weights.high {
            Weight::Units(u) => u,
            Weight::Invalid => {
                return Err(WeightError::Invalid);
            },
        };
        let total: u64 = plain_units as u64 + impassable_units as u64 + high_units as u64;
        if total == 0 {
            return Err(WeightError::AllZero);
        }
        let roll: u64 = rng.next_below(total);
        let chosen: TerrainType = if roll < plain_units as u64 {
            TerrainType::Plain
        } else if roll < plain_units as u64 + impassable_units as u64 {
            TerrainType::Impassable
        } else {
            TerrainType::High
        };
        proof {
            assert(chosen == variant_at(*weights, roll as int));
            assert((roll as int) < total_units(*weights));
        }
        Ok(chosen)
    }
}

/// Law: when exactly one variant carries positive weight, every variant that
/// a weighted draw can return (one whose weight is positive) is that variant.
pub proof fn lemma_sole_positive_weight(
    weights: TerrainWeights,
    only: TerrainType,
    drawn: TerrainType,
)
    requires
        forall|other: TerrainType| other != only ==> units_of(weights, other) == 0,
        units_of(weights, drawn) > 0,
    ensures
        drawn == only,
{
    if drawn != only {
        assert(units_of(weights, drawn) == 0);
    }
}

} // verus!
