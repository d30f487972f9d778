//! Biomes, their fixed movement base costs, and the per-organism
//! tolerance table with exactly one positive entry per biome.

use vstd::prelude::*;

use crate::TRAIT_MAX;

verus! {

/// Categorical terrain type of a tile, fixed at world generation.
#[derive(Clone, Copy, Debug, PartialEq, Eq, Structural)]
pub enum Biome {
    Forest,
    Desert,
    Water,
    Grassland,
}

/// Base movement cost for a foraging organism, in milli-units:
/// water is the worst terrain, grassland the best.
pub open spec fn org_base_cost(b: Biome) -> int {
    match b {
        Biome::Water => 100_000,
        Biome::Desert => 50_000,
        Biome::Grassland => 10_000,
        Biome::Forest => 20_000,
    }
}

/// Base movement cost for a foraging predator, in milli-units.
pub open spec fn pred_base_cost(b: Biome) -> int {
    match b {
        Biome::Water => 100_000,
        Biome::Desert => 10_000,
        Biome::Grassland => 5_000,
        Biome::Forest => 6_000,
    }
}

pub fn org_base_cost_of(b: Biome) -> (r: i64)
    ensures
        r == org_base_cost(b),
{
    match b {
        Biome::Water => 100_000,
        Biome::Desert => 50_000,
        Biome::Grassland => 10_000,
        Biome::Forest => 20_000,
    }
}

pub fn pred_base_cost_of(b: Biome) -> (r: i64)
    ensures
        r == pred_base_cost(b),
{
    match b {
        Biome::Water => 100_000,
        Biome::Desert => 10_000,
        Biome::Grassland => 5_000,
        Biome::Forest => 6_000,
    }
}

/// An organism's tolerance factor for each of the four biomes, in
/// milli-units. Holding one field per biome keeps the table at exactly
/// four entries by construction.
#[derive(Clone, Copy, Debug, PartialEq, Eq, Structural)]
pub struct BiomeTolerance {
    pub forest: i64,
    pub desert: i64,
    pub water: i64,
    pub grassland: i64,
}

impl BiomeTolerance {
    /// The tolerance factor for biome `b`.
    pub open spec fn spec_get(self, b: Biome) -> i64 {
        match b {
            Biome::Forest => self.forest,
            Biome::Desert => self.desert,
            Biome::Water => self.water,
            Biome::Grassland => self.grassland,
        }
    }

    /// All four tolerance entries are positive and bounded.
    pub open spec fn wf(self) -> bool {
        &&& 1 <= self.forest <= TRAIT_MAX
        &&& 1 <= self.desert <= TRAIT_MAX
        &&& 1 <= self.water <= TRAIT_MAX
        &&& 1 <= self.grassland <= TRAIT_MAX
    }

    /// The tolerance factor for biome `b`.
    pub fn get(&self, b: Biome) -> (r: i64)
        ensures
            r == self.spec_get(b),
    {
        match b {
            Biome::Forest => self.forest,
            Biome::Desert => self.desert,
            Biome::Water => self.water,
            Biome::Grassland => self.grassland,
        }
    }
}

} // verus!
