//! The two agent kinds and their well-formedness, the random tolerance
//! table of a newborn organism, and the shared trait-mutation step used
//! by reproduction.

use vstd::prelude::*;

use crate::biome::{Biome, BiomeTolerance};
use crate::rng::{draw_below, draw_delta, SimRng};
use crate::{clamp_i, clamp_i64, Position, ENERGY_MAX, SCALE, TRAIT_MAX};

verus! {

/// A forager: lives off tile food, adapts to biomes through its
/// tolerance table, dies at energy <= 0.
#[derive(Clone, Copy, Debug)]
pub struct Organism {
    pub energy: i64,
    pub speed: i64,
    pub size: i64,
    pub reproduction_threshold: i64,
    pub reproduction_cooldown: i64,
    pub biome_tolerance: BiomeTolerance,
}

impl Organism {
    /// Every scalar is inside the fixed-point bounds and the tolerance
    /// table holds exactly the four biomes with positive values.
    pub open spec fn wf(self) -> bool {
        &&& -ENERGY_MAX <= self.energy <= ENERGY_MAX
        &&& 1 <= self.speed <= TRAIT_MAX
        &&& 1 <= self.size <= TRAIT_MAX
        &&& 0 <= self.reproduction_threshold <= ENERGY_MAX
        &&& -SCALE <= self.reproduction_cooldown <= ENERGY_MAX
        &&& self.biome_tolerance.wf()
    }
}

/// A hunter: chases and eats organisms while below its satiation
/// threshold, dies at energy <= 0.
#[derive(Clone, Copy, Debug)]
pub struct Predator {
    pub energy: i64,
    pub speed: i64,
    pub size: i64,
    pub reproduction_threshold: i64,
    pub hunting_efficiency: i64,
    pub satiation_threshold: i64,
    pub reproduction_cooldown: i64,
}

impl Predator {
    /// Every scalar is inside the fixed-point bounds.
    pub open spec fn wf(self) -> bool {
        &&& -ENERGY_MAX <= self.energy <= ENERGY_MAX
        &&& 1 <= self.speed <= TRAIT_MAX
        &&& 1 <= self.size <= TRAIT_MAX
        &&& 0 <= self.reproduction_threshold <= ENERGY_MAX
        &&& 0 <= self.hunting_efficiency <= TRAIT_MAX
        &&& 0 <= self.satiation_threshold <= ENERGY_MAX
        &&& -SCALE <= self.reproduction_cooldown <= ENERGY_MAX
    }
}

/// An organism together with its grid position.
#[derive(Clone, Copy, Debug)]
pub struct OrganismWithPosition {
    pub organism: Organism,
    pub position: Position,
}

impl OrganismWithPosition {
    pub open spec fn wf(self, width: int, height: int) -> bool {
        self.organism.wf() && self.position.in_bounds(width, height)
    }
}

/// A predator together with its grid position.
#[derive(Clone, Copy, Debug)]
pub struct PredatorWithPosition {
    pub predator: Predator,
    pub position: Position,
}

impl PredatorWithPosition {
    pub open spec fn wf(self, width: int, height: int) -> bool {
        self.predator.wf() && self.position.in_bounds(width, height)
    }
}

/// One tolerance entry: in [1.0, 1.5) whole units for the biome the
/// organism was born on, in [0.1, 0.8) for the other three.
pub open spec fn tolerance_draw(same: bool, seed: u64, idx: nat) -> i64 {
    if same {
        (1000 + draw_below(seed, idx, 500)) as i64
    } else {
        (100 + draw_below(seed, idx, 700)) as i64
    }
}

/// The tolerance table drawn for an organism born on `tile_biome`, from
/// four consecutive draws in the fixed biome order.
pub open spec fn gen_tolerance(tile_biome: Biome, seed: u64, idx: nat) -> BiomeTolerance {
    BiomeTolerance {
        forest: tolerance_draw(tile_biome == Biome::Forest, seed, idx),
        desert: tolerance_draw(tile_biome == Biome::Desert, seed, idx + 1),
        water: tolerance_draw(tile_biome == Biome::Water, seed, idx + 2),
        grassland: tolerance_draw(tile_biome == Biome::Grassland, seed, idx + 3),
    }
}

fn tolerance_entry(same: bool, rng: &mut SimRng) -> (r: i64)
    ensures
        final(rng).seed() == old(rng).seed(),
        final(rng).idx() == old(rng).idx() + 1,
        r == tolerance_draw(same, old(rng).seed(), old(rng).idx()),
        1 <= r <= TRAIT_MAX,
{
    if same {
        1000 + rng.below(500) as i64
    } else {
        100 + rng.below(700) as i64
    }
}

/// Draw a fresh tolerance table for an organism born on `tile_biome`:
/// favourable for the home biome, modest for the rest, all positive.
pub fn get_biome_tolerance(tile_biome: &Biome, rng: &mut SimRng) -> (r: BiomeTolerance)
    ensures
        final(rng).seed() == old(rng).seed(),
        final(rng).idx() == old(rng).idx() + 4,
        r == gen_tolerance(*tile_biome, old(rng).seed(), old(rng).idx()),
        r.wf(),
{
    let forest = tolerance_entry(matches!(tile_biome, Biome::Forest), rng);
    let desert = tolerance_entry(matches!(tile_biome, Biome::Desert), rng);
    let water = tolerance_entry(matches!(tile_biome, Biome::Water), rng);
    let grassland = tolerance_entry(matches!(tile_biome, Biome::Grassland), rng);
    BiomeTolerance { forest, desert, water, grassland }
}

/// A trait value perturbed by a symmetric mutation draw and clamped
/// into `[lo, hi]`: `v * (1 + delta) ` in whole units.
pub open spec fn mutated(v: int, delta: int, lo: int, hi: int) -> int {
    clamp_i(v * (1000 + delta) / 1000, lo, hi)
}

/// Apply one mutation draw to trait value `v` with mutability `m`,
/// clamping the result into `[lo, hi]`.
pub fn mutate_scaled(v: i64, m: i64, lo: i64, hi: i64, rng: &mut SimRng) -> (r: i64)
    requires
        0 <= v <= ENERGY_MAX,
        0 <= m <= SCALE,
        0 <= lo <= hi <= ENERGY_MAX,
    ensures
        final(rng).seed() == old(rng).seed(),
        final(rng).idx() == old(rng).idx() + 1,
        r == mutated(
            v as int,
            draw_delta(old(rng).seed(), old(rng).idx(), m as int),
            lo as int,
            hi as int,
        ),
        lo <= r <= hi,
{
    let d = rng.delta(m);
    proof {
        assert(0 <= v * (1000 + d) <= 2_000_000_000_000_000) by (nonlinear_arith)
            requires
                0 <= v <= ENERGY_MAX,
                -1000 <= d <= 1000,
        ;
    }
    let raw = v * (1000 + d) / 1000;
    clamp_i64(raw, lo, hi)
}

} // verus!
