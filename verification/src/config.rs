//! Immutable simulation parameters, loaded once before the simulation
//! starts and read-only thereafter. All scalar fields are fixed-point
//! milli-units; the well-formedness bounds are what the fixed-point
//! arithmetic needs to stay within `i64`.

use vstd::prelude::*;

use crate::biome::Biome;
use crate::{AREA_MAX, COUNT_MAX, DIM_MAX, ENERGY_MAX, SCALE, TRAIT_MAX};

verus! {

/// Food regeneration parameters of one biome: the per-tick increment and
/// the cap past which a tile no longer regenerates.
#[derive(Clone, Copy, Debug)]
pub struct BiomeDataConfig {
    pub food_availabilty: i64,
    pub max_food_availabilty: i64,
}

impl BiomeDataConfig {
    pub open spec fn wf(self) -> bool {
        &&& 0 <= self.food_availabilty <= ENERGY_MAX
        &&& 0 <= self.max_food_availabilty <= ENERGY_MAX
    }
}

/// Immutable simulation parameters.
#[derive(Clone, Copy, Debug)]
pub struct Config {
    pub width: usize,
    pub height: usize,
    pub initial_organisms: usize,
    pub initial_predators: usize,
    pub headless: bool,
    pub log_data: bool,
    pub forest: BiomeDataConfig,
    pub desert: BiomeDataConfig,
    pub water: BiomeDataConfig,
    pub grassland: BiomeDataConfig,
    pub initial_organism_energy: i64,
    pub initial_predator_energy: i64,
    pub initial_organism_speed: i64,
    pub initial_predator_speed: i64,
    pub initial_organism_size: i64,
    pub initial_predator_size: i64,
    pub initial_organism_reproduction_threshold: i64,
    pub initial_predator_reproduction_threshold: i64,
    pub initial_predator_hunting_efficiency: i64,
    pub initial_predator_satiation_threshold: i64,
    pub organism_mutability: i64,
    pub predator_mutability: i64,
    pub overcrowding_threshold_for_organisms: usize,
    pub overcrowding_threshold_for_predators: usize,
    pub max_predator_energy: i64,
    pub predator_energy_decay_rate: i64,
    pub organism_reproduction_cooldown: i64,
    pub predator_reproduction_cooldown: i64,
    pub max_total_entities: usize,
    pub seed: u64,
    pub generation_limit: Option<usize>,
    pub printing: bool,
}

impl Config {
    /// The regeneration parameters of biome `b`.
    pub open spec fn spec_biome_data(self, b: Biome) -> BiomeDataConfig {
        match b {
            Biome::Forest => self.forest,
            Biome::Desert => self.desert,
            Biome::Water => self.water,
            Biome::Grassland => self.grassland,
        }
    }

    /// The regeneration parameters of biome `b`.
    pub fn biome_data(&self, b: Biome) -> (r: BiomeDataConfig)
        ensures
            r == self.spec_biome_data(b),
    {
        match b {
            Biome::Forest => self.forest,
            Biome::Desert => self.desert,
            Biome::Water => self.water,
            Biome::Grassland => self.grassland,
        }
    }

    /// Bounds every stage relies on to keep the fixed-point arithmetic
    /// within `i64`.
    pub open spec fn wf(self) -> bool {
        &&& 1 <= self.width <= DIM_MAX
        &&& 1 <= self.height <= DIM_MAX
        &&& self.width * self.height <= AREA_MAX
        &&& self.initial_organisms <= COUNT_MAX
        &&& self.initial_predators <= COUNT_MAX
        &&& self.forest.wf()
        &&& self.desert.wf()
        &&& self.water.wf()
        &&& self.grassland.wf()
        &&& 0 <= self.initial_organism_energy <= ENERGY_MAX
        &&& 0 <= self.initial_predator_energy <= ENERGY_MAX
        &&& 1 <= self.initial_organism_speed <= TRAIT_MAX
        &&& 1 <= self.initial_predator_speed <= TRAIT_MAX
        &&& 1 <= self.initial_organism_size <= TRAIT_MAX
        &&& 1 <= self.initial_predator_size <= TRAIT_MAX
        &&& 0 <= self.initial_organism_reproduction_threshold <= ENERGY_MAX
        &&& 0 <= self.initial_predator_reproduction_threshold <= ENERGY_MAX
        &&& 0 <= self.initial_predator_hunting_efficiency <= TRAIT_MAX
        &&& 0 <= self.initial_predator_satiation_threshold <= ENERGY_MAX
        &&& 0 <= self.organism_mutability <= SCALE
        &&& 0 <= self.predator_mutability <= SCALE
        &&& self.overcrowding_threshold_for_organisms <= COUNT_MAX
        &&& self.overcrowding_threshold_for_predators <= COUNT_MAX
        &&& 0 <= self.max_predator_energy <= ENERGY_MAX
        &&& 0 <= self.predator_energy_decay_rate <= TRAIT_MAX
        &&& 0 <= self.organism_reproduction_cooldown <= ENERGY_MAX
        &&& 0 <= self.predator_reproduction_cooldown <= ENERGY_MAX
        &&& self.max_total_entities <= COUNT_MAX
    }
}

/// The built-in default parameter set.
pub open spec fn default_config_spec() -> Config {
    Config {
        width: 10,
        height: 10,
        initial_organisms: 10,
        initial_predators: 1,
        headless: false,
        log_data: false,
        forest: BiomeDataConfig { food_availabilty: 1000, max_food_availabilty: 100_000 },
        desert: BiomeDataConfig { food_availabilty: 1000, max_food_availabilty: 100_000 },
        water: BiomeDataConfig { food_availabilty: 1000, max_food_availabilty: 100_000 },
        grassland: BiomeDataConfig { food_availabilty: 1000, max_food_availabilty: 100_000 },
        initial_organism_energy: 100_000,
        initial_predator_energy: 100_000,
        initial_organism_speed: 1000,
        initial_predator_speed: 1000,
        initial_organism_size: 1000,
        initial_predator_size: 1000,
        initial_organism_reproduction_threshold: 100_000,
        initial_predator_reproduction_threshold: 100_000,
        initial_predator_hunting_efficiency: 1000,
        initial_predator_satiation_threshold: 100_000,
        organism_mutability: 100,
        predator_mutability: 100,
        overcrowding_threshold_for_organisms: 10,
        overcrowding_threshold_for_predators: 10,
        max_predator_energy: 1_500_000,
        predator_energy_decay_rate: 500,
        organism_reproduction_cooldown: 500,
        predator_reproduction_cooldown: 500,
        max_total_entities: 1000,
        seed: 0,
        generation_limit: None,
        printing: false,
    }
}

/// The built-in default parameter set.
pub fn default_config() -> (c: Config)
    ensures
        c == default_config_spec(),
        c.wf(),
{
    Config {
        width: 10,
        height: 10,
        initial_organisms: 10,
        initial_predators: 1,
        headless: false,
        log_data: false,
        forest: BiomeDataConfig { food_availabilty: 1000, max_food_availabilty: 100_000 },
        desert: BiomeDataConfig { food_availabilty: 1000, max_food_availabilty: 100_000 },
        water: BiomeDataConfig { food_availabilty: 1000, max_food_availabilty: 100_000 },
        grassland: BiomeDataConfig { food_availabilty: 1000, max_food_availabilty: 100_000 },
        initial_organism_energy: 100_000,
        initial_predator_energy: 100_000,
        initial_organism_speed: 1000,
        initial_predator_speed: 1000,
        initial_organism_size: 1000,
        initial_predator_size: 1000,
        initial_organism_reproduction_threshold: 100_000,
        initial_predator_reproduction_threshold: 100_000,
        initial_predator_hunting_efficiency: 1000,
        initial_predator_satiation_threshold: 100_000,
        organism_mutability: 100,
        predator_mutability: 100,
        overcrowding_threshold_for_organisms: 10,
        overcrowding_threshold_for_predators: 10,
        max_predator_energy: 1_500_000,
        predator_energy_decay_rate: 500,
        organism_reproduction_cooldown: 500,
        predator_reproduction_cooldown: 500,
        max_total_entities: 1000,
        seed: 0,
        generation_limit: None,
        printing: false,
    }
}

} // verus!
