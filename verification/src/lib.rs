//! An agent-based ecological simulation: organisms and predators move,
//! forage, reproduce and die on a procedurally generated biome grid,
//! one generation per tick, under configurable parameters.
//!
//! All scalar quantities (energy, speed, size, food, tolerances) are held
//! in fixed-point milli-units: an `i64` value of 1000 stands for 1.0.
//! Numeric edge cases are handled by clamping rather than by errors:
//! energies are clamped into `[-ENERGY_MAX, ENERGY_MAX]` and traits into
//! `[1, TRAIT_MAX]`, so no update can overflow.
//!
//! Randomness comes from one persistent seeded stream (`rng::SimRng`),
//! advanced from stage to stage and from tick to tick. Reseeding the
//! generator from the same configured seed at every stage invocation was
//! considered and rejected: a single evolving stream gives each stage
//! fresh draws while runs remain reproducible from the configuration.

use vstd::prelude::*;

pub mod adaptation;
pub mod agents;
pub mod biome;
pub mod config;
pub mod feeding;
pub mod movement;
pub mod population;
pub mod predation;
pub mod reproduction;
pub mod rng;
pub mod sim;
pub mod stats;
pub mod util;
pub mod world;

verus! {

/// Number of fixed-point milli-units in one whole unit.
pub const SCALE: i64 = 1000;

/// Largest magnitude an energy-like quantity (energy, threshold,
/// satiation, cooldown, food) can take, in milli-units.
pub const ENERGY_MAX: i64 = 1_000_000_000_000;

/// Largest value a trait-like quantity (speed, size, tolerance,
/// hunting efficiency) can take, in milli-units.
pub const TRAIT_MAX: i64 = 1_000_000;

/// Floor for mutated size and speed, in milli-units (0.1).
pub const TRAIT_FLOOR: i64 = 100;

/// Largest allowed grid side length.
pub const DIM_MAX: usize = 10_000;

/// Largest allowed number of tiles (width times height).
pub const AREA_MAX: usize = 1_000_000;

/// Largest allowed agent count in a configuration (initial populations,
/// population cap, overcrowding thresholds).
pub const COUNT_MAX: usize = 1_000_000;

/// Clamp an integer into `[lo, hi]`.
pub open spec fn clamp_i(x: int, lo: int, hi: int) -> int {
    if x < lo {
        lo
    } else if x > hi {
        hi
    } else {
        x
    }
}

/// Clamp an energy value into `[-ENERGY_MAX, ENERGY_MAX]`.
pub open spec fn clamp_e(x: int) -> int {
    clamp_i(x, -(ENERGY_MAX as int), ENERGY_MAX as int)
}

/// Clamp an `i64` into `[lo, hi]`.
pub fn clamp_i64(x: i64, lo: i64, hi: i64) -> (r: i64)
    requires
        lo <= hi,
    ensures
        r == clamp_i(x as int, lo as int, hi as int),
{
    if x < lo {
        lo
    } else if x > hi {
        hi
    } else {
        x
    }
}

/// Clamp an energy value into `[-ENERGY_MAX, ENERGY_MAX]`.
pub fn clamp_energy(x: i64) -> (r: i64)
    ensures
        r == clamp_e(x as int),
{
    clamp_i64(x, -ENERGY_MAX, ENERGY_MAX)
}

/// A grid coordinate pair; every agent has exactly one, always within
/// the world bounds.
#[derive(Clone, Copy, Debug, PartialEq, Eq, Structural)]
pub struct Position {
    pub x: usize,
    pub y: usize,
}

impl Position {
    /// A position is in bounds of a `width` by `height` grid.
    pub open spec fn in_bounds(self, width: int, height: int) -> bool {
        self.x < width && self.y < height
    }
}

/// Clamp a coordinate displaced by `d` back into `[0, dim - 1]`.
pub open spec fn clamp_coord(c: int, d: int, dim: int) -> int {
    clamp_i(c + d, 0, dim - 1)
}

/// Move coordinate `c` by `d` (one of -1, 0, 1), clamped to `[0, dim - 1]`.
pub fn step_coord(c: usize, d: i64, dim: usize) -> (r: usize)
    requires
        1 <= dim <= DIM_MAX,
        c < dim,
        -1 <= d <= 1,
    ensures
        r == clamp_coord(c as int, d as int, dim as int),
        r < dim,
{
    let cc = c as i64 + d;
    let r = clamp_i64(cc, 0, dim as i64 - 1);
    r as usize
}

} // verus!
