//! Aggregated per-generation statistics: counts, per-species trait
//! averages, the per-biome tolerance tally and the average tile food.
//! Divisions by a zero population are guarded by treating the count as
//! one.

use vstd::prelude::*;

use crate::agents::{OrganismWithPosition, PredatorWithPosition};
use crate::world::World;
use crate::{COUNT_MAX, ENERGY_MAX, TRAIT_MAX};

verus! {

/// Sum of one organism trait over a list, selected by `f`.
pub open spec fn org_sum(s: Seq<OrganismWithPosition>, f: spec_fn(OrganismWithPosition) -> int) -> int
    decreases s.len(),
{
    if s.len() == 0 {
        0
    } else {
        org_sum(s.drop_last(), f) + f(s.last())
    }
}

/// Sum of one predator trait over a list, selected by `f`.
pub open spec fn pred_sum(s: Seq<PredatorWithPosition>, f: spec_fn(PredatorWithPosition) -> int) -> int
    decreases s.len(),
{
    if s.len() == 0 {
        0
    } else {
        pred_sum(s.drop_last(), f) + f(s.last())
    }
}

/// Sum of the food over one row of tiles.
pub open spec fn row_food(row: Seq<crate::world::Tile>) -> int
    decreases row.len(),
{
    if row.len() == 0 {
        0
    } else {
        row_food(row.drop_last()) + row.last().food_availabilty
    }
}

/// Sum of the food over the first `n` rows of the grid.
pub open spec fn grid_food(w: World, n: int) -> int
    decreases n,
{
    if n <= 0 {
        0
    } else {
        grid_food(w, n - 1) + row_food(w.grid@[n - 1]@)
    }
}

/// An average guarded against an empty population (the divisor is at
/// least one), rounding toward zero.
pub open spec fn avg_of(sum: int, count: int) -> int {
    let d = if count <= 0 {
        1int
    } else {
        count
    };
    if sum >= 0 {
        sum / d
    } else {
        -((-sum) / d)
    }
}

/// Compute `avg_of` on machine integers.
pub fn avg_i64(sum: i64, count: usize) -> (r: i64)
    requires
        -4_600_000_000_000_000_000 <= sum <= 4_600_000_000_000_000_000,
        count <= 100_000_000,
    ensures
        r == avg_of(sum as int, count as int),
{
    let d: i64 = if count == 0 {
        1
    } else {
        count as i64
    };
    if sum >= 0 {
        sum / d
    } else {
        -((-sum) / d)
    }
}

/// Per-biome sums of organism tolerances.
#[derive(Clone, Copy, Debug, PartialEq, Eq, Structural)]
pub struct BiomeTally {
    pub forest: i64,
    pub desert: i64,
    pub water: i64,
    pub grassland: i64,
}

/// One generation's aggregated statistics, all scalar fields in
/// milli-units.
#[derive(Clone, Copy, Debug)]
pub struct GenerationStats {
    pub generation: usize,
    pub organism_count: usize,
    pub predator_count: usize,
    pub organism_avg_size: i64,
    pub organism_avg_speed: i64,
    pub organism_avg_energy: i64,
    pub organism_avg_reproduction_threshold: i64,
    pub predator_avg_size: i64,
    pub predator_avg_speed: i64,
    pub predator_avg_energy: i64,
    pub predator_avg_reproduction_threshold: i64,
    pub predator_avg_hunting_efficiency: i64,
    pub predator_avg_satiation_threshold: i64,
    pub biome_tally: BiomeTally,
    pub average_food: i64,
}

/// Compute the aggregated statistics of one generation.
#[verifier::loop_isolation(false)]
#[verifier::rlimit(60)]
pub fn generation_stats(
    orgs: &Vec<OrganismWithPosition>,
    preds: &Vec<PredatorWithPosition>,
    world: &World,
    generation: usize,
) -> (r: GenerationStats)
    requires
        world.wf(),
        orgs@.len() <= 4 * COUNT_MAX,
        preds@.len() <= 4 * COUNT_MAX,
        forall|i: int|
            0 <= i < orgs@.len() ==> (#[trigger] orgs@[i]).wf(
                world.width as int,
                world.height as int,
            ),
        forall|i: int|
            0 <= i < preds@.len() ==> (#[trigger] preds@[i]).wf(
                world.width as int,
                world.height as int,
            ),
    ensures
        r.generation == generation,
        r.organism_count == orgs@.len(),
        r.predator_count == preds@.len(),
        r.organism_avg_size == avg_of(
            org_sum(orgs@, |a: OrganismWithPosition| a.organism.size as int),
            orgs@.len() as int,
        ),
        r.organism_avg_speed == avg_of(
            org_sum(orgs@, |a: OrganismWithPosition| a.organism.speed as int),
            orgs@.len() as int,
        ),
        r.organism_avg_energy == avg_of(
            org_sum(orgs@, |a: OrganismWithPosition| a.organism.energy as int),
            orgs@.len() as int,
        ),
        r.organism_avg_reproduction_threshold == avg_of(
            org_sum(orgs@, |a: OrganismWithPosition| a.organism.reproduction_threshold as int),
            orgs@.len() as int,
        ),
        r.predator_avg_size == avg_of(
            pred_sum(preds@, |a: PredatorWithPosition| a.predator.size as int),
            preds@.len() as int,
        ),
        r.predator_avg_speed == avg_of(
            pred_sum(preds@, |a: PredatorWithPosition| a.predator.speed as int),
            preds@.len() as int,
        ),
        r.predator_avg_energy == avg_of(
            pred_sum(preds@, |a: PredatorWithPosition| a.predator.energy as int),
            preds@.len() as int,
        ),
        r.predator_avg_reproduction_threshold == avg_of(
            pred_sum(preds@, |a: PredatorWithPosition| a.predator.reproduction_threshold as int),
            preds@.len() as int,
        ),
        r.predator_avg_hunting_efficiency == avg_of(
            pred_sum(preds@, |a: PredatorWithPosition| a.predator.hunting_efficiency as int),
            preds@.len() as int,
        ),
        r.predator_avg_satiation_threshold == avg_of(
            pred_sum(preds@, |a: PredatorWithPosition| a.predator.satiation_threshold as int),
            preds@.len() as int,
        ),
        r.biome_tally.forest == org_sum(
            orgs@,
            |a: OrganismWithPosition| a.organism.biome_tolerance.forest as int,
        ),
        r.biome_tally.desert == org_sum(
            orgs@,
            |a: OrganismWithPosition| a.organism.biome_tolerance.desert as int,
        ),
        r.biome_tally.water == org_sum(
            orgs@,
            |a: OrganismWithPosition| a.organism.biome_tolerance.water as int,
        ),
        r.biome_tally.grassland == org_sum(
            orgs@,
            |a: OrganismWithPosition| a.organism.biome_tolerance.grassland as int,
        ),
        r.average_food == avg_of(
            grid_food(*world, world.height as int),
            world.width * world.height,
        ),
{
    let n = orgs.len();
    let mut size_sum: i64 = 0;
    let mut speed_sum: i64 = 0;
    let mut energy_sum: i64 = 0;
    let mut thr_sum: i64 = 0;
    let mut tf: i64 = 0;
    let mut td: i64 = 0;
    let mut tw: i64 = 0;
    let mut tg: i64 = 0;
    let mut j: usize = 0;
    while j < n
        invariant
            0 <= j <= n,
            size_sum == org_sum(
                orgs@.take(j as int),
                |a: OrganismWithPosition| a.organism.size as int,
            ),
            speed_sum == org_sum(
                orgs@.take(j as int),
                |a: OrganismWithPosition| a.organism.speed as int,
            ),
            energy_sum == org_sum(
                orgs@.take(j as int),
                |a: OrganismWithPosition| a.organism.energy as int,
            ),
            thr_sum == org_sum(
                orgs@.take(j as int),
                |a: OrganismWithPosition| a.organism.reproduction_threshold as int,
            ),
            tf == org_sum(
                orgs@.take(j as int),
                |a: OrganismWithPosition| a.organism.biome_tolerance.forest as int,
            ),
            td == org_sum(
                orgs@.take(j as int),
                |a: OrganismWithPosition| a.organism.biome_tolerance.desert as int,
            ),
            tw == org_sum(
                orgs@.take(j as int),
                |a: OrganismWithPosition| a.organism.biome_tolerance.water as int,
            ),
            tg == org_sum(
                orgs@.take(j as int),
                |a: OrganismWithPosition| a.organism.biome_tolerance.grassland as int,
            ),
            0 <= size_sum <= j * TRAIT_MAX,
            0 <= speed_sum <= j * TRAIT_MAX,
            -(j as int) * ENERGY_MAX <= energy_sum <= j * ENERGY_MAX,
            0 <= thr_sum <= j * ENERGY_MAX,
            0 <= tf <= j * TRAIT_MAX,
            0 <= td <= j * TRAIT_MAX,
            0 <= tw <= j * TRAIT_MAX,
            0 <= tg <= j * TRAIT_MAX,
        decreases n - j,
    {
        let a = orgs[j];
        proof {
            assert(orgs@.take(j + 1).drop_last() =~= orgs@.take(j as int));
            assert(orgs@.take(j + 1).last() == orgs@[j as int]);
            assert(orgs@[j as int].wf(world.width as int, world.height as int));
        }
        size_sum = size_sum + a.organism.size;
        speed_sum = speed_sum + a.organism.speed;
        energy_sum = energy_sum + a.organism.energy;
        thr_sum = thr_sum + a.organism.reproduction_threshold;
        tf = tf + a.organism.biome_tolerance.forest;
        td = td + a.organism.biome_tolerance.desert;
        tw = tw + a.organism.biome_tolerance.water;
        tg = tg + a.organism.biome_tolerance.grassland;
        j = j + 1;
    }
    assert(orgs@.take(n as int) =~= orgs@);

    let np = preds.len();
    let mut p_size: i64 = 0;
    let mut p_speed: i64 = 0;
    let mut p_energy: i64 = 0;
    let mut p_thr: i64 = 0;
    let mut p_hunt: i64 = 0;
    let mut p_sat: i64 = 0;
    let mut j2: usize = 0;
    while j2 < np
        invariant
            0 <= j2 <= np,
            p_size == pred_sum(
                preds@.take(j2 as int),
                |a: PredatorWithPosition| a.predator.size as int,
            ),
            p_speed == pred_sum(
                preds@.take(j2 as int),
                |a: PredatorWithPosition| a.predator.speed as int,
            ),
            p_energy == pred_sum(
                preds@.take(j2 as int),
                |a: PredatorWithPosition| a.predator.energy as int,
            ),
            p_thr == pred_sum(
                preds@.take(j2 as int),
                |a: PredatorWithPosition| a.predator.reproduction_threshold as int,
            ),
            p_hunt == pred_sum(
                preds@.take(j2 as int),
                |a: PredatorWithPosition| a.predator.hunting_efficiency as int,
            ),
            p_sat == pred_sum(
                preds@.take(j2 as int),
                |a: PredatorWithPosition| a.predator.satiation_threshold as int,
            ),
            0 <= p_size <= j2 * TRAIT_MAX,
            0 <= p_speed <= j2 * TRAIT_MAX,
            -(j2 as int) * ENERGY_MAX <= p_energy <= j2 * ENERGY_MAX,
            0 <= p_thr <= j2 * ENERGY_MAX,
            0 <= p_hunt <= j2 * TRAIT_MAX,
            0 <= p_sat <= j2 * ENERGY_MAX,
        decreases np - j2,
    {
        let a = preds[j2];
        proof {
            assert(preds@.take(j2 + 1).drop_last() =~= preds@.take(j2 as int));
            assert(preds@.take(j2 + 1).last() == preds@[j2 as int]);
            assert(preds@[j2 as int].wf(world.width as int, world.height as int));
        }
        p_size = p_size + a.predator.size;
        p_speed = p_speed + a.predator.speed;
        p_energy = p_energy + a.predator.energy;
        p_thr = p_thr + a.predator.reproduction_threshold;
        p_hunt = p_hunt + a.predator.hunting_efficiency;
        p_sat = p_sat + a.predator.satiation_threshold;
        j2 = j2 + 1;
    }
    assert(preds@.take(np as int) =~= preds@);

    let height = world.height;
    let width = world.width;
    let mut food: i64 = 0;
    let mut y: usize = 0;
    while y < height
        invariant
            0 <= y <= height,
            food == grid_food(*world, y as int),
            0 <= food <= (y * width) * (2 * ENERGY_MAX),
        decreases height - y,
    {
        let mut x: usize = 0;
        let ghost food_row_start = food;
        while x < width
            invariant
                0 <= x <= width,
                0 <= y < height,
                food == food_row_start + row_food(world.grid@[y as int]@.take(x as int)),
                0 <= food_row_start <= (y * width) * (2 * ENERGY_MAX),
                0 <= row_food(world.grid@[y as int]@.take(x as int)) <= x * (2 * ENERGY_MAX),
            decreases width - x,
        {
            let t = world.grid[y][x];
            proof {
                let row = world.grid@[y as int]@;
                assert(row.take(x + 1).drop_last() =~= row.take(x as int));
                assert(row.take(x + 1).last() == row[x as int]);
                assert(world.grid@[y as int]@[x as int].wf());
                assert(0 <= y * width <= 1_000_000 && 0 <= x * (2 * ENERGY_MAX)
                    <= 2_000_000_000_000_000_000 && (y * width) * (2 * ENERGY_MAX)
                    <= 2_000_000_000_000_000_000) by (nonlinear_arith)
                    requires
                        0 <= y < height,
                        0 <= x <= width,
                        0 <= width,
                        width * height <= 1_000_000,
                ;
            }
            food = food + t.food_availabilty;
            x = x + 1;
        }
        proof {
            assert(world.grid@[y as int]@.take(width as int) =~= world.grid@[y as int]@);
            assert((y * width) * (2 * ENERGY_MAX) + width * (2 * ENERGY_MAX) == ((y + 1)
                * width) * (2 * ENERGY_MAX)) by (nonlinear_arith);
        }
        y = y + 1;
    }
    proof {
        assert(0 <= (height * width) * (2 * ENERGY_MAX) <= 2_000_000_000_000_000_000)
            by (nonlinear_arith)
            requires
                0 <= height * width <= 1_000_000,
        ;
    }

    let tiles = width * height;
    proof {
        assert(1 <= width * height <= 1_000_000) by (nonlinear_arith)
            requires
                1 <= width,
                1 <= height,
                width * height <= 1_000_000 || (1 <= width && 1 <= height && width
                    * height <= 1_000_000),
                width * height <= 1_000_000,
        ;
    }

    GenerationStats {
        generation,
        organism_count: n,
        predator_count: np,
        organism_avg_size: avg_i64(size_sum, n),
        organism_avg_speed: avg_i64(speed_sum, n),
        organism_avg_energy: avg_i64(energy_sum, n),
        organism_avg_reproduction_threshold: avg_i64(thr_sum, n),
        predator_avg_size: avg_i64(p_size, np),
        predator_avg_speed: avg_i64(p_speed, np),
        predator_avg_energy: avg_i64(p_energy, np),
        predator_avg_reproduction_threshold: avg_i64(p_thr, np),
        predator_avg_hunting_efficiency: avg_i64(p_hunt, np),
        predator_avg_satiation_threshold: avg_i64(p_sat, np),
        biome_tally: BiomeTally { forest: tf, desert: td, water: tw, grassland: tg },
        average_food: avg_i64(food, tiles),
    }
}

} // verus!
