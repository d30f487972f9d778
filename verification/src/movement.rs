//! The movement stage. Foragers pick the cheapest of the eight
//! neighbouring cells, cost `base / tolerance + jitter`, and pay a
//! movement energy cost; water is lethal to organisms. Predators pursue
//! the nearest living prey within the attack radius with one unit step
//! per axis, or fall back to foraging costs, then pay a decay cost.

use vstd::prelude::*;

use crate::agents::{Organism, OrganismWithPosition, Predator, PredatorWithPosition};
use crate::biome::{org_base_cost, org_base_cost_of, pred_base_cost, pred_base_cost_of, Biome};
use crate::config::Config;
use crate::rng::{draw_below, SimRng};
use crate::util::{first_min_from, first_min_idx};
use crate::world::{tile_at, World};
use crate::{clamp_coord, clamp_e, clamp_energy, step_coord, Position, SCALE};

verus! {

/// Horizontal offset of direction `k` in the fixed Moore-neighbourhood
/// order.
pub open spec fn dir_dx(k: int) -> int {
    if k == 0 || k == 3 || k == 5 {
        -1
    } else if k == 1 || k == 6 {
        0
    } else {
        1
    }
}

/// Vertical offset of direction `k` in the fixed Moore-neighbourhood
/// order.
pub open spec fn dir_dy(k: int) -> int {
    if k == 0 || k == 1 || k == 2 {
        -1
    } else if k == 3 || k == 4 {
        0
    } else {
        1
    }
}

/// The `k`-th direction of the Moore neighbourhood.
pub fn dir_of(k: usize) -> (d: (i64, i64))
    requires
        k < 8,
    ensures
        d.0 == dir_dx(k as int),
        d.1 == dir_dy(k as int),
        -1 <= d.0 <= 1,
        -1 <= d.1 <= 1,
{
    match k {
        0 => (-1, -1),
        1 => (0, -1),
        2 => (1, -1),
        3 => (-1, 0),
        4 => (1, 0),
        5 => (-1, 1),
        6 => (0, 1),
        _ => (1, 1),
    }
}

/// Position `p` moved one step in direction `k`, clamped to the grid.
pub open spec fn moved_pos(p: Position, k: int, width: int, height: int) -> Position {
    Position {
        x: clamp_coord(p.x as int, dir_dx(k), width) as usize,
        y: clamp_coord(p.y as int, dir_dy(k), height) as usize,
    }
}

/// Movement cost an organism sees for direction `k`: the candidate
/// tile's base cost divided by the organism's tolerance for its biome,
/// plus a jitter draw below 5 whole units.
pub open spec fn org_cost(w: World, a: OrganismWithPosition, seed: u64, idx: nat, k: int) -> int {
    let t = tile_at(w, moved_pos(a.position, k, w.width as int, w.height as int));
    org_base_cost(t.biome) * 1000 / (a.organism.biome_tolerance.spec_get(t.biome) as int)
        + draw_below(seed, idx + k as nat, 5000)
}

/// The eight candidate costs of one organism, jitters drawn in
/// direction order.
pub open spec fn org_costs(w: World, a: OrganismWithPosition, seed: u64, idx: nat) -> Seq<int> {
    Seq::new(8, |k: int| org_cost(w, a, seed, idx, k))
}

/// One organism after the movement stage: dead organisms do not move;
/// a living one steps into its minimum-cost direction (earliest
/// direction wins ties), pays `0.1 * speed * size` energy, and is
/// killed outright (energy forced to -1 whole unit) if the tile it
/// stands on afterwards is water.
pub open spec fn org_step(w: World, a: OrganismWithPosition, seed: u64, idx: nat) -> OrganismWithPosition {
    if a.organism.energy <= 0 {
        a
    } else {
        let k = first_min_idx(org_costs(w, a, seed, idx));
        let np = moved_pos(a.position, k, w.width as int, w.height as int);
        let e1 = clamp_e(a.organism.energy - a.organism.speed * a.organism.size / 10_000);
        let e2 = if tile_at(w, np).biome == Biome::Water {
            -SCALE as int
        } else {
            e1
        };
        OrganismWithPosition {
            organism: Organism { energy: e2 as i64, ..a.organism },
            position: np,
        }
    }
}

/// Number of random draws the movement stage spends on one organism.
pub open spec fn org_move_draws(a: OrganismWithPosition) -> nat {
    if a.organism.energy <= 0 {
        0
    } else {
        8
    }
}

/// Stream position after the movement stage has processed the first `j`
/// organisms.
pub open spec fn org_idx_at(s: Seq<OrganismWithPosition>, j: int, idx0: nat) -> nat
    decreases j,
{
    if j <= 0 {
        idx0
    } else {
        org_idx_at(s, j - 1, idx0) + org_move_draws(s[j - 1])
    }
}

/// Move every living organism to its minimum-cost neighbouring cell,
/// charge the movement energy cost, and kill any organism that ends up
/// on water.
#[verifier::loop_isolation(false)]
pub fn organism_movement(world: &World, agents: &mut Vec<OrganismWithPosition>, rng: &mut SimRng)
    requires
        world.wf(),
        forall|i: int|
            0 <= i < old(agents)@.len() ==> (#[trigger] old(agents)@[i]).wf(
                world.width as int,
                world.height as int,
            ),
    ensures
        final(agents)@.len() == old(agents)@.len(),
        forall|i: int|
            0 <= i < old(agents)@.len() ==> #[trigger] final(agents)@[i] == org_step(
                *world,
                old(agents)@[i],
                old(rng).seed(),
                org_idx_at(old(agents)@, i, old(rng).idx()),
            ),
        final(rng).seed() == old(rng).seed(),
        final(rng).idx() == org_idx_at(old(agents)@, old(agents)@.len() as int, old(rng).idx()),
        forall|i: int|
            0 <= i < final(agents)@.len() ==> (#[trigger] final(agents)@[i]).wf(
                world.width as int,
                world.height as int,
            ),
        forall|i: int|
            0 <= i < final(agents)@.len() && tile_at(*world, final(agents)@[i].position).biome
                == Biome::Water ==> final(agents)@[i].organism.energy <= 0,
{
    let ghost olds = agents@;
    let ghost seed0 = rng.seed();
    let ghost idx0 = rng.idx();
    let n = agents.len();
    let mut j: usize = 0;
    while j < n
        invariant
            0 <= j <= n,
            agents@.len() == n,
            rng.seed() == seed0,
            rng.idx() == org_idx_at(olds, j as int, idx0),
            forall|i: int|
                0 <= i < j ==> #[trigger] agents@[i] == org_step(
                    *world,
                    olds[i],
                    seed0,
                    org_idx_at(olds, i, idx0),
                ),
            forall|i: int| j <= i < n ==> #[trigger] agents@[i] == olds[i],
        decreases n - j,
    {
        let a = agents[j];
        if a.organism.energy > 0 {
            let ghost idx_j = org_idx_at(olds, j as int, idx0);
            let ghost cs = org_costs(*world, a, seed0, idx_j);
            let mut best_k: usize = 0;
            let mut best_cost: i64 = 0;
            let mut k: usize = 0;
            while k < 8
                invariant
                    0 <= k <= 8,
                    agents@.len() == n,
                    0 <= j < n,
                    a == agents@[j as int],
                    a == olds[j as int],
                    a.organism.energy > 0,
                    rng.seed() == seed0,
                    rng.idx() == idx_j + k as nat,
                    cs == org_costs(*world, a, seed0, idx_j),
                    k == 0 ==> best_k == 0,
                    k > 0 ==> 0 <= best_k < k && best_cost == cs[best_k as int]
                        && first_min_from(cs, k as int, best_k as int) == first_min_idx(cs),
                decreases 8 - k,
            {
                let (dx, dy) = dir_of(k);
                let nx = step_coord(a.position.x, dx, world.width);
                let ny = step_coord(a.position.y, dy, world.height);
                let tile = world.grid[ny][nx];
                let base = org_base_cost_of(tile.biome);
                let tol = a.organism.biome_tolerance.get(tile.biome);
                let jit = rng.below(5000);
                assert(tile == tile_at(
                    *world,
                    moved_pos(a.position, k as int, world.width as int, world.height as int),
                ));
                let cost = base * 1000 / tol + jit as i64;
                assert(cost == cs[k as int]);
                if k == 0 {
                    best_k = 0;
                    best_cost = cost;
                } else if cost < best_cost {
                    best_k = k;
                    best_cost = cost;
                }
                k = k + 1;
            }
            assert(first_min_idx(cs) == best_k as int);
            let (dx, dy) = dir_of(best_k);
            let nx = step_coord(a.position.x, dx, world.width);
            let ny = step_coord(a.position.y, dy, world.height);
            proof {
                assert(0 <= a.organism.speed * a.organism.size <= 1_000_000_000_000)
                    by (nonlinear_arith)
                    requires
                        1 <= a.organism.speed <= 1_000_000,
                        1 <= a.organism.size <= 1_000_000,
                ;
            }
            let ec = a.organism.speed * a.organism.size / 10_000;
            let mut e = clamp_energy(a.organism.energy - ec);
            let tile = world.grid[ny][nx];
            if let Biome::Water = tile.biome {
                e = -SCALE;
            }
            let na = OrganismWithPosition {
                organism: Organism { energy: e, ..a.organism },
                position: Position { x: nx, y: ny },
            };
            assert(na == org_step(*world, olds[j as int], seed0, idx_j));
            agents[j] = na;
        }
        j = j + 1;
    }
}

/// Squared-distance key of prey `k` as a predator at `p` sees it: the
/// true squared distance when the prey is living (energy > 0) and
/// within the attack radius (at most 1), otherwise 2 so it can never
/// win. Dead organisms that the cleanup pass has not yet removed are
/// not prey.
pub open spec fn prey_key(preys: Seq<OrganismWithPosition>, p: Position, k: int) -> int {
    let dx = p.x as int - preys[k].position.x as int;
    let dy = p.y as int - preys[k].position.y as int;
    let d = dx * dx + dy * dy;
    if preys[k].organism.energy > 0 && d <= 1 {
        d
    } else {
        2
    }
}

/// The keys of all prey for a predator at `p`.
pub open spec fn prey_keys(preys: Seq<OrganismWithPosition>, p: Position) -> Seq<int> {
    Seq::new(preys.len(), |k: int| prey_key(preys, p, k))
}

/// The prey a predator at `p` pursues: the first nearest living one
/// within squared distance 1, if any.
pub open spec fn closest_prey(preys: Seq<OrganismWithPosition>, p: Position) -> Option<int> {
    if preys.len() == 0 {
        None
    } else {
        let k = first_min_idx(prey_keys(preys, p));
        if prey_keys(preys, p)[k] <= 1 {
            Some(k)
        } else {
            None
        }
    }
}

/// Sign of an integer, the unit pursuit step along one axis.
pub open spec fn sign(d: int) -> int {
    if d > 0 {
        1
    } else if d < 0 {
        -1
    } else {
        0
    }
}

/// Movement cost a predator sees for direction `k` when foraging.
pub open spec fn pred_cost(w: World, p: Position, seed: u64, idx: nat, k: int) -> int {
    let t = tile_at(w, moved_pos(p, k, w.width as int, w.height as int));
    pred_base_cost(t.biome) + draw_below(seed, idx + k as nat, 5000)
}

/// The eight candidate foraging costs of one predator.
pub open spec fn pred_costs(w: World, p: Position, seed: u64, idx: nat) -> Seq<int> {
    Seq::new(8, |k: int| pred_cost(w, p, seed, idx, k))
}

/// One predator after the movement stage: dead predators do not move; a
/// living one steps one cell toward the nearest living prey within the
/// attack radius, or if none is in range forages into its minimum-cost
/// direction; either way it then pays `decay_rate * speed * size`
/// energy.
pub open spec fn pred_step(
    w: World,
    preys: Seq<OrganismWithPosition>,
    a: PredatorWithPosition,
    decay_rate: i64,
    seed: u64,
    idx: nat,
) -> PredatorWithPosition {
    if a.predator.energy <= 0 {
        a
    } else {
        let np = match closest_prey(preys, a.position) {
            Some(t) => {
                let dx = preys[t].position.x as int - a.position.x as int;
                let dy = preys[t].position.y as int - a.position.y as int;
                Position {
                    x: clamp_coord(a.position.x as int, sign(dx), w.width as int) as usize,
                    y: clamp_coord(a.position.y as int, sign(dy), w.height as int) as usize,
                }
            },
            None => {
                let k = first_min_idx(pred_costs(w, a.position, seed, idx));
                moved_pos(a.position, k, w.width as int, w.height as int)
            },
        };
        let e = clamp_e(
            a.predator.energy - (decay_rate as int * a.predator.speed as int / 1000)
                * a.predator.size as int / 1000,
        );
        PredatorWithPosition {
            predator: Predator { energy: e as i64, ..a.predator },
            position: np,
        }
    }
}

/// Number of random draws the movement stage spends on one predator.
pub open spec fn pred_move_draws(
    preys: Seq<OrganismWithPosition>,
    a: PredatorWithPosition,
) -> nat {
    if a.predator.energy <= 0 {
        0
    } else if closest_prey(preys, a.position) is Some {
        0
    } else {
        8
    }
}

/// Stream position after the movement stage has processed the first `j`
/// predators.
pub open spec fn pred_idx_at(
    s: Seq<PredatorWithPosition>,
    preys: Seq<OrganismWithPosition>,
    j: int,
    idx0: nat,
) -> nat
    decreases j,
{
    if j <= 0 {
        idx0
    } else {
        pred_idx_at(s, preys, j - 1, idx0) + pred_move_draws(preys, s[j - 1])
    }
}

/// Move every living predator: pursue the nearest living prey within
/// the attack radius, else forage; then apply the energy decay.
#[verifier::loop_isolation(false)]
pub fn predator_movement(
    world: &World,
    preds: &mut Vec<PredatorWithPosition>,
    preys: &Vec<OrganismWithPosition>,
    config: &Config,
    rng: &mut SimRng,
)
    requires
        world.wf(),
        config.wf(),
        forall|i: int|
            0 <= i < old(preds)@.len() ==> (#[trigger] old(preds)@[i]).wf(
                world.width as int,
                world.height as int,
            ),
        forall|i: int|
            0 <= i < preys@.len() ==> (#[trigger] preys@[i]).wf(
                world.width as int,
                world.height as int,
            ),
    ensures
        final(preds)@.len() == old(preds)@.len(),
        forall|i: int|
            0 <= i < old(preds)@.len() ==> #[trigger] final(preds)@[i] == pred_step(
                *world,
                preys@,
                old(preds)@[i],
                config.predator_energy_decay_rate,
                old(rng).seed(),
                pred_idx_at(old(preds)@, preys@, i, old(rng).idx()),
            ),
        final(rng).seed() == old(rng).seed(),
        final(rng).idx() == pred_idx_at(
            old(preds)@,
            preys@,
            old(preds)@.len() as int,
            old(rng).idx(),
        ),
        forall|i: int|
            0 <= i < final(preds)@.len() ==> (#[trigger] final(preds)@[i]).wf(
                world.width as int,
                world.height as int,
            ),
{
    let ghost olds = preds@;
    let ghost seed0 = rng.seed();
    let ghost idx0 = rng.idx();
    let n = preds.len();
    let mut j: usize = 0;
    while j < n
        invariant
            0 <= j <= n,
            preds@.len() == n,
            rng.seed() == seed0,
            rng.idx() == pred_idx_at(olds, preys@, j as int, idx0),
            forall|i: int|
                0 <= i < j ==> #[trigger] preds@[i] == pred_step(
                    *world,
                    preys@,
                    olds[i],
                    config.predator_energy_decay_rate,
                    seed0,
                    pred_idx_at(olds, preys@, i, idx0),
                ),
            forall|i: int| j <= i < n ==> #[trigger] preds@[i] == olds[i],
        decreases n - j,
    {
        let a = preds[j];
        if a.predator.energy > 0 {
            let ghost idx_j = pred_idx_at(olds, preys@, j as int, idx0);
            let ghost keys = prey_keys(preys@, a.position);
            let m = preys.len();
            let mut best_t: usize = 0;
            let mut best_key: i64 = 2;
            let mut t: usize = 0;
            while t < m
                invariant
                    0 <= t <= m,
                    m == preys@.len(),
                    keys == prey_keys(preys@, a.position),
                    a.position.in_bounds(world.width as int, world.height as int),
                    t == 0 ==> best_t == 0 && best_key == 2,
                    t > 0 ==> 0 <= best_t < t && best_key == keys[best_t as int]
                        && first_min_from(keys, t as int, best_t as int) == first_min_idx(keys),
                decreases m - t,
            {
                let q = preys[t].position;
                assert(preys@[t as int].wf(world.width as int, world.height as int));
                let dx = a.position.x as i64 - q.x as i64;
                let dy = a.position.y as i64 - q.y as i64;
                proof {
                    assert(0 <= dx * dx <= 100_000_000 && 0 <= dy * dy <= 100_000_000)
                        by (nonlinear_arith)
                        requires
                            -10_000 <= dx <= 10_000,
                            -10_000 <= dy <= 10_000,
                    ;
                }
                let d = dx * dx + dy * dy;
                let key = if preys[t].organism.energy > 0 && d <= 1 {
                    d
                } else {
                    2
                };
                assert(key == keys[t as int]);
                if t == 0 {
                    best_t = 0;
                    best_key = key;
                } else if key < best_key {
                    best_t = t;
                    best_key = key;
                }
                t = t + 1;
            }
            let (nx, ny) = if m > 0 && best_key <= 1 {
                proof {
                    assert(closest_prey(preys@, a.position) == Some(best_t as int));
                }
                let q = preys[best_t].position;
                let sx: i64 = if q.x > a.position.x {
                    1
                } else if q.x < a.position.x {
                    -1
                } else {
                    0
                };
                let sy: i64 = if q.y > a.position.y {
                    1
                } else if q.y < a.position.y {
                    -1
                } else {
                    0
                };
                (step_coord(a.position.x, sx, world.width), step_coord(a.position.y, sy, world.height))
            } else {
                proof {
                    assert(closest_prey(preys@, a.position) is None);
                }
                let ghost cs = pred_costs(*world, a.position, seed0, idx_j);
                let mut best_k: usize = 0;
                let mut best_cost: i64 = 0;
                let mut k: usize = 0;
                while k < 8
                    invariant
                        0 <= k <= 8,
                        a.position.in_bounds(world.width as int, world.height as int),
                        rng.seed() == seed0,
                        rng.idx() == idx_j + k as nat,
                        cs == pred_costs(*world, a.position, seed0, idx_j),
                        k == 0 ==> best_k == 0,
                        k > 0 ==> 0 <= best_k < k && best_cost == cs[best_k as int]
                            && first_min_from(cs, k as int, best_k as int) == first_min_idx(cs),
                    decreases 8 - k,
                {
                    let (dx, dy) = dir_of(k);
                    let cx = step_coord(a.position.x, dx, world.width);
                    let cy = step_coord(a.position.y, dy, world.height);
                    let tile = world.grid[cy][cx];
                    let base = pred_base_cost_of(tile.biome);
                    let jit = rng.below(5000);
                    assert(tile == tile_at(
                        *world,
                        moved_pos(a.position, k as int, world.width as int, world.height as int),
                    ));
                    let cost = base + jit as i64;
                    assert(cost == cs[k as int]);
                    if k == 0 {
                        best_k = 0;
                        best_cost = cost;
                    } else if cost < best_cost {
                        best_k = k;
                        best_cost = cost;
                    }
                    k = k + 1;
                }
                assert(first_min_idx(cs) == best_k as int);
                let (dx, dy) = dir_of(best_k);
                (step_coord(a.position.x, dx, world.width), step_coord(a.position.y, dy, world.height))
            };
            proof {
                assert(0 <= config.predator_energy_decay_rate * a.predator.speed
                    <= 1_000_000_000_000) by (nonlinear_arith)
                    requires
                        0 <= config.predator_energy_decay_rate <= 1_000_000,
                        1 <= a.predator.speed <= 1_000_000,
                ;
                assert(0 <= (config.predator_energy_decay_rate * a.predator.speed / 1000)
                    * a.predator.size <= 1_000_000_000_000_000) by (nonlinear_arith)
                    requires
                        0 <= config.predator_energy_decay_rate * a.predator.speed
                            <= 1_000_000_000_000,
                        1 <= a.predator.size <= 1_000_000,
                ;
            }
            let dec = (config.predator_energy_decay_rate * a.predator.speed / 1000)
                * a.predator.size / 1000;
            let e = clamp_energy(a.predator.energy - dec);
            let na = PredatorWithPosition {
                predator: Predator { energy: e, ..a.predator },
                position: Position { x: nx, y: ny },
            };
            assert(na == pred_step(
                *world,
                preys@,
                olds[j as int],
                config.predator_energy_decay_rate,
                seed0,
                idx_j,
            ));
            preds[j] = na;
        }
        j = j + 1;
    }
}

/// Water is never survivable terrain: any organism whose tile is water
/// after the movement stage has its energy forced to a lethal value, so
/// none of the organisms that survive the same tick's cleanup pass
/// stands on water.
pub proof fn lemma_water_kills_before_cleanup(w: World, s: Seq<OrganismWithPosition>, seed: u64, idx0: nat)
    ensures
        ({
            let moved = Seq::new(s.len(), |i: int| org_step(w, s[i], seed, org_idx_at(s, i, idx0)));
            forall|t: int|
                0 <= t < crate::population::living(moved).len() ==> tile_at(
                    w,
                    (#[trigger] crate::population::living(moved)[t]).position,
                ).biome != Biome::Water
        }),
{
    let moved = Seq::new(s.len(), |i: int| org_step(w, s[i], seed, org_idx_at(s, i, idx0)));
    crate::population::lemma_living(moved);
    assert forall|t: int|
        0 <= t < crate::population::living(moved).len() implies tile_at(
        w,
        (#[trigger] crate::population::living(moved)[t]).position,
    ).biome != Biome::Water by {
        let a = crate::population::living(moved)[t];
        assert(moved.contains(a));
        let k = choose|k: int| 0 <= k < moved.len() && moved[k] == a;
        assert(moved[k] == org_step(w, s[k], seed, org_idx_at(s, k, idx0)));
        assert(a.organism.energy > 0);
        if tile_at(w, a.position).biome == Biome::Water {
            if s[k].organism.energy <= 0 {
                assert(a == s[k]);
            } else {
                assert(a.organism.energy == -SCALE);
            }
        }
    }
}

} // verus!
