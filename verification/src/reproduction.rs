//! Reproduction with mutation, for organisms and predators alike. A
//! parent off cooldown whose energy exceeds its threshold spawns one
//! child with every trait perturbed by an independent symmetric
//! mutation draw scaled by the configured mutability; size and speed
//! are floored at 0.1, the speed additionally pays a size-proportional
//! penalty, and parent and child split the parent's energy exactly.
//! The stage is skipped for the whole tick when the living population
//! is already at the configured cap.

use vstd::prelude::*;

use crate::agents::{
    gen_tolerance, get_biome_tolerance, mutate_scaled, mutated, Organism, OrganismWithPosition,
    Predator, PredatorWithPosition,
};
use crate::biome::{Biome, BiomeTolerance};
use crate::config::Config;
use crate::population::{living, pred_living, count_living_organisms};
use crate::rng::{draw_below, draw_delta, SimRng};
use crate::world::{tile_at, World};
use crate::{clamp_coord, clamp_i, clamp_i64, step_coord, Position, ENERGY_MAX, SCALE, TRAIT_FLOOR,
    TRAIT_MAX};

verus! {

/// The child an organism parent produces, from the fourteen draws
/// starting at `idx`: a fresh tolerance table for the birth tile's
/// biome, itself perturbed by mutation, mutated threshold, size, speed
/// (with the size-coupled penalty) and cooldown, and half the parent's
/// energy.
pub open spec fn org_child(
    parent: Organism,
    tile_biome: Biome,
    cfg: Config,
    seed: u64,
    idx: nat,
) -> Organism {
    let m = cfg.organism_mutability as int;
    let tol0 = gen_tolerance(tile_biome, seed, idx);
    let size = mutated(
        parent.size as int,
        draw_delta(seed, idx + 9, m),
        TRAIT_FLOOR as int,
        TRAIT_MAX as int,
    );
    Organism {
        energy: (parent.energy / 2) as i64,
        speed: clamp_i(
            parent.speed * (1000 + draw_delta(seed, idx + 10, m)) / 1000 - size / 10,
            TRAIT_FLOOR as int,
            TRAIT_MAX as int,
        ) as i64,
        size: size as i64,
        reproduction_threshold: mutated(
            parent.reproduction_threshold as int,
            draw_delta(seed, idx + 8, m),
            0,
            ENERGY_MAX as int,
        ) as i64,
        reproduction_cooldown: mutated(
            cfg.organism_reproduction_cooldown as int,
            draw_delta(seed, idx + 11, m),
            SCALE as int,
            ENERGY_MAX as int,
        ) as i64,
        biome_tolerance: BiomeTolerance {
            forest: mutated(
                tol0.forest as int,
                draw_delta(seed, idx + 4, m),
                1,
                TRAIT_MAX as int,
            ) as i64,
            desert: mutated(
                tol0.desert as int,
                draw_delta(seed, idx + 5, m),
                1,
                TRAIT_MAX as int,
            ) as i64,
            water: mutated(
                tol0.water as int,
                draw_delta(seed, idx + 6, m),
                1,
                TRAIT_MAX as int,
            ) as i64,
            grassland: mutated(
                tol0.grassland as int,
                draw_delta(seed, idx + 7, m),
                1,
                TRAIT_MAX as int,
            ) as i64,
        },
    }
}

/// Where a child spawns: a random offset in {-1, 0, 1} on each axis
/// from the parent, clamped to the grid.
pub open spec fn child_pos(p: Position, w: World, seed: u64, idx: nat) -> Position {
    Position {
        x: clamp_coord(
            p.x as int,
            draw_below(seed, idx + 12, 3) as int - 1,
            w.width as int,
        ) as usize,
        y: clamp_coord(
            p.y as int,
            draw_below(seed, idx + 13, 3) as int - 1,
            w.height as int,
        ) as usize,
    }
}

/// A parent after the reproduction stage: cooldown ticks down when
/// positive; a reproducing parent keeps half its energy (rounded up)
/// and has its cooldown reset to the configured value.
pub open spec fn org_parent_step(o: Organism, cfg: Config) -> Organism {
    if o.reproduction_cooldown > 0 {
        Organism { reproduction_cooldown: (o.reproduction_cooldown - SCALE) as i64, ..o }
    } else if o.energy > o.reproduction_threshold {
        Organism {
            energy: (o.energy - o.energy / 2) as i64,
            reproduction_cooldown: cfg.organism_reproduction_cooldown,
            ..o
        }
    } else {
        o
    }
}

/// Whether an organism reproduces this tick.
pub open spec fn org_reproduces(o: Organism) -> bool {
    o.reproduction_cooldown <= 0 && o.energy > o.reproduction_threshold
}

/// Number of random draws reproduction spends on one organism.
pub open spec fn org_repro_draws(o: Organism) -> nat {
    if org_reproduces(o) {
        14
    } else {
        0
    }
}

/// Stream position after reproduction has processed the first `j`
/// organisms.
pub open spec fn org_repro_idx(s: Seq<OrganismWithPosition>, j: int, idx0: nat) -> nat
    decreases j,
{
    if j <= 0 {
        idx0
    } else {
        org_repro_idx(s, j - 1, idx0) + org_repro_draws(s[j - 1].organism)
    }
}

/// The children spawned by the first `j` organisms, in order.
pub open spec fn org_children_upto(
    s: Seq<OrganismWithPosition>,
    w: World,
    cfg: Config,
    seed: u64,
    idx0: nat,
    j: int,
) -> Seq<OrganismWithPosition>
    decreases j,
{
    if j <= 0 {
        Seq::empty()
    } else {
        let prev = org_children_upto(s, w, cfg, seed, idx0, j - 1);
        let a = s[j - 1];
        if org_reproduces(a.organism) {
            let idx = org_repro_idx(s, j - 1, idx0);
            prev.push(
                OrganismWithPosition {
                    organism: org_child(a.organism, tile_at(w, a.position).biome, cfg, seed, idx),
                    position: child_pos(a.position, w, seed, idx),
                },
            )
        } else {
            prev
        }
    }
}

/// Reproduction conserves energy: at the split instant the parent's and
/// the child's energies sum exactly to the parent's pre-event energy,
/// whatever the birth tile, seed or stream position.
pub proof fn lemma_reproduction_conserves_energy(
    o: Organism,
    b: Biome,
    cfg: Config,
    seed: u64,
    idx: nat,
)
    requires
        org_reproduces(o),
        0 <= o.energy <= ENERGY_MAX,
    ensures
        org_parent_step(o, cfg).energy + org_child(o, b, cfg, seed, idx).energy == o.energy,
{
}

/// Mutated size and speed never fall below the floor of 0.1, for any
/// parent, mutability, seed or stream position.
pub proof fn lemma_mutation_floors(o: Organism, b: Biome, cfg: Config, seed: u64, idx: nat)
    ensures
        org_child(o, b, cfg, seed, idx).size >= TRAIT_FLOOR,
        org_child(o, b, cfg, seed, idx).speed >= TRAIT_FLOOR,
{
}

/// At most one child per living parent: only a parent with positive
/// energy reproduces, so a pass spawns no more children than there are
/// living parents.
pub proof fn lemma_org_children_count(
    s: Seq<OrganismWithPosition>,
    w: World,
    cfg: Config,
    seed: u64,
    idx0: nat,
    j: int,
)
    requires
        0 <= j <= s.len(),
        forall|k: int|
            0 <= k < s.len() ==> (#[trigger] s[k]).organism.reproduction_threshold >= 0,
    ensures
        org_children_upto(s, w, cfg, seed, idx0, j).len() <= living(s.take(j)).len(),
    decreases j,
{
    if j > 0 {
        lemma_org_children_count(s, w, cfg, seed, idx0, j - 1);
        assert(s.take(j).drop_last() =~= s.take(j - 1));
        assert(s.take(j).last() == s[j - 1]);
        if org_reproduces(s[j - 1].organism) {
            assert(s[j - 1].organism.energy > 0);
        }
    }
}

/// At most one child per living predator parent.
pub proof fn lemma_pred_children_count(
    s: Seq<PredatorWithPosition>,
    w: World,
    cfg: Config,
    seed: u64,
    idx0: nat,
    j: int,
)
    requires
        0 <= j <= s.len(),
        forall|k: int|
            0 <= k < s.len() ==> (#[trigger] s[k]).predator.reproduction_threshold >= 0,
    ensures
        pred_children_upto(s, w, cfg, seed, idx0, j).len() <= pred_living(s.take(j)).len(),
    decreases j,
{
    if j > 0 {
        lemma_pred_children_count(s, w, cfg, seed, idx0, j - 1);
        assert(s.take(j).drop_last() =~= s.take(j - 1));
        assert(s.take(j).last() == s[j - 1]);
        if pred_reproduces(s[j - 1].predator) {
            assert(s[j - 1].predator.energy > 0);
        }
    }
}

/// Run organism reproduction. `predator_count` is the number of living
/// predators. If the total living agent count (living organisms plus
/// living predators) is already at or above the cap, the stage is
/// skipped for the whole tick; otherwise every parent off cooldown and
/// above its threshold spawns one mutated child next to itself, and the
/// children are added after the pass.
#[verifier::loop_isolation(false)]
pub fn reproduction(
    agents: &mut Vec<OrganismWithPosition>,
    predator_count: usize,
    world: &World,
    config: &Config,
    rng: &mut SimRng,
)
    requires
        world.wf(),
        config.wf(),
        old(agents)@.len() + predator_count <= 100_000_000,
        forall|i: int|
            0 <= i < old(agents)@.len() ==> (#[trigger] old(agents)@[i]).wf(
                world.width as int,
                world.height as int,
            ),
    ensures
        living(old(agents)@).len() + predator_count >= config.max_total_entities
            ==> final(agents)@ == old(agents)@ && final(rng).idx() == old(rng).idx(),
        living(old(agents)@).len() + predator_count < config.max_total_entities ==> {
            &&& final(agents)@ == Seq::new(
                old(agents)@.len(),
                |i: int|
                    OrganismWithPosition {
                        organism: org_parent_step(old(agents)@[i].organism, *config),
                        position: old(agents)@[i].position,
                    },
            ) + org_children_upto(
                old(agents)@,
                *world,
                *config,
                old(rng).seed(),
                old(rng).idx(),
                old(agents)@.len() as int,
            )
            &&& final(rng).idx() == org_repro_idx(
                old(agents)@,
                old(agents)@.len() as int,
                old(rng).idx(),
            )
        },
        final(rng).seed() == old(rng).seed(),
        forall|i: int|
            0 <= i < final(agents)@.len() ==> (#[trigger] final(agents)@[i]).wf(
                world.width as int,
                world.height as int,
            ),
        final(agents)@.len() <= old(agents)@.len() * 2,
{
    let ghost olds = agents@;
    let ghost seed0 = rng.seed();
    let ghost idx0 = rng.idx();
    let n = agents.len();
    let living_count = count_living_organisms(agents);
    if living_count + predator_count >= config.max_total_entities {
        return ;
    }
    let mut children: Vec<OrganismWithPosition> = Vec::new();
    let mut j: usize = 0;
    while j < n
        invariant
            0 <= j <= n,
            agents@.len() == n,
            rng.seed() == seed0,
            rng.idx() == org_repro_idx(olds, j as int, idx0),
            children@ == org_children_upto(olds, *world, *config, seed0, idx0, j as int),
            forall|i: int|
                0 <= i < j ==> #[trigger] agents@[i] == (OrganismWithPosition {
                    organism: org_parent_step(olds[i].organism, *config),
                    position: olds[i].position,
                }),
            forall|i: int| j <= i < n ==> #[trigger] agents@[i] == olds[i],
            forall|i: int|
                0 <= i < agents@.len() ==> (#[trigger] agents@[i]).wf(
                    world.width as int,
                    world.height as int,
                ),
            forall|i: int|
                0 <= i < children@.len() ==> (#[trigger] children@[i]).wf(
                    world.width as int,
                    world.height as int,
                ),
        decreases n - j,
    {
        let a = agents[j];
        assert(a == olds[j as int]);
        if a.organism.reproduction_cooldown > 0 {
            agents[j] = OrganismWithPosition {
                organism: Organism {
                    reproduction_cooldown: a.organism.reproduction_cooldown - SCALE,
                    ..a.organism
                },
                position: a.position,
            };
        } else if a.organism.energy > a.organism.reproduction_threshold {
            let ghost idx_j = org_repro_idx(olds, j as int, idx0);
            let tile = world.grid[a.position.y][a.position.x];
            assert(tile == tile_at(*world, a.position));
            let m = config.organism_mutability;
            let tol0 = get_biome_tolerance(&tile.biome, rng);
            let tf = mutate_scaled(tol0.forest, m, 1, TRAIT_MAX, rng);
            let td = mutate_scaled(tol0.desert, m, 1, TRAIT_MAX, rng);
            let tw = mutate_scaled(tol0.water, m, 1, TRAIT_MAX, rng);
            let tg = mutate_scaled(tol0.grassland, m, 1, TRAIT_MAX, rng);
            let thr = mutate_scaled(a.organism.reproduction_threshold, m, 0, ENERGY_MAX, rng);
            let size = mutate_scaled(a.organism.size, m, TRAIT_FLOOR, TRAIT_MAX, rng);
            let d = rng.delta(m);
            proof {
                assert(0 <= a.organism.speed * (1000 + d) <= 2_000_000_000) by (nonlinear_arith)
                    requires
                        1 <= a.organism.speed <= 1_000_000,
                        -1000 <= d <= 1000,
                ;
            }
            let raw = a.organism.speed * (1000 + d) / 1000 - size / 10;
            let speed = clamp_i64(raw, TRAIT_FLOOR, TRAIT_MAX);
            let cd = mutate_scaled(
                config.organism_reproduction_cooldown,
                m,
                SCALE,
                ENERGY_MAX,
                rng,
            );
            let ox = rng.below(3) as i64 - 1;
            let oy = rng.below(3) as i64 - 1;
            let ce = a.organism.energy / 2;
            let child = Organism {
                energy: ce,
                speed,
                size,
                reproduction_threshold: thr,
                reproduction_cooldown: cd,
                biome_tolerance: BiomeTolerance { forest: tf, desert: td, water: tw, grassland: tg },
            };
            let cpos = Position {
                x: step_coord(a.position.x, ox, world.width),
                y: step_coord(a.position.y, oy, world.height),
            };
            assert(child == org_child(olds[j as int].organism, tile.biome, *config, seed0, idx_j));
            assert(cpos == child_pos(olds[j as int].position, *world, seed0, idx_j));
            children.push(OrganismWithPosition { organism: child, position: cpos });
            agents[j] = OrganismWithPosition {
                organism: Organism {
                    energy: a.organism.energy - ce,
                    reproduction_cooldown: config.organism_reproduction_cooldown,
                    ..a.organism
                },
                position: a.position,
            };
        }
        j = j + 1;
    }
    proof {
        lemma_org_children_len(olds, *world, *config, seed0, idx0, n as int);
    }
    agents.append(&mut children);
    proof {
        assert(agents@.subrange(0, n as int) =~= Seq::new(
            olds.len(),
            |i: int|
                OrganismWithPosition {
                    organism: org_parent_step(olds[i].organism, *config),
                    position: olds[i].position,
                },
        ));
        assert(agents@ =~= agents@.subrange(0, n as int) + org_children_upto(
            olds,
            *world,
            *config,
            seed0,
            idx0,
            n as int,
        ));
    }
}

/// At most one child per parent.
proof fn lemma_org_children_len(
    s: Seq<OrganismWithPosition>,
    w: World,
    cfg: Config,
    seed: u64,
    idx0: nat,
    j: int,
)
    ensures
        org_children_upto(s, w, cfg, seed, idx0, j).len() <= if j >= 0 {
            j
        } else {
            0
        },
    decreases j,
{
    if j > 0 {
        lemma_org_children_len(s, w, cfg, seed, idx0, j - 1);
    }
}

/// The child a predator parent produces, from the eight draws starting
/// at `idx`.
pub open spec fn pred_child(parent: Predator, cfg: Config, seed: u64, idx: nat) -> Predator {
    let m = cfg.predator_mutability as int;
    let size = mutated(
        parent.size as int,
        draw_delta(seed, idx, m),
        TRAIT_FLOOR as int,
        TRAIT_MAX as int,
    );
    Predator {
        energy: (parent.energy / 2) as i64,
        speed: clamp_i(
            parent.speed * (1000 + draw_delta(seed, idx + 1, m)) / 1000 - size / 10,
            TRAIT_FLOOR as int,
            TRAIT_MAX as int,
        ) as i64,
        size: size as i64,
        reproduction_threshold: mutated(
            parent.reproduction_threshold as int,
            draw_delta(seed, idx + 5, m),
            0,
            ENERGY_MAX as int,
        ) as i64,
        hunting_efficiency: mutated(
            parent.hunting_efficiency as int,
            draw_delta(seed, idx + 3, m),
            0,
            TRAIT_MAX as int,
        ) as i64,
        satiation_threshold: mutated(
            parent.satiation_threshold as int,
            draw_delta(seed, idx + 4, m),
            0,
            ENERGY_MAX as int,
        ) as i64,
        reproduction_cooldown: mutated(
            cfg.predator_reproduction_cooldown as int,
            draw_delta(seed, idx + 2, m),
            SCALE as int,
            ENERGY_MAX as int,
        ) as i64,
    }
}

/// Where a predator child spawns: offsets drawn at `idx + 6` and
/// `idx + 7`.
pub open spec fn pred_child_pos(p: Position, w: World, seed: u64, idx: nat) -> Position {
    Position {
        x: clamp_coord(
            p.x as int,
            draw_below(seed, idx + 6, 3) as int - 1,
            w.width as int,
        ) as usize,
        y: clamp_coord(
            p.y as int,
            draw_below(seed, idx + 7, 3) as int - 1,
            w.height as int,
        ) as usize,
    }
}

/// A predator parent after the reproduction stage.
pub open spec fn pred_parent_step(o: Predator, cfg: Config) -> Predator {
    if o.reproduction_cooldown > 0 {
        Predator { reproduction_cooldown: (o.reproduction_cooldown - SCALE) as i64, ..o }
    } else if o.energy > o.reproduction_threshold {
        Predator {
            energy: (o.energy - o.energy / 2) as i64,
            reproduction_cooldown: cfg.predator_reproduction_cooldown,
            ..o
        }
    } else {
        o
    }
}

/// Whether a predator reproduces this tick.
pub open spec fn pred_reproduces(o: Predator) -> bool {
    o.reproduction_cooldown <= 0 && o.energy > o.reproduction_threshold
}

/// Number of random draws reproduction spends on one predator.
pub open spec fn pred_repro_draws(o: Predator) -> nat {
    if pred_reproduces(o) {
        8
    } else {
        0
    }
}

/// Stream position after reproduction has processed the first `j`
/// predators.
pub open spec fn pred_repro_idx(s: Seq<PredatorWithPosition>, j: int, idx0: nat) -> nat
    decreases j,
{
    if j <= 0 {
        idx0
    } else {
        pred_repro_idx(s, j - 1, idx0) + pred_repro_draws(s[j - 1].predator)
    }
}

/// The children spawned by the first `j` predators, in order.
pub open spec fn pred_children_upto(
    s: Seq<PredatorWithPosition>,
    w: World,
    cfg: Config,
    seed: u64,
    idx0: nat,
    j: int,
) -> Seq<PredatorWithPosition>
    decreases j,
{
    if j <= 0 {
        Seq::empty()
    } else {
        let prev = pred_children_upto(s, w, cfg, seed, idx0, j - 1);
        let a = s[j - 1];
        if pred_reproduces(a.predator) {
            let idx = pred_repro_idx(s, j - 1, idx0);
            prev.push(
                PredatorWithPosition {
                    predator: pred_child(a.predator, cfg, seed, idx),
                    position: pred_child_pos(a.position, w, seed, idx),
                },
            )
        } else {
            prev
        }
    }
}

/// Predator reproduction conserves energy at the split instant.
pub proof fn lemma_pred_reproduction_conserves_energy(o: Predator, cfg: Config, seed: u64, idx: nat)
    requires
        pred_reproduces(o),
        0 <= o.energy <= ENERGY_MAX,
    ensures
        pred_parent_step(o, cfg).energy + pred_child(o, cfg, seed, idx).energy == o.energy,
{
}

/// Mutated predator size and speed never fall below the floor of 0.1.
pub proof fn lemma_pred_mutation_floors(o: Predator, cfg: Config, seed: u64, idx: nat)
    ensures
        pred_child(o, cfg, seed, idx).size >= TRAIT_FLOOR,
        pred_child(o, cfg, seed, idx).speed >= TRAIT_FLOOR,
{
}

/// Run predator reproduction; `organism_count` is the number of living
/// organisms, and the stage is skipped for the whole tick when the
/// living population is at the cap.
#[verifier::loop_isolation(false)]
pub fn predator_reproduction(
    agents: &mut Vec<PredatorWithPosition>,
    organism_count: usize,
    world: &World,
    config: &Config,
    rng: &mut SimRng,
)
    requires
        world.wf(),
        config.wf(),
        old(agents)@.len() + organism_count <= 100_000_000,
        forall|i: int|
            0 <= i < old(agents)@.len() ==> (#[trigger] old(agents)@[i]).wf(
                world.width as int,
                world.height as int,
            ),
    ensures
        pred_living(old(agents)@).len() + organism_count >= config.max_total_entities
            ==> final(agents)@ == old(agents)@ && final(rng).idx() == old(rng).idx(),
        pred_living(old(agents)@).len() + organism_count < config.max_total_entities ==> {
            &&& final(agents)@ == Seq::new(
                old(agents)@.len(),
                |i: int|
                    PredatorWithPosition {
                        predator: pred_parent_step(old(agents)@[i].predator, *config),
                        position: old(agents)@[i].position,
                    },
            ) + pred_children_upto(
                old(agents)@,
                *world,
                *config,
                old(rng).seed(),
                old(rng).idx(),
                old(agents)@.len() as int,
            )
            &&& final(rng).idx() == pred_repro_idx(
                old(agents)@,
                old(agents)@.len() as int,
                old(rng).idx(),
            )
        },
        final(rng).seed() == old(rng).seed(),
        forall|i: int|
            0 <= i < final(agents)@.len() ==> (#[trigger] final(agents)@[i]).wf(
                world.width as int,
                world.height as int,
            ),
        final(agents)@.len() <= old(agents)@.len() * 2,
{
    let ghost olds = agents@;
    let ghost seed0 = rng.seed();
    let ghost idx0 = rng.idx();
    let n = agents.len();
    let living_count = crate::population::count_living_predators(agents);
    if living_count + organism_count >= config.max_total_entities {
        return ;
    }
    let mut children: Vec<PredatorWithPosition> = Vec::new();
    let mut j: usize = 0;
    while j < n
        invariant
            0 <= j <= n,
            agents@.len() == n,
            rng.seed() == seed0,
            rng.idx() == pred_repro_idx(olds, j as int, idx0),
            children@ == pred_children_upto(olds, *world, *config, seed0, idx0, j as int),
            forall|i: int|
                0 <= i < j ==> #[trigger] agents@[i] == (PredatorWithPosition {
                    predator: pred_parent_step(olds[i].predator, *config),
                    position: olds[i].position,
                }),
            forall|i: int| j <= i < n ==> #[trigger] agents@[i] == olds[i],
            forall|i: int|
                0 <= i < agents@.len() ==> (#[trigger] agents@[i]).wf(
                    world.width as int,
                    world.height as int,
                ),
            forall|i: int|
                0 <= i < children@.len() ==> (#[trigger] children@[i]).wf(
                    world.width as int,
                    world.height as int,
                ),
        decreases n - j,
    {
        let a = agents[j];
        assert(a == olds[j as int]);
        if a.predator.reproduction_cooldown > 0 {
            agents[j] = PredatorWithPosition {
                predator: Predator {
                    reproduction_cooldown: a.predator.reproduction_cooldown - SCALE,
                    ..a.predator
                },
                position: a.position,
            };
        } else if a.predator.energy > a.predator.reproduction_threshold {
            let ghost idx_j = pred_repro_idx(olds, j as int, idx0);
            let m = config.predator_mutability;
            let size = mutate_scaled(a.predator.size, m, TRAIT_FLOOR, TRAIT_MAX, rng);
            let d = rng.delta(m);
            proof {
                assert(0 <= a.predator.speed * (1000 + d) <= 2_000_000_000) by (nonlinear_arith)
                    requires
                        1 <= a.predator.speed <= 1_000_000,
                        -1000 <= d <= 1000,
                ;
            }
            let raw = a.predator.speed * (1000 + d) / 1000 - size / 10;
            let speed = clamp_i64(raw, TRAIT_FLOOR, TRAIT_MAX);
            let cd = mutate_scaled(
                config.predator_reproduction_cooldown,
                m,
                SCALE,
                ENERGY_MAX,
                rng,
            );
            let eff = mutate_scaled(a.predator.hunting_efficiency, m, 0, TRAIT_MAX, rng);
            let sat = mutate_scaled(a.predator.satiation_threshold, m, 0, ENERGY_MAX, rng);
            let thr = mutate_scaled(a.predator.reproduction_threshold, m, 0, ENERGY_MAX, rng);
            let ox = rng.below(3) as i64 - 1;
            let oy = rng.below(3) as i64 - 1;
            let ce = a.predator.energy / 2;
            let child = Predator {
                energy: ce,
                speed,
                size,
                reproduction_threshold: thr,
                hunting_efficiency: eff,
                satiation_threshold: sat,
                reproduction_cooldown: cd,
            };
            let cpos = Position {
                x: step_coord(a.position.x, ox, world.width),
                y: step_coord(a.position.y, oy, world.height),
            };
            assert(child == pred_child(olds[j as int].predator, *config, seed0, idx_j));
            assert(cpos == pred_child_pos(olds[j as int].position, *world, seed0, idx_j));
            children.push(PredatorWithPosition { predator: child, position: cpos });
            agents[j] = PredatorWithPosition {
                predator: Predator {
                    energy: a.predator.energy - ce,
                    reproduction_cooldown: config.predator_reproduction_cooldown,
                    ..a.predator
                },
                position: a.position,
            };
        }
        j = j + 1;
    }
    proof {
        lemma_pred_children_len(olds, *world, *config, seed0, idx0, n as int);
    }
    agents.append(&mut children);
    proof {
        assert(agents@.subrange(0, n as int) =~= Seq::new(
            olds.len(),
            |i: int|
                PredatorWithPosition {
                    predator: pred_parent_step(olds[i].predator, *config),
                    position: olds[i].position,
                },
        ));
        assert(agents@ =~= agents@.subrange(0, n as int) + pred_children_upto(
            olds,
            *world,
            *config,
            seed0,
            idx0,
            n as int,
        ));
    }
}

/// At most one child per predator parent.
proof fn lemma_pred_children_len(
    s: Seq<PredatorWithPosition>,
    w: World,
    cfg: Config,
    seed: u64,
    idx0: nat,
    j: int,
)
    ensures
        pred_children_upto(s, w, cfg, seed, idx0, j).len() <= if j >= 0 {
            j
        } else {
            0
        },
    decreases j,
{
    if j > 0 {
        lemma_pred_children_len(s, w, cfg, seed, idx0, j - 1);
    }
}

} // verus!
