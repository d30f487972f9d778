//! The simulation context and the tick scheduler. A `SimState` holds
//! the world grid, the two agent lists, the generation counter, the
//! configuration, the random stream and the phase of the two-state
//! machine (`Simulating`, `Finished`). Each tick runs the stages in a
//! fixed order: predation, movement, despawn, regeneration,
//! consumption, overcrowding, adaptation, reproduction, population-cap
//! enforcement, generation increment; then the termination condition is
//! evaluated. `tick`'s contract carries the whole pipeline: a
//! `TickTrace` witnesses every intermediate state, each step pinned by
//! the per-stage specifications.

use vstd::prelude::*;

use crate::adaptation::{adapt_org, biome_adaptation};
use crate::agents::{
    gen_tolerance, get_biome_tolerance, Organism, OrganismWithPosition, Predator,
    PredatorWithPosition,
};
use crate::config::Config;
use crate::feeding::{consume_food, fed_agents, fed_food, occupied, regenerate_food};
use crate::movement::{
    org_idx_at, org_step, organism_movement, pred_idx_at, pred_step, predator_movement,
};
use crate::population::{
    count_living_organisms, count_living_predators, cull_flags, culled_org, culled_pred,
    despawn_dead_organisms, despawn_dead_predators, kill_over_limit_organisms, lemma_living,
    lemma_living_mono, lemma_pred_living, lemma_pred_living_mono, living, overcrowding,
    pred_living,
};
use crate::predation::{
    hunt_upto, hunting, lemma_hunt_upto_frame, lemma_hunt_upto_living, lemma_hunt_upto_no_revive,
};
use crate::reproduction::{
    lemma_org_children_count, lemma_pred_children_count, org_children_upto, org_parent_step,
    org_repro_idx, pred_children_upto, pred_parent_step, pred_repro_idx, predator_reproduction,
    reproduction,
};
use crate::rng::{draw_below, SimRng};
use crate::util::keep_unflagged;
use crate::world::{is_generated, regen_tile, tile_at, Tile, World};
use crate::{Position, COUNT_MAX};

verus! {

/// The monotonically increasing tick counter.
#[derive(Clone, Copy, Debug)]
pub struct Generation(pub usize);

/// The two states of the scheduler: simulating, or finished after the
/// configured generation limit was reached.
#[derive(Clone, Copy, Debug, PartialEq, Eq, Structural)]
pub enum SimPhase {
    Simulating,
    Finished,
}

/// Advance the generation counter by one tick.
pub fn increment_generation(g: &mut Generation)
    requires
        old(g).0 < usize::MAX,
    ensures
        final(g).0 == old(g).0 + 1,
{
    g.0 = g.0 + 1;
}

/// Whether the configured generation limit has been reached.
pub open spec fn limit_reached(g: Generation, cfg: Config) -> bool {
    match cfg.generation_limit {
        Some(limit) => g.0 >= limit,
        None => false,
    }
}

/// Evaluate the termination condition: with a configured generation
/// limit, the simulation finishes once the counter reaches it; without
/// one it never finishes.
pub fn run_for_x_generations(g: &Generation, cfg: &Config) -> (finished: bool)
    ensures
        finished == limit_reached(*g, *cfg),
{
    match cfg.generation_limit {
        Some(limit) => g.0 >= limit,
        None => false,
    }
}

/// An organism spawned at simulation start: configured initial traits,
/// a random in-bounds position (two draws) and a fresh tolerance table
/// for its birth tile (four draws).
pub open spec fn spawned_org(w: World, cfg: Config, seed: u64, idx: nat) -> OrganismWithPosition {
    let p = Position {
        x: draw_below(seed, idx, w.width as u64) as usize,
        y: draw_below(seed, idx + 1, w.height as u64) as usize,
    };
    OrganismWithPosition {
        organism: Organism {
            energy: cfg.initial_organism_energy,
            speed: cfg.initial_organism_speed,
            size: cfg.initial_organism_size,
            reproduction_threshold: cfg.initial_organism_reproduction_threshold,
            reproduction_cooldown: cfg.organism_reproduction_cooldown,
            biome_tolerance: gen_tolerance(tile_at(w, p).biome, seed, idx + 2),
        },
        position: p,
    }
}

/// The first `count` spawned organisms, six draws each.
pub open spec fn spawned_orgs(w: World, cfg: Config, seed: u64, idx0: nat, count: int) -> Seq<
    OrganismWithPosition,
>
    decreases count,
{
    if count <= 0 {
        Seq::empty()
    } else {
        spawned_orgs(w, cfg, seed, idx0, count - 1).push(
            spawned_org(w, cfg, seed, idx0 + (6 * (count - 1)) as nat),
        )
    }
}

/// A predator spawned at simulation start: configured initial traits
/// and a random in-bounds position (two draws).
pub open spec fn spawned_pred(w: World, cfg: Config, seed: u64, idx: nat) -> PredatorWithPosition {
    PredatorWithPosition {
        predator: Predator {
            energy: cfg.initial_predator_energy,
            speed: cfg.initial_predator_speed,
            size: cfg.initial_predator_size,
            reproduction_threshold: cfg.initial_predator_reproduction_threshold,
            hunting_efficiency: cfg.initial_predator_hunting_efficiency,
            satiation_threshold: cfg.initial_predator_satiation_threshold,
            reproduction_cooldown: cfg.predator_reproduction_cooldown,
        },
        position: Position {
            x: draw_below(seed, idx, w.width as u64) as usize,
            y: draw_below(seed, idx + 1, w.height as u64) as usize,
        },
    }
}

/// The first `count` spawned predators, two draws each.
pub open spec fn spawned_preds(w: World, cfg: Config, seed: u64, idx0: nat, count: int) -> Seq<
    PredatorWithPosition,
>
    decreases count,
{
    if count <= 0 {
        Seq::empty()
    } else {
        spawned_preds(w, cfg, seed, idx0, count - 1).push(
            spawned_pred(w, cfg, seed, idx0 + (2 * (count - 1)) as nat),
        )
    }
}

/// Place the initial organism population at random positions.
#[verifier::loop_isolation(false)]
pub fn spawn_organisms(world: &World, config: &Config, rng: &mut SimRng) -> (r: Vec<
    OrganismWithPosition,
>)
    requires
        world.wf(),
        config.wf(),
    ensures
        r@ == spawned_orgs(
            *world,
            *config,
            old(rng).seed(),
            old(rng).idx(),
            config.initial_organisms as int,
        ),
        r@.len() == config.initial_organisms,
        final(rng).seed() == old(rng).seed(),
        final(rng).idx() == old(rng).idx() + 6 * config.initial_organisms,
        forall|i: int|
            0 <= i < r@.len() ==> (#[trigger] r@[i]).wf(world.width as int, world.height as int),
{
    let ghost seed0 = rng.seed();
    let ghost idx0 = rng.idx();
    let count = config.initial_organisms;
    let mut out: Vec<OrganismWithPosition> = Vec::new();
    let mut j: usize = 0;
    while j < count
        invariant
            0 <= j <= count,
            rng.seed() == seed0,
            rng.idx() == idx0 + 6 * j,
            out@ == spawned_orgs(*world, *config, seed0, idx0, j as int),
            out@.len() == j,
            forall|i: int|
                0 <= i < out@.len() ==> (#[trigger] out@[i]).wf(
                    world.width as int,
                    world.height as int,
                ),
        decreases count - j,
    {
        let x = rng.below(world.width as u64) as usize;
        let y = rng.below(world.height as u64) as usize;
        let p = Position { x, y };
        let tile = world.grid[y][x];
        let tol = get_biome_tolerance(&tile.biome, rng);
        let a = OrganismWithPosition {
            organism: Organism {
                energy: config.initial_organism_energy,
                speed: config.initial_organism_speed,
                size: config.initial_organism_size,
                reproduction_threshold: config.initial_organism_reproduction_threshold,
                reproduction_cooldown: config.organism_reproduction_cooldown,
                biome_tolerance: tol,
            },
            position: p,
        };
        assert(a == spawned_org(*world, *config, seed0, idx0 + (6 * j) as nat));
        out.push(a);
        j = j + 1;
    }
    out
}

/// Place the initial predator population at random positions.
#[verifier::loop_isolation(false)]
pub fn spawn_predators(world: &World, config: &Config, rng: &mut SimRng) -> (r: Vec<
    PredatorWithPosition,
>)
    requires
        world.wf(),
        config.wf(),
    ensures
        r@ == spawned_preds(
            *world,
            *config,
            old(rng).seed(),
            old(rng).idx(),
            config.initial_predators as int,
        ),
        r@.len() == config.initial_predators,
        final(rng).seed() == old(rng).seed(),
        final(rng).idx() == old(rng).idx() + 2 * config.initial_predators,
        forall|i: int|
            0 <= i < r@.len() ==> (#[trigger] r@[i]).wf(world.width as int, world.height as int),
{
    let ghost seed0 = rng.seed();
    let ghost idx0 = rng.idx();
    let count = config.initial_predators;
    let mut out: Vec<PredatorWithPosition> = Vec::new();
    let mut j: usize = 0;
    while j < count
        invariant
            0 <= j <= count,
            rng.seed() == seed0,
            rng.idx() == idx0 + 2 * j,
            out@ == spawned_preds(*world, *config, seed0, idx0, j as int),
            out@.len() == j,
            forall|i: int|
                0 <= i < out@.len() ==> (#[trigger] out@[i]).wf(
                    world.width as int,
                    world.height as int,
                ),
        decreases count - j,
    {
        let x = rng.below(world.width as u64) as usize;
        let y = rng.below(world.height as u64) as usize;
        let a = PredatorWithPosition {
            predator: Predator {
                energy: config.initial_predator_energy,
                speed: config.initial_predator_speed,
                size: config.initial_predator_size,
                reproduction_threshold: config.initial_predator_reproduction_threshold,
                hunting_efficiency: config.initial_predator_hunting_efficiency,
                satiation_threshold: config.initial_predator_satiation_threshold,
                reproduction_cooldown: config.predator_reproduction_cooldown,
            },
            position: Position { x, y },
        };
        assert(a == spawned_pred(*world, *config, seed0, idx0 + (2 * j) as nat));
        out.push(a);
        j = j + 1;
    }
    out
}

/// The whole simulation context.
pub struct SimState {
    pub config: Config,
    pub world: World,
    pub organisms: Vec<OrganismWithPosition>,
    pub predators: Vec<PredatorWithPosition>,
    pub generation: Generation,
    pub phase: SimPhase,
    pub rng: SimRng,
}

/// Every intermediate state of one tick, in stage order: the witness
/// carried by `tick`'s contract.
pub struct TickTrace {
    pub hunted_preds: Seq<PredatorWithPosition>,
    pub hunted_orgs: Seq<OrganismWithPosition>,
    pub moved_orgs: Seq<OrganismWithPosition>,
    pub moved_preds: Seq<PredatorWithPosition>,
    pub live_orgs: Seq<OrganismWithPosition>,
    pub live_preds: Seq<PredatorWithPosition>,
    pub regen_world: World,
    pub fed_orgs: Seq<OrganismWithPosition>,
    pub fed_world: World,
    pub culled_orgs: Seq<OrganismWithPosition>,
    pub culled_preds: Seq<PredatorWithPosition>,
    pub adapted_orgs: Seq<OrganismWithPosition>,
    pub repro_orgs: Seq<OrganismWithPosition>,
    pub repro_preds: Seq<PredatorWithPosition>,
    pub idx_mv_orgs: nat,
    pub idx_mv_preds: nat,
    pub idx_repro_orgs: nat,
    pub idx_repro_preds: nat,
}

/// Food regeneration leaves the grid's shape and biomes alone and
/// applies `regen_tile` to every cell.
pub open spec fn regen_rel(pre: World, post: World, cfg: Config) -> bool {
    &&& post.width == pre.width
    &&& post.height == pre.height
    &&& post.grid@.len() == pre.grid@.len()
    &&& forall|y: int|
        0 <= y < pre.height ==> (#[trigger] post.grid@[y])@.len() == pre.grid@[y]@.len()
    &&& forall|x: int, y: int|
        0 <= x < pre.width && 0 <= y < pre.height ==> #[trigger] post.grid@[y]@[x] == regen_tile(
            pre.grid@[y]@[x],
            cfg,
        )
}

/// Consumption feeds each tile's occupants largest-first and leaves the
/// remaining food on the tile; unoccupied tiles are untouched.
pub open spec fn consume_rel(
    pre_orgs: Seq<OrganismWithPosition>,
    pre_w: World,
    post_orgs: Seq<OrganismWithPosition>,
    post_w: World,
) -> bool {
    &&& post_orgs.len() == pre_orgs.len()
    &&& forall|i: int|
        0 <= i < pre_orgs.len() ==> #[trigger] post_orgs[i] == fed_agents(
            pre_orgs,
            pre_w,
            pre_orgs[i].position,
        )[i]
    &&& post_w.width == pre_w.width
    &&& post_w.height == pre_w.height
    &&& post_w.grid@.len() == pre_w.grid@.len()
    &&& forall|y: int|
        0 <= y < pre_w.height ==> (#[trigger] post_w.grid@[y])@.len() == pre_w.grid@[y]@.len()
    &&& forall|p: Position|
        p.in_bounds(pre_w.width as int, pre_w.height as int) && occupied(pre_orgs, p)
            ==> #[trigger] tile_at(post_w, p) == (Tile {
            food_availabilty: fed_food(pre_orgs, pre_w, p) as i64,
            ..tile_at(pre_w, p)
        })
    &&& forall|p: Position|
        p.in_bounds(pre_w.width as int, pre_w.height as int) && !occupied(pre_orgs, p)
            ==> #[trigger] tile_at(post_w, p) == tile_at(pre_w, p)
}

/// The reproduction stage relation for organisms: skipped wholesale
/// when the living population (`pred_count` is the living predator
/// count) is at the cap, else parents stepped and children appended.
pub open spec fn org_repro_rel(
    pre: Seq<OrganismWithPosition>,
    pred_count: int,
    w: World,
    cfg: Config,
    seed: u64,
    idx0: nat,
    post: Seq<OrganismWithPosition>,
    idx1: nat,
) -> bool {
    if living(pre).len() + pred_count >= cfg.max_total_entities {
        post == pre && idx1 == idx0
    } else {
        &&& post == Seq::new(
            pre.len(),
            |i: int|
                OrganismWithPosition {
                    organism: org_parent_step(pre[i].organism, cfg),
                    position: pre[i].position,
                },
        ) + org_children_upto(pre, w, cfg, seed, idx0, pre.len() as int)
        &&& idx1 == org_repro_idx(pre, pre.len() as int, idx0)
    }
}

/// The reproduction stage relation for predators (`org_count` is the
/// living organism count).
pub open spec fn pred_repro_rel(
    pre: Seq<PredatorWithPosition>,
    org_count: int,
    w: World,
    cfg: Config,
    seed: u64,
    idx0: nat,
    post: Seq<PredatorWithPosition>,
    idx1: nat,
) -> bool {
    if pred_living(pre).len() + org_count >= cfg.max_total_entities {
        post == pre && idx1 == idx0
    } else {
        &&& post == Seq::new(
            pre.len(),
            |i: int|
                PredatorWithPosition {
                    predator: pred_parent_step(pre[i].predator, cfg),
                    position: pre[i].position,
                },
        ) + pred_children_upto(pre, w, cfg, seed, idx0, pre.len() as int)
        &&& idx1 == pred_repro_idx(pre, pre.len() as int, idx0)
    }
}

/// Population-cap enforcement: nothing happens while the living
/// population is at or under the cap; above it, the excess prefix of
/// the stream-driven shuffle of all handles is despawned (`cull_flags`),
/// and the survivors keep their order — the culled set is a function of
/// the seed and stream position.
pub open spec fn cap_rel(
    pre_orgs: Seq<OrganismWithPosition>,
    pre_preds: Seq<PredatorWithPosition>,
    cfg: Config,
    seed: u64,
    idx0: nat,
    post_orgs: Seq<OrganismWithPosition>,
    post_preds: Seq<PredatorWithPosition>,
    idx1: nat,
) -> bool {
    let total = pre_orgs.len() + pre_preds.len();
    if living(pre_orgs).len() + pred_living(pre_preds).len() <= cfg.max_total_entities {
        post_orgs == pre_orgs && post_preds == pre_preds && idx1 == idx0
    } else {
        &&& post_orgs.len() + post_preds.len() == cfg.max_total_entities
        &&& ({
            let f = cull_flags(
                total as int,
                total - cfg.max_total_entities,
                seed,
                idx0,
            );
            post_orgs == keep_unflagged(pre_orgs, f.subrange(0, pre_orgs.len() as int))
                && post_preds == keep_unflagged(
                pre_preds,
                f.subrange(pre_orgs.len() as int, total as int),
            )
        })
        &&& idx1 == idx0 + total
    }
}

/// One tick relates its pre-state to its post-state through the trace
/// of intermediate states, each step pinned by the stage it belongs to:
/// predation, organism and predator movement, despawn, regeneration,
/// consumption, overcrowding, adaptation, the two reproduction passes,
/// cap enforcement and the generation increment.
pub open spec fn tick_trace_ok(pre: SimState, tr: TickTrace, post: SimState) -> bool {
    let cfg = pre.config;
    let seed = pre.rng.seed();
    let idx0 = pre.rng.idx();
    // Predation.
    &&& (tr.hunted_preds, tr.hunted_orgs) == hunt_upto(
        pre.predators@,
        pre.organisms@,
        cfg.max_predator_energy,
        pre.predators@.len() as int,
    )
    // Organism movement.
    &&& tr.moved_orgs.len() == tr.hunted_orgs.len()
    &&& forall|i: int|
        0 <= i < tr.hunted_orgs.len() ==> #[trigger] tr.moved_orgs[i] == org_step(
            pre.world,
            tr.hunted_orgs[i],
            seed,
            org_idx_at(tr.hunted_orgs, i, idx0),
        )
    &&& tr.idx_mv_orgs == org_idx_at(tr.hunted_orgs, tr.hunted_orgs.len() as int, idx0)
    // Predator movement, pursuing the moved organisms.
    &&& tr.moved_preds.len() == tr.hunted_preds.len()
    &&& forall|i: int|
        0 <= i < tr.hunted_preds.len() ==> #[trigger] tr.moved_preds[i] == pred_step(
            pre.world,
            tr.moved_orgs,
            tr.hunted_preds[i],
            cfg.predator_energy_decay_rate,
            seed,
            pred_idx_at(tr.hunted_preds, tr.moved_orgs, i, tr.idx_mv_orgs),
        )
    &&& tr.idx_mv_preds == pred_idx_at(
        tr.hunted_preds,
        tr.moved_orgs,
        tr.hunted_preds.len() as int,
        tr.idx_mv_orgs,
    )
    // Despawn of dead agents.
    &&& tr.live_orgs == living(tr.moved_orgs)
    &&& tr.live_preds == pred_living(tr.moved_preds)
    // Food regeneration.
    &&& regen_rel(pre.world, tr.regen_world, cfg)
    // Consumption.
    &&& consume_rel(tr.live_orgs, tr.regen_world, tr.fed_orgs, tr.fed_world)
    // Overcrowding culling.
    &&& tr.culled_orgs.len() == tr.fed_orgs.len()
    &&& forall|i: int|
        0 <= i < tr.fed_orgs.len() ==> #[trigger] tr.culled_orgs[i] == culled_org(
            tr.fed_orgs,
            cfg.overcrowding_threshold_for_organisms as int,
            i,
        )
    &&& tr.culled_preds.len() == tr.live_preds.len()
    &&& forall|i: int|
        0 <= i < tr.live_preds.len() ==> #[trigger] tr.culled_preds[i] == culled_pred(
            tr.live_preds,
            cfg.overcrowding_threshold_for_predators as int,
            i,
        )
    // Biome adaptation.
    &&& tr.adapted_orgs.len() == tr.culled_orgs.len()
    &&& forall|i: int|
        0 <= i < tr.culled_orgs.len() ==> #[trigger] tr.adapted_orgs[i]
            == (OrganismWithPosition {
            organism: adapt_org(
                tr.culled_orgs[i].organism,
                tile_at(tr.fed_world, tr.culled_orgs[i].position).biome,
            ),
            position: tr.culled_orgs[i].position,
        })
    // Reproduction, organisms then predators, gated on the living count.
    &&& org_repro_rel(
        tr.adapted_orgs,
        pred_living(tr.culled_preds).len() as int,
        tr.fed_world,
        cfg,
        seed,
        tr.idx_mv_preds,
        tr.repro_orgs,
        tr.idx_repro_orgs,
    )
    &&& pred_repro_rel(
        tr.culled_preds,
        living(tr.repro_orgs).len() as int,
        tr.fed_world,
        cfg,
        seed,
        tr.idx_repro_orgs,
        tr.repro_preds,
        tr.idx_repro_preds,
    )
    // Population-cap enforcement.
    &&& cap_rel(
        tr.repro_orgs,
        tr.repro_preds,
        cfg,
        seed,
        tr.idx_repro_preds,
        post.organisms@,
        post.predators@,
        post.rng.idx(),
    )
    // The world after the tick is the fed world; biomes never change.
    &&& post.world == tr.fed_world
    // Bookkeeping.
    &&& post.generation.0 == pre.generation.0 + 1
    &&& post.config == pre.config
    &&& post.phase == pre.phase
    &&& post.rng.seed() == pre.rng.seed()
}

/// The cleanup pass keeps at most the agents that were living when the
/// tick began: predation removes only living prey and never revives a
/// predator, and movement never revives anyone.
proof fn lemma_cleanup_population(
    w: World,
    pre_orgs: Seq<OrganismWithPosition>,
    pre_preds: Seq<PredatorWithPosition>,
    max_e: i64,
    decay: i64,
    seed: u64,
    idx0: nat,
    moved_orgs: Seq<OrganismWithPosition>,
    moved_preds: Seq<PredatorWithPosition>,
    idx_mv: nat,
)
    requires
        pre_orgs.len() <= usize::MAX,
        ({
            let h = hunt_upto(pre_preds, pre_orgs, max_e, pre_preds.len() as int);
            &&& moved_orgs.len() == h.1.len()
            &&& (forall|i: int|
                0 <= i < h.1.len() ==> #[trigger] moved_orgs[i] == org_step(
                    w,
                    h.1[i],
                    seed,
                    org_idx_at(h.1, i, idx0),
                ))
            &&& moved_preds.len() == h.0.len()
            &&& (forall|i: int|
                0 <= i < h.0.len() ==> #[trigger] moved_preds[i] == pred_step(
                    w,
                    moved_orgs,
                    h.0[i],
                    decay,
                    seed,
                    pred_idx_at(h.0, moved_orgs, i, idx_mv),
                ))
        }),
    ensures
        living(moved_orgs).len() <= living(pre_orgs).len(),
        pred_living(moved_preds).len() <= pred_living(pre_preds).len(),
{
    let h = hunt_upto(pre_preds, pre_orgs, max_e, pre_preds.len() as int);
    lemma_hunt_upto_frame(pre_preds, pre_orgs, max_e, pre_preds.len() as int);
    lemma_hunt_upto_living(pre_preds, pre_orgs, max_e, pre_preds.len() as int);
    assert forall|i: int|
        0 <= i < moved_orgs.len() && (#[trigger] moved_orgs[i]).organism.energy
            > 0 implies h.1[i].organism.energy > 0 by {
        if h.1[i].organism.energy <= 0 {
            assert(moved_orgs[i] == h.1[i]);
        }
    }
    lemma_living_mono(h.1, moved_orgs);
    lemma_hunt_upto_no_revive(pre_preds, pre_orgs, max_e, pre_preds.len() as int);
    lemma_pred_living_mono(pre_preds, h.0);
    assert forall|i: int|
        0 <= i < moved_preds.len() && (#[trigger] moved_preds[i]).predator.energy
            > 0 implies h.0[i].predator.energy > 0 by {
        if h.0[i].predator.energy <= 0 {
            assert(moved_preds[i] == h.0[i]);
        }
    }
    lemma_pred_living_mono(h.0, moved_preds);
}

impl SimState {
    /// The context is well-formed: configuration and world bounds hold,
    /// the grid matches the configured dimensions, every agent is
    /// well-formed and in bounds, and the population is bounded.
    pub open spec fn wf(self) -> bool {
        &&& self.config.wf()
        &&& self.world.wf()
        &&& self.world.width == self.config.width
        &&& self.world.height == self.config.height
        &&& forall|i: int|
            0 <= i < self.organisms@.len() ==> (#[trigger] self.organisms@[i]).wf(
                self.world.width as int,
                self.world.height as int,
            )
        &&& forall|i: int|
            0 <= i < self.predators@.len() ==> (#[trigger] self.predators@[i]).wf(
                self.world.width as int,
                self.world.height as int,
            )
        &&& self.organisms@.len() + self.predators@.len() <= 4 * COUNT_MAX
        &&& living(self.organisms@).len() + pred_living(self.predators@).len() <= 2 * COUNT_MAX
    }

    /// Build the initial simulation state from a configuration: the
    /// generated world, then the initial populations, all drawn from
    /// one stream seeded by the configured seed (the world generator
    /// consumes the first `1 + width * height` positions).
    pub fn new(config: Config) -> (s: SimState)
        requires
            config.wf(),
        ensures
            s.wf(),
            s.config == config,
            s.generation.0 == 0,
            s.phase == SimPhase::Simulating,
            is_generated(s.world, config.width as int, config.height as int, config.seed),
            s.organisms@ == spawned_orgs(
                s.world,
                config,
                config.seed,
                (1 + config.width * config.height) as nat,
                config.initial_organisms as int,
            ),
            s.predators@ == spawned_preds(
                s.world,
                config,
                config.seed,
                (1 + config.width * config.height + 6 * config.initial_organisms) as nat,
                config.initial_predators as int,
            ),
            s.rng.seed() == config.seed,
    {
        let world = World::new(config.width, config.height, config.seed);
        let mut rng = SimRng::new(config.seed);
        proof {
            assert(config.width * config.height <= 1_000_000);
        }
        rng.skip(1 + (config.width * config.height) as u64);
        let organisms = spawn_organisms(&world, &config, &mut rng);
        let predators = spawn_predators(&world, &config, &mut rng);
        proof {
            lemma_living(organisms@);
            lemma_pred_living(predators@);
        }
        SimState {
            config,
            world,
            organisms,
            predators,
            generation: Generation(0),
            phase: SimPhase::Simulating,
            rng,
        }
    }

    /// Run one tick of the update pipeline, in the fixed stage order.
    /// The trace in the contract pins every stage; the headline
    /// invariants follow: the state stays well-formed (positions in
    /// bounds, tolerance tables positive, traits bounded) and after cap
    /// enforcement the population does not exceed the configured
    /// maximum.
    #[verifier::loop_isolation(false)]
    #[verifier::rlimit(100)]
    pub fn tick(&mut self)
        requires
            old(self).wf(),
            old(self).generation.0 < usize::MAX,
        ensures
            final(self).wf(),
            final(self).config == old(self).config,
            final(self).phase == old(self).phase,
            final(self).generation.0 == old(self).generation.0 + 1,
            living(final(self).organisms@).len() + pred_living(final(self).predators@).len()
                <= old(self).config.max_total_entities,
            final(self).rng.seed() == old(self).rng.seed(),
            final(self).world.width == old(self).world.width,
            final(self).world.height == old(self).world.height,
            forall|x: int, y: int|
                0 <= x < old(self).world.width && 0 <= y < old(self).world.height
                    ==> (#[trigger] final(self).world.grid@[y]@[x]).biome
                    == old(self).world.grid@[y]@[x].biome,
            exists|tr: TickTrace| tick_trace_ok(*old(self), tr, *final(self)),
    {
        let ghost pre = *old(self);

        hunting(&mut self.predators, &mut self.organisms, &self.config);
        let ghost hunted_preds = self.predators@;
        let ghost hunted_orgs = self.organisms@;

        organism_movement(&self.world, &mut self.organisms, &mut self.rng);
        let ghost moved_orgs = self.organisms@;
        let ghost idx_mv_orgs = self.rng.idx();

        predator_movement(
            &self.world,
            &mut self.predators,
            &self.organisms,
            &self.config,
            &mut self.rng,
        );
        let ghost moved_preds = self.predators@;
        let ghost idx_mv_preds = self.rng.idx();

        despawn_dead_organisms(&mut self.organisms);
        let ghost live_orgs = self.organisms@;
        despawn_dead_predators(&mut self.predators);
        let ghost live_preds = self.predators@;

        regenerate_food(&mut self.world, &self.config);
        let ghost regen_world = self.world;

        consume_food(&mut self.world, &mut self.organisms);
        let ghost fed_orgs = self.organisms@;
        let ghost fed_world = self.world;

        overcrowding(&mut self.organisms, &mut self.predators, &self.config);
        let ghost culled_orgs = self.organisms@;
        let ghost culled_preds = self.predators@;
        proof {
            assert forall|i: int|
                0 <= i < culled_orgs.len() implies (#[trigger] culled_orgs[i]).wf(
                self.world.width as int,
                self.world.height as int,
            ) by {
                assert(fed_orgs[i].wf(self.world.width as int, self.world.height as int));
            }
            assert forall|i: int|
                0 <= i < culled_preds.len() implies (#[trigger] culled_preds[i]).wf(
                self.world.width as int,
                self.world.height as int,
            ) by {
                assert(live_preds[i].wf(self.world.width as int, self.world.height as int));
            }
        }

        biome_adaptation(&mut self.organisms, &self.world);
        let ghost adapted_orgs = self.organisms@;

        let pred_count = count_living_predators(&self.predators);
        reproduction(&mut self.organisms, pred_count, &self.world, &self.config, &mut self.rng);
        let ghost repro_orgs = self.organisms@;
        let ghost idx_repro_orgs = self.rng.idx();

        let org_count = count_living_organisms(&self.organisms);
        predator_reproduction(
            &mut self.predators,
            org_count,
            &self.world,
            &self.config,
            &mut self.rng,
        );
        let ghost repro_preds = self.predators@;
        let ghost idx_repro_preds = self.rng.idx();

        kill_over_limit_organisms(
            &mut self.organisms,
            &mut self.predators,
            &self.config,
            &mut self.rng,
        );
        proof {
            assert forall|i: int|
                0 <= i < self.organisms@.len() implies (#[trigger] self.organisms@[i]).wf(
                self.world.width as int,
                self.world.height as int,
            ) by {
                assert(repro_orgs.contains(self.organisms@[i]));
                let k = choose|k: int|
                    0 <= k < repro_orgs.len() && repro_orgs[k] == self.organisms@[i];
                assert(repro_orgs[k].wf(self.world.width as int, self.world.height as int));
            }
            assert forall|i: int|
                0 <= i < self.predators@.len() implies (#[trigger] self.predators@[i]).wf(
                self.world.width as int,
                self.world.height as int,
            ) by {
                assert(repro_preds.contains(self.predators@[i]));
                let k = choose|k: int|
                    0 <= k < repro_preds.len() && repro_preds[k] == self.predators@[i];
                assert(repro_preds[k].wf(self.world.width as int, self.world.height as int));
            }
        }

        proof {
            // Population accounting: the cleanup pass keeps at most the
            // agents living at the start of the tick, and each
            // reproduction pass adds fewer children than the cap.
            let h = hunt_upto(
                pre.predators@,
                pre.organisms@,
                pre.config.max_predator_energy,
                pre.predators@.len() as int,
            );
            assert(h.0 == hunted_preds && h.1 == hunted_orgs);
            lemma_cleanup_population(
                pre.world,
                pre.organisms@,
                pre.predators@,
                pre.config.max_predator_energy,
                pre.config.predator_energy_decay_rate,
                pre.rng.seed(),
                pre.rng.idx(),
                moved_orgs,
                moved_preds,
                idx_mv_orgs,
            );
            assert(live_orgs.len() + live_preds.len() <= 2 * COUNT_MAX);
            assert forall|k: int|
                0 <= k < adapted_orgs.len() implies (
            #[trigger] adapted_orgs[k]).organism.reproduction_threshold >= 0 by {
                assert(adapted_orgs[k].wf(self.world.width as int, self.world.height as int));
            }
            assert forall|k: int|
                0 <= k < culled_preds.len() implies (
            #[trigger] culled_preds[k]).predator.reproduction_threshold >= 0 by {
                assert(culled_preds[k].wf(self.world.width as int, self.world.height as int));
            }
            lemma_org_children_count(
                adapted_orgs,
                fed_world,
                pre.config,
                pre.rng.seed(),
                idx_mv_preds,
                adapted_orgs.len() as int,
            );
            lemma_pred_children_count(
                culled_preds,
                fed_world,
                pre.config,
                pre.rng.seed(),
                idx_repro_orgs,
                culled_preds.len() as int,
            );
            assert(adapted_orgs.take(adapted_orgs.len() as int) =~= adapted_orgs);
            assert(culled_preds.take(culled_preds.len() as int) =~= culled_preds);
            assert(repro_orgs.len() <= adapted_orgs.len() + COUNT_MAX);
            assert(repro_preds.len() <= culled_preds.len() + COUNT_MAX);
            assert(repro_orgs.len() + repro_preds.len() <= 4 * COUNT_MAX);
        }

        increment_generation(&mut self.generation);

        proof {
            let tr = TickTrace {
                hunted_preds,
                hunted_orgs,
                moved_orgs,
                moved_preds,
                live_orgs,
                live_preds,
                regen_world,
                fed_orgs,
                fed_world,
                culled_orgs,
                culled_preds,
                adapted_orgs,
                repro_orgs,
                repro_preds,
                idx_mv_orgs,
                idx_mv_preds,
                idx_repro_orgs,
                idx_repro_preds,
            };
            assert(tick_trace_ok(pre, tr, *self));
            assert forall|x: int, y: int|
                0 <= x < pre.world.width && 0 <= y < pre.world.height implies (
            #[trigger] self.world.grid@[y]@[x]).biome == pre.world.grid@[y]@[x].biome by {
                let p = Position { x: x as usize, y: y as usize };
                assert(p.in_bounds(regen_world.width as int, regen_world.height as int));
                assert(regen_world.grid@[y]@[x] == regen_tile(pre.world.grid@[y]@[x], pre.config));
                assert(tile_at(regen_world, p) == regen_world.grid@[y]@[x]);
                assert(tile_at(fed_world, p) == fed_world.grid@[y]@[x]);
                if occupied(live_orgs, p) {
                    assert(tile_at(fed_world, p) == (Tile {
                        food_availabilty: fed_food(live_orgs, regen_world, p) as i64,
                        ..tile_at(regen_world, p)
                    }));
                } else {
                    assert(tile_at(fed_world, p) == tile_at(regen_world, p));
                }
            }
        }
    }

    /// Drive the state machine one step: in `Simulating`, run one tick
    /// and transition to `Finished` exactly when the configured
    /// generation limit is reached; in `Finished`, do nothing.
    pub fn step(&mut self)
        requires
            old(self).wf(),
            old(self).generation.0 < usize::MAX,
        ensures
            final(self).wf(),
            old(self).phase == SimPhase::Finished ==> {
                &&& final(self).organisms@ == old(self).organisms@
                &&& final(self).predators@ == old(self).predators@
                &&& final(self).generation.0 == old(self).generation.0
                &&& final(self).phase == SimPhase::Finished
            },
            old(self).phase == SimPhase::Simulating ==> {
                &&& final(self).generation.0 == old(self).generation.0 + 1
                &&& final(self).phase == (if limit_reached(final(self).generation, old(self).config) {
                    SimPhase::Finished
                } else {
                    SimPhase::Simulating
                })
                &&& living(final(self).organisms@).len() + pred_living(final(self).predators@).len()
                    <= old(self).config.max_total_entities
            },
    {
        match self.phase {
            SimPhase::Finished => {},
            SimPhase::Simulating => {
                self.tick();
                if run_for_x_generations(&self.generation, &self.config) {
                    self.phase = SimPhase::Finished;
                }
            },
        }
    }
}

} // verus!
