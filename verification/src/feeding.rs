//! The feeding economy: per-tick food regeneration toward a biome cap
//! (water never regenerates), and per-tile consumption where co-located
//! living organisms eat largest first, each converting `min(need,
//! remaining)` food to energy at a 2x multiplier, until the tile's food
//! runs out. Dead organisms awaiting despawn do not eat.

use vstd::prelude::*;

use crate::agents::{Organism, OrganismWithPosition};
use vstd::multiset::Multiset;

use crate::util::{first_min_from, first_min_idx, lemma_first_min_idx, lemma_remove_keeps};
use crate::config::Config;
use crate::world::{regen_tile, tile_at, Tile, World};
use crate::{clamp_e, clamp_energy, Position, ENERGY_MAX};

verus! {

/// Regenerate the food of every tile by one tick.
#[verifier::loop_isolation(false)]
pub fn regenerate_food(world: &mut World, config: &Config)
    requires
        old(world).wf(),
        config.wf(),
    ensures
        final(world).width == old(world).width,
        final(world).height == old(world).height,
        final(world).grid@.len() == old(world).grid@.len(),
        forall|y: int|
            0 <= y < old(world).height ==> (#[trigger] final(world).grid@[y])@.len()
                == old(world).grid@[y]@.len(),
        forall|x: int, y: int|
            0 <= x < old(world).width && 0 <= y < old(world).height
                ==> #[trigger] final(world).grid@[y]@[x] == regen_tile(
                old(world).grid@[y]@[x],
                *config,
            ),
        final(world).wf(),
{
    let ghost w0 = *old(world);
    let height = world.height;
    let width = world.width;
    let mut y: usize = 0;
    while y < height
        invariant
            0 <= y <= height,
            world.width == w0.width,
            world.height == w0.height,
            world.grid@.len() == w0.grid@.len(),
            forall|yy: int|
                0 <= yy < height ==> (#[trigger] world.grid@[yy])@.len() == w0.grid@[yy]@.len(),
            forall|xx: int, yy: int|
                0 <= xx < width && 0 <= yy < y ==> #[trigger] world.grid@[yy]@[xx] == regen_tile(
                    w0.grid@[yy]@[xx],
                    *config,
                ),
            forall|xx: int, yy: int|
                0 <= xx < width && y <= yy < height ==> #[trigger] world.grid@[yy]@[xx]
                    == w0.grid@[yy]@[xx],
        decreases height - y,
    {
        let mut x: usize = 0;
        while x < width
            invariant
                0 <= x <= width,
                0 <= y < height,
                world.width == w0.width,
                world.height == w0.height,
                world.grid@.len() == w0.grid@.len(),
                forall|yy: int|
                    0 <= yy < height ==> (#[trigger] world.grid@[yy])@.len()
                        == w0.grid@[yy]@.len(),
                forall|xx: int, yy: int|
                    0 <= xx < width && 0 <= yy < y ==> #[trigger] world.grid@[yy]@[xx]
                        == regen_tile(w0.grid@[yy]@[xx], *config),
                forall|xx: int|
                    0 <= xx < x ==> #[trigger] world.grid@[y as int]@[xx] == regen_tile(
                        w0.grid@[y as int]@[xx],
                        *config,
                    ),
                forall|xx: int|
                    x <= xx < width ==> #[trigger] world.grid@[y as int]@[xx]
                        == w0.grid@[y as int]@[xx],
                forall|xx: int, yy: int|
                    0 <= xx < width && y < yy < height ==> #[trigger] world.grid@[yy]@[xx]
                        == w0.grid@[yy]@[xx],
            decreases width - x,
        {
            let mut t = world.grid[y][x];
            t.regenerate_food(config);
            world.grid[y][x] = t;
            x = x + 1;
        }
        y = y + 1;
    }
}

/// The positions of a list of agents.
pub open spec fn positions_of(s: Seq<OrganismWithPosition>) -> Seq<Position> {
    s.map_values(|a: OrganismWithPosition| a.position)
}

/// Some agent among the first `n` stands at `p`.
pub open spec fn occ_before(s: Seq<OrganismWithPosition>, p: Position, n: int) -> bool {
    exists|k: int| 0 <= k < n && (#[trigger] s[k]).position == p
}

/// Some agent stands at `p`.
pub open spec fn occupied(s: Seq<OrganismWithPosition>, p: Position) -> bool {
    occ_before(s, p, s.len() as int)
}

/// The indices among `0 .. n` of living organisms standing at `p`,
/// ascending.
pub open spec fn live_group_upto(s: Seq<OrganismWithPosition>, p: Position, n: int) -> Seq<usize>
    decreases n,
{
    if n <= 0 {
        Seq::empty()
    } else if s[n - 1].position == p && s[n - 1].organism.energy > 0 {
        live_group_upto(s, p, n - 1).push((n - 1) as usize)
    } else {
        live_group_upto(s, p, n - 1)
    }
}

/// The indices of the living organisms standing at `p`, ascending.
pub open spec fn live_group_of(s: Seq<OrganismWithPosition>, p: Position) -> Seq<usize> {
    live_group_upto(s, p, s.len() as int)
}

pub proof fn lemma_live_group_upto(s: Seq<OrganismWithPosition>, p: Position, n: int)
    requires
        0 <= n <= s.len(),
        s.len() <= usize::MAX,
    ensures
        forall|t: int|
            0 <= t < live_group_upto(s, p, n).len() ==> 0 <= #[trigger] live_group_upto(
                s,
                p,
                n,
            )[t] < n && s[live_group_upto(s, p, n)[t] as int].position == p && s[live_group_upto(
                s,
                p,
                n,
            )[t] as int].organism.energy > 0,
        forall|t1: int, t2: int|
            0 <= t1 < t2 < live_group_upto(s, p, n).len() ==> live_group_upto(s, p, n)[t1]
                < live_group_upto(s, p, n)[t2],
        forall|k: int|
            0 <= k < n && s[k].position == p && s[k].organism.energy > 0 ==> live_group_upto(
                s,
                p,
                n,
            ).contains(k as usize),
        live_group_upto(s, p, n).no_duplicates(),
    decreases n,
{
    if n > 0 {
        lemma_live_group_upto(s, p, n - 1);
        let g = live_group_upto(s, p, n);
        let gd = live_group_upto(s, p, n - 1);
        if s[n - 1].position == p && s[n - 1].organism.energy > 0 {
            assert forall|k: int|
                0 <= k < n && s[k].position == p && s[k].organism.energy > 0 implies g.contains(
                k as usize,
            ) by {
                if k < n - 1 {
                    let t = choose|t: int| 0 <= t < gd.len() && gd[t] == k as usize;
                    assert(g[t] == k as usize);
                } else {
                    assert(g[g.len() - 1] == (n - 1) as usize);
                }
            }
        }
        assert forall|t1: int, t2: int| 0 <= t1 < t2 < g.len() implies g[t1] < g[t2] by {
            if s[n - 1].position == p && s[n - 1].organism.energy > 0 {
                if t2 == g.len() - 1 {
                    assert(g[t1] == gd[t1]);
                    assert(gd[t1] < n - 1);
                    assert(g[t2] == (n - 1) as usize);
                } else {
                    assert(g[t1] == gd[t1] && g[t2] == gd[t2]);
                    assert(gd[t1] < gd[t2]);
                }
            } else {
                assert(g[t1] == gd[t1] && g[t2] == gd[t2]);
                assert(gd[t1] < gd[t2]);
            }
        }
        assert forall|t1: int, t2: int|
            0 <= t1 < g.len() && 0 <= t2 < g.len() && t1 != t2 implies g[t1] != g[t2] by {
            if t1 < t2 {
                assert(g[t1] < g[t2]);
            } else {
                assert(g[t2] < g[t1]);
            }
        }
    }
}

/// Food an organism needs per tick: 0.2 * size * speed.
pub open spec fn food_need(o: Organism) -> int {
    o.size * o.speed / 5000
}

/// Keys for the feeding order among the agents listed in `g`: negated
/// size, so that the first minimum is the earliest largest organism.
pub open spec fn size_keys(s: Seq<OrganismWithPosition>, g: Seq<usize>) -> Seq<int> {
    Seq::new(g.len(), |t: int| -(s[g[t] as int].organism.size as int))
}

/// The order in which the co-located organisms listed in `g` eat: by
/// size descending, earlier list position first among equal sizes.
pub open spec fn feed_order(s: Seq<OrganismWithPosition>, g: Seq<usize>) -> Seq<usize>
    decreases g.len(),
{
    if g.len() == 0 {
        Seq::empty()
    } else {
        let m = first_min_idx(size_keys(s, g));
        if 0 <= m < g.len() {
            seq![g[m]] + feed_order(s, g.remove(m))
        } else {
            Seq::empty()
        }
    }
}

/// The agents after the organisms listed in `ord` have eaten, in that
/// order, from `rem` food: each eats `min(need, remaining)`, converts
/// it to energy at a 2x multiplier, and eating stops once the food is
/// exhausted, so late eaters on a crowded tile may starve.
pub open spec fn feed_apply(
    s: Seq<OrganismWithPosition>,
    rem: int,
    ord: Seq<usize>,
) -> (Seq<OrganismWithPosition>, int)
    decreases ord.len(),
{
    if ord.len() == 0 || rem <= 0 {
        (s, rem)
    } else {
        let j = ord[0] as int;
        if 0 <= j < s.len() {
            let o = s[j].organism;
            let need = food_need(o);
            let c = if need <= rem {
                need
            } else {
                rem
            };
            let o2 = Organism { energy: clamp_e(o.energy + 2 * c) as i64, ..o };
            feed_apply(
                s.update(j, OrganismWithPosition { organism: o2, ..s[j] }),
                rem - c,
                ord.drop_first(),
            )
        } else {
            (s, rem)
        }
    }
}

/// The whole agent list after the tile at `p` has been eaten from by
/// its living occupants.
pub open spec fn fed_agents(s: Seq<OrganismWithPosition>, w: World, p: Position) -> Seq<
    OrganismWithPosition,
> {
    let f0 = tile_at(w, p).food_availabilty as int;
    if f0 < 0 {
        s
    } else {
        feed_apply(s, f0, feed_order(s, live_group_of(s, p))).0
    }
}

/// The food left on the tile at `p` after its living occupants have
/// eaten.
pub open spec fn fed_food(s: Seq<OrganismWithPosition>, w: World, p: Position) -> int {
    let f0 = tile_at(w, p).food_availabilty as int;
    if f0 < 0 {
        f0
    } else {
        feed_apply(s, f0, feed_order(s, live_group_of(s, p))).1
    }
}

/// Feeding changes nothing but energies: positions and traits are kept,
/// and agents outside the feeding order are untouched.
pub proof fn lemma_feed_apply_frame(s: Seq<OrganismWithPosition>, rem: int, ord: Seq<usize>)
    ensures
        feed_apply(s, rem, ord).0.len() == s.len(),
        forall|k: int|
            0 <= k < s.len() ==> {
                let r = #[trigger] feed_apply(s, rem, ord).0[k];
                r.position == s[k].position && r.organism.speed == s[k].organism.speed
                    && r.organism.size == s[k].organism.size && r.organism.reproduction_threshold
                    == s[k].organism.reproduction_threshold && r.organism.reproduction_cooldown
                    == s[k].organism.reproduction_cooldown && r.organism.biome_tolerance
                    == s[k].organism.biome_tolerance
            },
        forall|k: int|
            0 <= k < s.len() && !ord.contains(k as usize) ==> #[trigger] feed_apply(
                s,
                rem,
                ord,
            ).0[k] == s[k],
    decreases ord.len(),
{
    if ord.len() > 0 && rem > 0 {
        let j = ord[0] as int;
        if 0 <= j < s.len() {
            let o = s[j].organism;
            let need = food_need(o);
            let c = if need <= rem {
                need
            } else {
                rem
            };
            let o2 = Organism { energy: clamp_e(o.energy + 2 * c) as i64, ..o };
            let s2 = s.update(j, OrganismWithPosition { organism: o2, ..s[j] });
            lemma_feed_apply_frame(s2, rem - c, ord.drop_first());
            assert forall|k: int|
                0 <= k < s.len() && !ord.contains(k as usize) implies #[trigger] feed_apply(
                s,
                rem,
                ord,
            ).0[k] == s[k] by {
                assert(k != j) by {
                    assert(ord[0] == j as usize);
                }
                assert(!ord.drop_first().contains(k as usize)) by {
                    if ord.drop_first().contains(k as usize) {
                        let t = choose|t: int|
                            0 <= t < ord.drop_first().len() && ord.drop_first()[t] == k as usize;
                        assert(ord[t + 1] == k as usize);
                    }
                }
            }
        }
    }
}

/// Feeding keeps every energy inside the clamp bounds.
pub proof fn lemma_feed_apply_energy(s: Seq<OrganismWithPosition>, rem: int, ord: Seq<usize>)
    requires
        forall|k: int|
            0 <= k < s.len() ==> -ENERGY_MAX <= (#[trigger] s[k]).organism.energy <= ENERGY_MAX,
    ensures
        forall|k: int|
            0 <= k < s.len() ==> -ENERGY_MAX <= (#[trigger] feed_apply(
                s,
                rem,
                ord,
            ).0[k]).organism.energy <= ENERGY_MAX,
    decreases ord.len(),
{
    if ord.len() > 0 && rem > 0 {
        let j = ord[0] as int;
        if 0 <= j < s.len() {
            let o = s[j].organism;
            let need = food_need(o);
            let c = if need <= rem {
                need
            } else {
                rem
            };
            let o2 = Organism { energy: clamp_e(o.energy + 2 * c) as i64, ..o };
            let s2 = s.update(j, OrganismWithPosition { organism: o2, ..s[j] });
            assert(feed_apply(s, rem, ord) == feed_apply(s2, rem - c, ord.drop_first()));
            assert forall|k: int|
                0 <= k < s2.len() implies -ENERGY_MAX <= (#[trigger] s2[k]).organism.energy
                <= ENERGY_MAX by {
                if k != j {
                    assert(s2[k] == s[k]);
                }
            }
            lemma_feed_apply_energy(s2, rem - c, ord.drop_first());
        }
    }
}

/// Feeding never makes a tile's food negative, and never adds food.
pub proof fn lemma_feed_apply_rem(s: Seq<OrganismWithPosition>, rem: int, ord: Seq<usize>)
    requires
        0 <= rem,
        forall|k: int|
            0 <= k < s.len() ==> (#[trigger] s[k]).organism.size >= 0 && s[k].organism.speed >= 0,
    ensures
        0 <= feed_apply(s, rem, ord).1 <= rem,
    decreases ord.len(),
{
    if ord.len() > 0 && rem > 0 {
        let j = ord[0] as int;
        if 0 <= j < s.len() {
            let o = s[j].organism;
            assert(o.size * o.speed >= 0) by (nonlinear_arith)
                requires
                    o.size >= 0,
                    o.speed >= 0,
            ;
            let need = food_need(o);
            let c = if need <= rem {
                need
            } else {
                rem
            };
            let o2 = Organism { energy: clamp_e(o.energy + 2 * c) as i64, ..o };
            let s2 = s.update(j, OrganismWithPosition { organism: o2, ..s[j] });
            lemma_feed_apply_rem(s2, rem - c, ord.drop_first());
        }
    }
}

/// Feeding along a concatenated order is feeding along the first part,
/// then feeding the rest from what is left.
pub proof fn lemma_feed_apply_append(
    s: Seq<OrganismWithPosition>,
    rem: int,
    a: Seq<usize>,
    b: Seq<usize>,
)
    requires
        forall|t: int| 0 <= t < a.len() ==> #[trigger] a[t] < s.len(),
    ensures
        feed_apply(s, rem, a + b) == feed_apply(
            feed_apply(s, rem, a).0,
            feed_apply(s, rem, a).1,
            b,
        ),
    decreases a.len(),
{
    if a.len() == 0 {
        assert(a + b =~= b);
    } else if rem <= 0 {
        assert((a + b).len() > 0);
        assert(feed_apply(s, rem, a + b) == (s, rem));
        assert(feed_apply(s, rem, a) == (s, rem));
        assert(feed_apply(s, rem, b) == (s, rem));
    } else {
        assert((a + b)[0] == a[0]);
        let j = a[0] as int;
        assert(0 <= j < s.len());
        let o = s[j].organism;
        let need = food_need(o);
        let c = if need <= rem {
            need
        } else {
            rem
        };
        let o2 = Organism { energy: clamp_e(o.energy + 2 * c) as i64, ..o };
        let s2 = s.update(j, OrganismWithPosition { organism: o2, ..s[j] });
        assert((a + b).drop_first() =~= a.drop_first() + b);
        assert(feed_apply(s, rem, a + b) == feed_apply(s2, rem - c, a.drop_first() + b));
        assert(feed_apply(s, rem, a) == feed_apply(s2, rem - c, a.drop_first()));
        assert forall|t: int|
            0 <= t < a.drop_first().len() implies #[trigger] a.drop_first()[t] < s2.len() by {
            assert(a.drop_first()[t] == a[t + 1]);
        }
        lemma_feed_apply_append(s2, rem - c, a.drop_first(), b);
    }
}

/// The feeding order is a permutation of the group it orders.
pub proof fn lemma_feed_order(s: Seq<OrganismWithPosition>, g: Seq<usize>)
    requires
        g.no_duplicates(),
    ensures
        feed_order(s, g).to_multiset() == g.to_multiset(),
        feed_order(s, g).len() == g.len(),
        feed_order(s, g).no_duplicates(),
        forall|t: int|
            0 <= t < feed_order(s, g).len() ==> g.contains(#[trigger] feed_order(s, g)[t]),
    decreases g.len(),
{
    broadcast use vstd::seq_lib::group_to_multiset_ensures;

    let ord = feed_order(s, g);
    if g.len() == 0 {
        assert(ord.to_multiset() =~= g.to_multiset());
    } else {
        lemma_first_min_idx(size_keys(s, g));
        let m = first_min_idx(size_keys(s, g));
        let rest = g.remove(m);
        assert(rest.to_multiset() =~= g.to_multiset().remove(g[m]));
        assert(rest.no_duplicates()) by {
            g.lemma_multiset_has_no_duplicates();
            assert(forall|x: usize|
                rest.to_multiset().contains(x) ==> rest.to_multiset().count(x) == 1) by {
                assert(forall|x: usize| rest.to_multiset().count(x) <= g.to_multiset().count(x));
            }
            rest.lemma_multiset_has_no_duplicates_conv();
        }
        lemma_feed_order(s, rest);
        assert(ord =~= seq![g[m]] + feed_order(s, rest));
        assert(ord.to_multiset() =~= g.to_multiset()) by {
            assert(ord.to_multiset() == (seq![g[m]] + feed_order(s, rest)).to_multiset());
            vstd::seq_lib::lemma_multiset_commutative(seq![g[m]], feed_order(s, rest));
            assert(seq![g[m]].to_multiset() =~= Multiset::empty().insert(g[m])) by {
                assert(seq![g[m]] =~= Seq::empty().push(g[m]));
            }
            assert(g.to_multiset().contains(g[m]));
        }
        assert(ord.no_duplicates()) by {
            g.lemma_multiset_has_no_duplicates();
            assert(forall|x: usize|
                ord.to_multiset().contains(x) ==> ord.to_multiset().count(x) == 1);
            ord.lemma_multiset_has_no_duplicates_conv();
        }
        assert forall|t: int| 0 <= t < ord.len() implies g.contains(#[trigger] ord[t]) by {
            assert(ord.to_multiset().contains(ord[t]));
            assert(g.to_multiset().count(ord[t]) > 0);
        }
    }
}

/// Consume food on every occupied tile: on each tile with non-negative
/// food, the co-located organisms eat largest first until the food runs
/// out; the tile keeps what is left. Positions and non-energy traits
/// are unchanged; unoccupied tiles are untouched.
#[verifier::loop_isolation(false)]
#[verifier::rlimit(60)]
pub fn consume_food(world: &mut World, agents: &mut Vec<OrganismWithPosition>)
    requires
        old(world).wf(),
        forall|i: int|
            0 <= i < old(agents)@.len() ==> (#[trigger] old(agents)@[i]).wf(
                old(world).width as int,
                old(world).height as int,
            ),
    ensures
        final(agents)@.len() == old(agents)@.len(),
        forall|i: int|
            0 <= i < old(agents)@.len() ==> #[trigger] final(agents)@[i] == fed_agents(
                old(agents)@,
                *old(world),
                old(agents)@[i].position,
            )[i],
        forall|i: int|
            0 <= i < old(agents)@.len() ==> (#[trigger] final(agents)@[i]).position
                == old(agents)@[i].position,
        final(world).width == old(world).width,
        final(world).height == old(world).height,
        final(world).grid@.len() == old(world).grid@.len(),
        forall|y: int|
            0 <= y < old(world).height ==> (#[trigger] final(world).grid@[y])@.len()
                == old(world).grid@[y]@.len(),
        forall|p: Position|
            p.in_bounds(old(world).width as int, old(world).height as int) && occupied(
                old(agents)@,
                p,
            ) ==> #[trigger] tile_at(*final(world), p) == (Tile {
                food_availabilty: fed_food(old(agents)@, *old(world), p) as i64,
                ..tile_at(*old(world), p)
            }),
        forall|p: Position|
            p.in_bounds(old(world).width as int, old(world).height as int) && !occupied(
                old(agents)@,
                p,
            ) ==> #[trigger] tile_at(*final(world), p) == tile_at(*old(world), p),
        final(world).wf(),
        forall|i: int|
            0 <= i < final(agents)@.len() ==> (#[trigger] final(agents)@[i]).wf(
                old(world).width as int,
                old(world).height as int,
            ),
{
    let ghost olds = agents@;
    let ghost w0 = *old(world);
    let n = agents.len();
    let mut i: usize = 0;
    while i < n
        invariant
            0 <= i <= n,
            agents@.len() == n,
            world.width == w0.width,
            world.height == w0.height,
            world.grid@.len() == w0.grid@.len(),
            forall|y: int|
                0 <= y < w0.height ==> (#[trigger] world.grid@[y])@.len() == w0.grid@[y]@.len(),
            forall|k: int|
                0 <= k < n ==> (#[trigger] agents@[k]).position == olds[k].position
                    && agents@[k].organism.size == olds[k].organism.size
                    && agents@[k].organism.speed == olds[k].organism.speed
                    && agents@[k].organism.reproduction_threshold
                    == olds[k].organism.reproduction_threshold
                    && agents@[k].organism.reproduction_cooldown
                    == olds[k].organism.reproduction_cooldown
                    && agents@[k].organism.biome_tolerance == olds[k].organism.biome_tolerance,
            forall|k: int|
                0 <= k < n && occ_before(olds, olds[k].position, i as int)
                    ==> #[trigger] agents@[k] == fed_agents(olds, w0, olds[k].position)[k],
            forall|k: int|
                0 <= k < n && !occ_before(olds, olds[k].position, i as int) ==> #[trigger] agents@[k]
                    == olds[k],
            forall|p: Position|
                p.in_bounds(w0.width as int, w0.height as int) && occ_before(olds, p, i as int)
                    ==> #[trigger] tile_at(*world, p) == (Tile {
                    food_availabilty: fed_food(olds, w0, p) as i64,
                    ..tile_at(w0, p)
                }),
            forall|p: Position|
                p.in_bounds(w0.width as int, w0.height as int) && !occ_before(olds, p, i as int)
                    ==> #[trigger] tile_at(*world, p) == tile_at(w0, p),
            forall|k: int|
                0 <= k < n ==> -ENERGY_MAX <= (#[trigger] agents@[k]).organism.energy
                    <= ENERGY_MAX,
            forall|p: Position|
                p.in_bounds(w0.width as int, w0.height as int) ==> 0 <= (#[trigger] tile_at(
                    *world,
                    p,
                )).food_availabilty <= 2 * ENERGY_MAX,
        decreases n - i,
    {
        let p = agents[i].position;
        assert(p == olds[i as int].position);
        let mut isfirst = true;
        let mut j: usize = 0;
        while j < i
            invariant
                0 <= j <= i <= n,
                agents@.len() == n,
                forall|k: int| 0 <= k < n ==> (#[trigger] agents@[k]).position == olds[k].position,
                isfirst <==> !occ_before(olds, p, j as int),
            decreases i - j,
        {
            if agents[j].position.x == p.x && agents[j].position.y == p.y {
                proof {
                    assert(olds[j as int].position == p);
                    assert(occ_before(olds, p, (j + 1) as int));
                }
                isfirst = false;
            }
            proof {
                if !isfirst && occ_before(olds, p, j as int) {
                    assert(occ_before(olds, p, (j + 1) as int));
                }
                if occ_before(olds, p, (j + 1) as int) && !occ_before(olds, p, j as int) {
                    let k = choose|k: int| 0 <= k < j + 1 && (#[trigger] olds[k]).position == p;
                    assert(k == j);
                }
            }
            j = j + 1;
        }
        if isfirst {
            feed_tile_group(world, agents, i, Ghost(olds), Ghost(w0));
        }
        proof {
            assert forall|k: int|
                0 <= k < n && occ_before(olds, olds[k].position, (i + 1) as int) && !occ_before(
                    olds,
                    olds[k].position,
                    i as int,
                ) implies olds[k].position == p by {
                let q = choose|q: int|
                    0 <= q < i + 1 && (#[trigger] olds[q]).position == olds[k].position;
                assert(q == i);
            }
            assert forall|q: Position|
                q.in_bounds(w0.width as int, w0.height as int) && occ_before(
                    olds,
                    q,
                    (i + 1) as int,
                ) && !occ_before(olds, q, i as int) implies q == p by {
                let k = choose|k: int| 0 <= k < i + 1 && (#[trigger] olds[k]).position == q;
                assert(k == i);
            }
            if !isfirst {
                assert(occ_before(olds, p, i as int));
            } else {
                assert(occ_before(olds, p, (i + 1) as int));
            }
        }
        i = i + 1;
    }
    proof {
        assert forall|k: int| 0 <= k < n implies occ_before(olds, olds[k].position, n as int) by {
            assert(olds[k].position == olds[k].position);
        }
        assert forall|k: int|
            0 <= k < n implies (#[trigger] agents@[k]).wf(w0.width as int, w0.height as int) by {
            assert(olds[k].wf(w0.width as int, w0.height as int));
        }
        assert forall|x: int, y: int|
            0 <= x < world.width && 0 <= y < world.height implies (
        #[trigger] world.grid@[y]@[x]).wf() by {
            let q = Position { x: x as usize, y: y as usize };
            assert(tile_at(*world, q) == world.grid@[y]@[x]);
            assert(q.in_bounds(w0.width as int, w0.height as int));
        }
    }
}

/// Feed the group of organisms standing on the tile of agent `i`, which
/// must be the first agent at its position. Used only by `consume_food`.
#[verifier::loop_isolation(false)]
#[verifier::rlimit(100)]
fn feed_tile_group(
    world: &mut World,
    agents: &mut Vec<OrganismWithPosition>,
    i: usize,
    Ghost(olds): Ghost<Seq<OrganismWithPosition>>,
    Ghost(w0): Ghost<World>,
)
    requires
        old(world).width == w0.width,
        old(world).height == w0.height,
        old(world).grid@.len() == w0.grid@.len(),
        w0.wf(),
        forall|y: int|
            0 <= y < w0.height ==> (#[trigger] old(world).grid@[y])@.len() == w0.grid@[y]@.len(),
        old(agents)@.len() == olds.len(),
        i < olds.len(),
        forall|k: int|
            0 <= k < olds.len() ==> (#[trigger] olds[k]).wf(w0.width as int, w0.height as int),
        forall|k: int|
            0 <= k < olds.len() ==> (#[trigger] old(agents)@[k]).position == olds[k].position
                && old(agents)@[k].organism.size == olds[k].organism.size
                && old(agents)@[k].organism.speed == olds[k].organism.speed,
        !occ_before(olds, olds[i as int].position, i as int),
        forall|k: int|
            0 <= k < olds.len() && olds[k].position == olds[i as int].position
                ==> #[trigger] old(agents)@[k] == olds[k],
        tile_at(*old(world), olds[i as int].position) == tile_at(w0, olds[i as int].position),
        forall|k: int|
            0 <= k < olds.len() ==> -ENERGY_MAX <= (#[trigger] old(agents)@[k]).organism.energy
                <= ENERGY_MAX,
    ensures
        final(agents)@.len() == olds.len(),
        forall|k: int|
            0 <= k < olds.len() && olds[k].position == olds[i as int].position
                ==> #[trigger] final(agents)@[k] == fed_agents(
                olds,
                w0,
                olds[i as int].position,
            )[k],
        forall|k: int|
            0 <= k < olds.len() && olds[k].position != olds[i as int].position
                ==> #[trigger] final(agents)@[k] == old(agents)@[k],
        final(world).width == old(world).width,
        final(world).height == old(world).height,
        final(world).grid@.len() == old(world).grid@.len(),
        forall|y: int|
            0 <= y < w0.height ==> (#[trigger] final(world).grid@[y])@.len()
                == old(world).grid@[y]@.len(),
        tile_at(*final(world), olds[i as int].position) == (Tile {
            food_availabilty: fed_food(olds, w0, olds[i as int].position) as i64,
            ..tile_at(w0, olds[i as int].position)
        }),
        forall|q: Position|
            q.in_bounds(w0.width as int, w0.height as int) && q != olds[i as int].position
                ==> #[trigger] tile_at(*final(world), q) == tile_at(*old(world), q),
        forall|k: int|
            0 <= k < olds.len() ==> (#[trigger] final(agents)@[k]).position == olds[k].position
                && final(agents)@[k].organism.size == olds[k].organism.size
                && final(agents)@[k].organism.speed == olds[k].organism.speed,
        forall|k: int|
            0 <= k < olds.len() && olds[k].position == olds[i as int].position
                ==> (#[trigger] final(agents)@[k]).organism.reproduction_threshold
                == olds[k].organism.reproduction_threshold
                && final(agents)@[k].organism.reproduction_cooldown
                == olds[k].organism.reproduction_cooldown
                && final(agents)@[k].organism.biome_tolerance == olds[k].organism.biome_tolerance,
        forall|k: int|
            0 <= k < olds.len() ==> -ENERGY_MAX <= (#[trigger] final(agents)@[k]).organism.energy
                <= ENERGY_MAX,
        0 <= fed_food(olds, w0, olds[i as int].position) <= 2 * ENERGY_MAX,
{
    let ghost p_g = olds[i as int].position;
    let p = agents[i].position;
    let n = agents.len();

    // Collect the group: every living agent standing at `p`.
    let mut g: Vec<usize> = Vec::new();
    let mut j: usize = 0;
    while j < n
        invariant
            0 <= j <= n,
            agents@.len() == n,
            n == olds.len(),
            p == p_g,
            forall|k: int| 0 <= k < n ==> (#[trigger] agents@[k]).position == olds[k].position,
            forall|k: int|
                0 <= k < n && olds[k].position == p_g ==> #[trigger] agents@[k] == olds[k],
            g@ == live_group_upto(olds, p_g, j as int),
        decreases n - j,
    {
        if agents[j].position.x == p.x && agents[j].position.y == p.y
            && agents[j].organism.energy > 0 {
            g.push(j);
            proof {
                assert(agents@[j as int] == olds[j as int]);
            }
        } else {
            proof {
                if olds[j as int].position == p_g {
                    assert(agents@[j as int] == olds[j as int]);
                }
            }
        }
        j = j + 1;
    }
    proof {
        lemma_live_group_upto(olds, p_g, olds.len() as int);
    }
    let ghost gfull = live_group_of(olds, p_g);
    assert(g@ == gfull);
    proof {
        lemma_feed_order(olds, gfull);
        assert forall|t: int|
            0 <= t < feed_order(olds, gfull).len() implies #[trigger] feed_order(olds, gfull)[t]
            < olds.len() by {
        assert(gfull.contains(feed_order(olds, gfull)[t]));
            let tt = choose|tt: int|
                0 <= tt < gfull.len() && gfull[tt] == feed_order(olds, gfull)[t];
        }
    }
    let ghost ord_full = feed_order(olds, gfull);

    let tile = world.grid[p.y][p.x];
    assert(tile == tile_at(w0, p_g));
    assert(tile_at(w0, p_g).wf());
    let f0 = tile.food_availabilty;
    if f0 < 0 {
        return ;
    }

    let mut rem: i64 = f0;
    let mut grem = g;
    let ghost mut r: int = 0;
    while grem.len() > 0 && rem > 0
        invariant
            agents@.len() == n,
            n == olds.len(),
            0 <= r <= ord_full.len(),
            r + grem@.len() == ord_full.len(),
            feed_order(olds, grem@) == ord_full.skip(r),
            grem@.no_duplicates(),
            forall|t: int| 0 <= t < grem@.len() ==> gfull.contains(#[trigger] grem@[t]),
            rem == feed_apply(olds, f0 as int, ord_full.take(r)).1,
            forall|k: int|
                0 <= k < n && olds[k].position == p_g ==> #[trigger] agents@[k] == feed_apply(
                    olds,
                    f0 as int,
                    ord_full.take(r),
                ).0[k],
            forall|k: int|
                0 <= k < n && olds[k].position != p_g ==> #[trigger] agents@[k] == old(agents)@[k],
            forall|k: int|
                0 <= k < n ==> (#[trigger] agents@[k]).organism.size == olds[k].organism.size,
            world == old(world),
        decreases grem@.len(),
    {
        // Pick the earliest largest organism still waiting.
        let ghost keys = size_keys(olds, grem@);
        let m_len = grem.len();
        let mut best_t: usize = 0;
        let mut best_key: i64 = 0;
        let mut t: usize = 0;
        while t < m_len
            invariant
                0 <= t <= m_len,
                m_len == grem@.len(),
                m_len > 0,
                agents@.len() == n,
                n == olds.len(),
                keys == size_keys(olds, grem@),
                forall|tt: int| 0 <= tt < grem@.len() ==> gfull.contains(#[trigger] grem@[tt]),
                forall|k: int|
                    0 <= k < n ==> (#[trigger] agents@[k]).organism.size == olds[k].organism.size,
                t == 0 ==> best_t == 0,
                t > 0 ==> 0 <= best_t < t && best_key == keys[best_t as int] && first_min_from(
                    keys,
                    t as int,
                    best_t as int,
                ) == first_min_idx(keys),
            decreases m_len - t,
        {
            let idx = grem[t];
            proof {
                assert(gfull.contains(grem@[t as int]));
                lemma_live_group_upto(olds, p_g, olds.len() as int);
                let tt = choose|tt: int| 0 <= tt < gfull.len() && gfull[tt] == grem@[t as int];
                assert(0 <= gfull[tt] < olds.len());
            }
            let key = -(agents[idx].organism.size);
            assert(key == keys[t as int]);
            if t == 0 {
                best_t = 0;
                best_key = key;
            } else if key < best_key {
                best_t = t;
                best_key = key;
            }
            t = t + 1;
        }
        assert(first_min_idx(keys) == best_t as int);
        let ghost grem_pre = grem@;
        let jj = grem.remove(best_t);
        proof {
            // The removed index is the head of the remaining feed order.
            assert(feed_order(olds, grem_pre) == seq![jj] + feed_order(olds, grem@));
            assert(ord_full.skip(r)[0] == ord_full[r]);
            assert(ord_full[r] == jj);
            assert(feed_order(olds, grem@) =~= ord_full.skip(r).drop_first());
            assert(ord_full.skip(r).drop_first() =~= ord_full.skip(r + 1));
            lemma_remove_keeps(grem_pre, best_t as int);
            assert(gfull.contains(jj));
            lemma_live_group_upto(olds, p_g, olds.len() as int);
            let tt = choose|tt: int| 0 <= tt < gfull.len() && gfull[tt] == jj;
            assert(0 <= jj < olds.len());
            assert(olds[jj as int].position == p_g);
            // `jj` has not eaten yet.
            assert(!ord_full.take(r).contains(jj)) by {
                if ord_full.take(r).contains(jj) {
                    let t0 = choose|t0: int|
                        0 <= t0 < r && ord_full.take(r)[t0] == jj;
                    assert(ord_full[t0] == jj);
                    assert(ord_full[r] == jj);
                }
            }
            lemma_feed_apply_frame(olds, f0 as int, ord_full.take(r));
        }
        let ghost s_r = feed_apply(olds, f0 as int, ord_full.take(r));
        assert(s_r.1 > 0);
        assert(agents@[jj as int] == s_r.0[jj as int]);
        assert(s_r.0[jj as int] == olds[jj as int]);
        assert(olds[jj as int].wf(w0.width as int, w0.height as int));
        let o = agents[jj];
        proof {
            assert(0 <= o.organism.size * o.organism.speed <= 1_000_000_000_000)
                by (nonlinear_arith)
                requires
                    1 <= o.organism.size <= 1_000_000,
                    1 <= o.organism.speed <= 1_000_000,
            ;
        }
        let need = o.organism.size * o.organism.speed / 5000;
        let c = if need <= rem {
            need
        } else {
            rem
        };
        let na = OrganismWithPosition {
            organism: Organism {
                energy: clamp_energy(o.organism.energy + 2 * c),
                ..o.organism
            },
            position: o.position,
        };
        agents[jj] = na;
        rem = rem - c;
        proof {
            let r2 = r + 1;
            assert(ord_full.take(r2) =~= ord_full.take(r) + seq![jj]);
            assert(forall|t: int|
                0 <= t < ord_full.take(r).len() ==> #[trigger] ord_full.take(r)[t] < olds.len());
            lemma_feed_apply_append(olds, f0 as int, ord_full.take(r), seq![jj]);
            let step = feed_apply(s_r.0, s_r.1, seq![jj]);
            let s2 = s_r.0.update(jj as int, na);
            assert(seq![jj][0] == jj);
            assert(seq![jj].drop_first() =~= Seq::<usize>::empty());
            assert(feed_apply(s2, s_r.1 - c, seq![jj].drop_first()) == (s2, s_r.1 - c));
            assert(food_need(s_r.0[jj as int].organism) == need);
            assert(step.0 == s2 && step.1 == s_r.1 - c);
            assert(feed_apply(olds, f0 as int, ord_full.take(r2)) == step);
            r = r2;
        }
    }
    // Either every occupant has eaten, or the food ran out; both end the
    // fold over the full feeding order.
    proof {
        assert(ord_full =~= ord_full.take(r) + ord_full.skip(r));
        assert(forall|t: int|
            0 <= t < ord_full.take(r).len() ==> #[trigger] ord_full.take(r)[t] < olds.len());
        assert(forall|k: int|
            0 <= k < olds.len() ==> (#[trigger] olds[k]).organism.size >= 0
                && olds[k].organism.speed >= 0);
        lemma_feed_apply_append(olds, f0 as int, ord_full.take(r), ord_full.skip(r));
        if grem.len() == 0 {
            assert(feed_order(olds, grem@).len() == 0);
            assert(ord_full.skip(r).len() == 0);
        } else {
            assert(rem <= 0);
        }
        assert(feed_apply(olds, f0 as int, ord_full) == (
            feed_apply(olds, f0 as int, ord_full.take(r)).0,
            feed_apply(olds, f0 as int, ord_full.take(r)).1,
        ));
        lemma_feed_apply_frame(olds, f0 as int, ord_full);
        lemma_feed_apply_energy(olds, f0 as int, ord_full);
        lemma_feed_apply_rem(olds, f0 as int, ord_full);
    }
    let tile2 = Tile { food_availabilty: rem, ..tile };
    let py = p.y;
    let px = p.x;
    world.grid[py][px] = tile2;
    proof {
        assert(tile_at(*world, p_g) == tile2);
        assert forall|q: Position|
            q.in_bounds(w0.width as int, w0.height as int) && q != p_g implies #[trigger] tile_at(
            *world,
            q,
        ) == tile_at(*old(world), q) by {
            if q.y as int != py as int {
                assert(world.grid@[q.y as int] == old(world).grid@[q.y as int]);
            } else {
                assert(q.x as int != px as int);
                assert(world.grid@[q.y as int]@[q.x as int] == old(
                    world,
                ).grid@[q.y as int]@[q.x as int]);
            }
        }
    }
}

} // verus!
