//! Population control: despawning dead agents, density-dependent
//! overcrowding culling (the lowest-energy excess agents on a crowded
//! tile are marked dead), and hard population-cap enforcement by an
//! unbiased random cull.

use vstd::prelude::*;
use vstd::multiset::Multiset;

use crate::agents::{Organism, OrganismWithPosition, Predator, PredatorWithPosition};
use crate::config::Config;
use crate::feeding::positions_of;
use crate::rng::SimRng;
use crate::util::{
    count_true, first_min_from, first_min_idx, group_of, group_upto, keep_unflagged,
    lemma_count_true_add, lemma_count_true_bounds, lemma_count_true_set, lemma_first_min_idx,
    lemma_group_upto, lemma_keep_unflagged_contains, lemma_keep_unflagged_len, lemma_remove_keeps,
};
use crate::{Position, SCALE};

verus! {

/// The organisms with positive energy, in order.
pub open spec fn living(s: Seq<OrganismWithPosition>) -> Seq<OrganismWithPosition>
    decreases s.len(),
{
    if s.len() == 0 {
        Seq::empty()
    } else if s.last().organism.energy > 0 {
        living(s.drop_last()).push(s.last())
    } else {
        living(s.drop_last())
    }
}

pub proof fn lemma_living(s: Seq<OrganismWithPosition>)
    ensures
        living(s).len() <= s.len(),
        forall|t: int| 0 <= t < living(s).len() ==> (#[trigger] living(s)[t]).organism.energy > 0,
        forall|t: int| 0 <= t < living(s).len() ==> s.contains(#[trigger] living(s)[t]),
    decreases s.len(),
{
    if s.len() > 0 {
        lemma_living(s.drop_last());
        assert forall|t: int| 0 <= t < living(s).len() implies s.contains(#[trigger] living(s)[t]) by {
            if s.last().organism.energy > 0 && t == living(s).len() - 1 {
                assert(living(s)[t] == s[s.len() - 1]);
            } else {
                assert(living(s)[t] == living(s.drop_last())[t]);
                assert(s.drop_last().contains(living(s)[t]));
                let k = choose|k: int|
                    0 <= k < s.drop_last().len() && s.drop_last()[k] == living(s)[t];
                assert(s[k] == living(s)[t]);
            }
        }
    }
}

/// The predators with positive energy, in order.
pub open spec fn pred_living(s: Seq<PredatorWithPosition>) -> Seq<PredatorWithPosition>
    decreases s.len(),
{
    if s.len() == 0 {
        Seq::empty()
    } else if s.last().predator.energy > 0 {
        pred_living(s.drop_last()).push(s.last())
    } else {
        pred_living(s.drop_last())
    }
}

pub proof fn lemma_pred_living(s: Seq<PredatorWithPosition>)
    ensures
        pred_living(s).len() <= s.len(),
        forall|t: int|
            0 <= t < pred_living(s).len() ==> (#[trigger] pred_living(s)[t]).predator.energy > 0,
        forall|t: int| 0 <= t < pred_living(s).len() ==> s.contains(#[trigger] pred_living(s)[t]),
    decreases s.len(),
{
    if s.len() > 0 {
        lemma_pred_living(s.drop_last());
        assert forall|t: int|
            0 <= t < pred_living(s).len() implies s.contains(#[trigger] pred_living(s)[t]) by {
            if s.last().predator.energy > 0 && t == pred_living(s).len() - 1 {
                assert(pred_living(s)[t] == s[s.len() - 1]);
            } else {
                assert(pred_living(s)[t] == pred_living(s.drop_last())[t]);
                assert(s.drop_last().contains(pred_living(s)[t]));
                let k = choose|k: int|
                    0 <= k < s.drop_last().len() && s.drop_last()[k] == pred_living(s)[t];
                assert(s[k] == pred_living(s)[t]);
            }
        }
    }
}

/// A pointwise no-revival step never increases the number of living
/// organisms.
pub proof fn lemma_living_mono(s1: Seq<OrganismWithPosition>, s2: Seq<OrganismWithPosition>)
    requires
        s1.len() == s2.len(),
        forall|i: int|
            0 <= i < s2.len() && (#[trigger] s2[i]).organism.energy > 0 ==> s1[i].organism.energy
                > 0,
    ensures
        living(s2).len() <= living(s1).len(),
    decreases s1.len(),
{
    if s1.len() > 0 {
        assert forall|i: int|
            0 <= i < s2.drop_last().len() && (#[trigger] s2.drop_last()[i]).organism.energy
                > 0 implies s1.drop_last()[i].organism.energy > 0 by {
            assert(s2.drop_last()[i] == s2[i]);
            assert(s1.drop_last()[i] == s1[i]);
        }
        lemma_living_mono(s1.drop_last(), s2.drop_last());
        if s2.last().organism.energy > 0 {
            assert(s1[s1.len() - 1].organism.energy > 0);
        }
    }
}

/// A pointwise no-revival step never increases the number of living
/// predators.
pub proof fn lemma_pred_living_mono(s1: Seq<PredatorWithPosition>, s2: Seq<PredatorWithPosition>)
    requires
        s1.len() == s2.len(),
        forall|i: int|
            0 <= i < s2.len() && (#[trigger] s2[i]).predator.energy > 0 ==> s1[i].predator.energy
                > 0,
    ensures
        pred_living(s2).len() <= pred_living(s1).len(),
    decreases s1.len(),
{
    if s1.len() > 0 {
        assert forall|i: int|
            0 <= i < s2.drop_last().len() && (#[trigger] s2.drop_last()[i]).predator.energy
                > 0 implies s1.drop_last()[i].predator.energy > 0 by {
            assert(s2.drop_last()[i] == s2[i]);
            assert(s1.drop_last()[i] == s1[i]);
        }
        lemma_pred_living_mono(s1.drop_last(), s2.drop_last());
        if s2.last().predator.energy > 0 {
            assert(s1[s1.len() - 1].predator.energy > 0);
        }
    }
}

/// Removing one organism never increases the number of living ones.
pub proof fn lemma_living_remove(s: Seq<OrganismWithPosition>, j: int)
    requires
        0 <= j < s.len(),
    ensures
        living(s.remove(j)).len() <= living(s).len(),
    decreases s.len(),
{
    let r = s.remove(j);
    if j == s.len() - 1 {
        assert(r =~= s.drop_last());
    } else {
        assert(r.drop_last() =~= s.drop_last().remove(j));
        assert(r.last() == s[s.len() - 1]);
        lemma_living_remove(s.drop_last(), j);
    }
}

/// Count the living organisms (energy > 0) in a list.
#[verifier::loop_isolation(false)]
pub fn count_living_organisms(agents: &Vec<OrganismWithPosition>) -> (n: usize)
    ensures
        n == living(agents@).len(),
        n <= agents@.len(),
{
    proof {
        lemma_living(agents@);
    }
    let m = agents.len();
    let mut n: usize = 0;
    let mut j: usize = 0;
    while j < m
        invariant
            0 <= j <= m,
            n == living(agents@.take(j as int)).len(),
            n <= j,
        decreases m - j,
    {
        proof {
            assert(agents@.take(j + 1).drop_last() =~= agents@.take(j as int));
            assert(agents@.take(j + 1).last() == agents@[j as int]);
        }
        if agents[j].organism.energy > 0 {
            n = n + 1;
        }
        j = j + 1;
    }
    assert(agents@.take(m as int) =~= agents@);
    n
}

/// Count the living predators (energy > 0) in a list.
#[verifier::loop_isolation(false)]
pub fn count_living_predators(agents: &Vec<PredatorWithPosition>) -> (n: usize)
    ensures
        n == pred_living(agents@).len(),
        n <= agents@.len(),
{
    proof {
        lemma_pred_living(agents@);
    }
    let m = agents.len();
    let mut n: usize = 0;
    let mut j: usize = 0;
    while j < m
        invariant
            0 <= j <= m,
            n == pred_living(agents@.take(j as int)).len(),
            n <= j,
        decreases m - j,
    {
        proof {
            assert(agents@.take(j + 1).drop_last() =~= agents@.take(j as int));
            assert(agents@.take(j + 1).last() == agents@[j as int]);
        }
        if agents[j].predator.energy > 0 {
            n = n + 1;
        }
        j = j + 1;
    }
    assert(agents@.take(m as int) =~= agents@);
    n
}

/// Remove every organism whose energy has reached zero or below.
#[verifier::loop_isolation(false)]
pub fn despawn_dead_organisms(agents: &mut Vec<OrganismWithPosition>)
    ensures
        final(agents)@ == living(old(agents)@),
        forall|i: int|
            0 <= i < final(agents)@.len() ==> (#[trigger] final(agents)@[i]).organism.energy > 0,
        forall|i: int|
            0 <= i < final(agents)@.len() ==> old(agents)@.contains(#[trigger] final(agents)@[i]),
        final(agents)@.len() <= old(agents)@.len(),
{
    let ghost olds = agents@;
    let n = agents.len();
    let mut out: Vec<OrganismWithPosition> = Vec::new();
    let mut j: usize = 0;
    while j < n
        invariant
            0 <= j <= n,
            agents@ == olds,
            out@ == living(olds.take(j as int)),
        decreases n - j,
    {
        let a = agents[j];
        proof {
            assert(olds.take(j + 1).drop_last() =~= olds.take(j as int));
            assert(olds.take(j + 1).last() == olds[j as int]);
        }
        if a.organism.energy > 0 {
            out.push(a);
        }
        j = j + 1;
    }
    assert(olds.take(n as int) =~= olds);
    *agents = out;
    proof {
        lemma_living(olds);
    }
}

/// Remove every predator whose energy has reached zero or below.
#[verifier::loop_isolation(false)]
pub fn despawn_dead_predators(agents: &mut Vec<PredatorWithPosition>)
    ensures
        final(agents)@ == pred_living(old(agents)@),
        forall|i: int|
            0 <= i < final(agents)@.len() ==> (#[trigger] final(agents)@[i]).predator.energy > 0,
        forall|i: int|
            0 <= i < final(agents)@.len() ==> old(agents)@.contains(#[trigger] final(agents)@[i]),
        final(agents)@.len() <= old(agents)@.len(),
{
    let ghost olds = agents@;
    let n = agents.len();
    let mut out: Vec<PredatorWithPosition> = Vec::new();
    let mut j: usize = 0;
    while j < n
        invariant
            0 <= j <= n,
            agents@ == olds,
            out@ == pred_living(olds.take(j as int)),
        decreases n - j,
    {
        let a = agents[j];
        proof {
            assert(olds.take(j + 1).drop_last() =~= olds.take(j as int));
            assert(olds.take(j + 1).last() == olds[j as int]);
        }
        if a.predator.energy > 0 {
            out.push(a);
        }
        j = j + 1;
    }
    assert(olds.take(n as int) =~= olds);
    *agents = out;
    proof {
        lemma_pred_living(olds);
    }
}

/// Some entry among the first `n` of `ps` equals `p`.
pub open spec fn pos_occ(ps: Seq<Position>, p: Position, n: int) -> bool {
    exists|k: int| 0 <= k < n && ps[k] == p
}

/// The order in which the co-located agents listed in `g` are culled:
/// energy ascending, earlier list position first among equals.
pub open spec fn cull_order(keys: Seq<int>, g: Seq<usize>) -> Seq<usize>
    decreases g.len(),
{
    if g.len() == 0 {
        Seq::empty()
    } else {
        let m = first_min_idx(Seq::new(g.len(), |t: int| keys[g[t] as int]));
        if 0 <= m < g.len() {
            seq![g[m]] + cull_order(keys, g.remove(m))
        } else {
            Seq::empty()
        }
    }
}

pub proof fn lemma_cull_order(keys: Seq<int>, g: Seq<usize>)
    requires
        g.no_duplicates(),
        forall|t: int| 0 <= t < g.len() ==> #[trigger] g[t] < keys.len(),
    ensures
        cull_order(keys, g).to_multiset() == g.to_multiset(),
        cull_order(keys, g).len() == g.len(),
        cull_order(keys, g).no_duplicates(),
        forall|t: int| 0 <= t < g.len() ==> g.contains(#[trigger] cull_order(keys, g)[t]),
        forall|a: int, b: int|
            0 <= a <= b < g.len() ==> keys[cull_order(keys, g)[a] as int] <= keys[cull_order(
                keys,
                g,
            )[b] as int],
    decreases g.len(),
{
    broadcast use vstd::seq_lib::group_to_multiset_ensures;

    let ord = cull_order(keys, g);
    if g.len() == 0 {
        assert(ord.to_multiset() =~= g.to_multiset());
    } else {
        let gkeys = Seq::new(g.len(), |t: int| keys[g[t] as int]);
        lemma_first_min_idx(gkeys);
        let m = first_min_idx(gkeys);
        let rest = g.remove(m);
        lemma_remove_keeps(g, m);
        assert(rest.to_multiset() =~= g.to_multiset().remove(g[m]));
        assert forall|t: int| 0 <= t < rest.len() implies #[trigger] rest[t] < keys.len() by {
            assert(g.contains(rest[t]));
            let u = choose|u: int| 0 <= u < g.len() && g[u] == rest[t];
        }
        lemma_cull_order(keys, rest);
        assert(ord =~= seq![g[m]] + cull_order(keys, rest));
        assert(ord.to_multiset() =~= g.to_multiset()) by {
            vstd::seq_lib::lemma_multiset_commutative(seq![g[m]], cull_order(keys, rest));
            assert(seq![g[m]] =~= Seq::empty().push(g[m]));
            assert(g.to_multiset().contains(g[m]));
        }
        assert(ord.no_duplicates()) by {
            g.lemma_multiset_has_no_duplicates();
            assert(forall|x: usize|
                ord.to_multiset().contains(x) ==> ord.to_multiset().count(x) == 1);
            ord.lemma_multiset_has_no_duplicates_conv();
        }
        assert forall|t: int| 0 <= t < g.len() implies g.contains(#[trigger] ord[t]) by {
            assert(ord.to_multiset().contains(ord[t]));
            assert(g.to_multiset().count(ord[t]) > 0);
        }
        assert forall|a: int, b: int|
            0 <= a <= b < g.len() implies keys[ord[a] as int] <= keys[ord[b] as int] by {
            if a == 0 {
                assert(ord[0] == g[m]);
                if b > 0 {
                    let rord = cull_order(keys, rest);
                    assert(ord[b] == rord[b - 1]);
                    assert(rest.contains(rord[b - 1]));
                    let u = choose|u: int| 0 <= u < rest.len() && rest[u] == rord[b - 1];
                    assert(g.contains(rest[u]));
                    let v = choose|v: int| 0 <= v < g.len() && g[v] == rest[u];
                    assert(gkeys[v] == keys[g[v] as int]);
                    assert(gkeys[m] <= gkeys[v]);
                } else {
                    assert(keys[ord[0] as int] <= keys[ord[0] as int]);
                }
            } else {
                let rord = cull_order(keys, rest);
                assert(ord[a] == rord[a - 1] && ord[b] == rord[b - 1]);
            }
        }
    }
}

/// The agents marked for death on the tile at `p`: none if the tile
/// holds at most `thr` co-located agents, else the `count - thr` first
/// agents of the energy-ascending cull order.
pub open spec fn marked_idxs(keys: Seq<int>, ps: Seq<Position>, p: Position, thr: int) -> Seq<
    usize,
> {
    let g = group_of(ps, p);
    if g.len() > thr {
        cull_order(keys, g).take(g.len() - thr)
    } else {
        Seq::empty()
    }
}

/// Overcrowding marks exactly the weakest: a marked agent never has more
/// energy than an unmarked agent on the same tile.
pub proof fn lemma_cull_marks_weakest(keys: Seq<int>, ps: Seq<Position>, p: Position, thr: int, i: int, j: int)
    requires
        ps.len() <= usize::MAX,
        ps.len() == keys.len(),
        0 <= i < ps.len(),
        0 <= j < ps.len(),
        ps[i] == p,
        ps[j] == p,
        thr >= 0,
        marked_idxs(keys, ps, p, thr).contains(i as usize),
        !marked_idxs(keys, ps, p, thr).contains(j as usize),
    ensures
        keys[i] <= keys[j],
{
    let g = group_of(ps, p);
    lemma_group_upto(ps, p, ps.len() as int);
    lemma_cull_order(keys, g);
    let ord = cull_order(keys, g);
    let k = g.len() - thr;
    assert(g.len() > thr);
    let a = choose|a: int| 0 <= a < k && ord.take(k)[a] == i as usize;
    assert(ord[a] == i as usize);
    assert(g.contains(j as usize));
    assert(g.to_multiset().count(j as usize) > 0) by {
        broadcast use vstd::seq_lib::group_to_multiset_ensures;

    }
    assert(ord.to_multiset().count(j as usize) > 0);
    assert(ord.contains(j as usize)) by {
        broadcast use vstd::seq_lib::group_to_multiset_ensures;

    }
    let b = choose|b: int| 0 <= b < ord.len() && ord[b] == j as usize;
    assert(b >= k) by {
        if b < k {
            assert(ord.take(k)[b] == j as usize);
        }
    }
    assert(keys[ord[a] as int] <= keys[ord[b] as int]);
}

/// Compute the overcrowding marks for agents standing at `positions`
/// with cull keys `keys` (energies) and per-tile threshold `thr`: entry
/// `i` is set exactly when agent `i` is among the `count - thr`
/// lowest-key agents of an overfull tile.
#[verifier::loop_isolation(false)]
#[verifier::rlimit(100)]
fn cull_marks(positions: &Vec<Position>, keys: &Vec<i64>, thr: usize) -> (marks: Vec<bool>)
    requires
        positions@.len() == keys@.len(),
    ensures
        marks@.len() == positions@.len(),
        forall|i: int|
            0 <= i < positions@.len() ==> (marks@[i] <==> marked_idxs(
                keys@.map_values(|k: i64| k as int),
                positions@,
                positions@[i],
                thr as int,
            ).contains(i as usize)),
{
    let ghost ps = positions@;
    let ghost kv = keys@.map_values(|k: i64| k as int);
    let n = positions.len();
    let mut marks: Vec<bool> = Vec::new();
    let mut j: usize = 0;
    while j < n
        invariant
            0 <= j <= n,
            marks@.len() == j,
            forall|i: int| 0 <= i < j ==> !(#[trigger] marks@[i]),
        decreases n - j,
    {
        marks.push(false);
        j = j + 1;
    }
    let mut i: usize = 0;
    while i < n
        invariant
            0 <= i <= n,
            marks@.len() == n,
            ps.len() == n,
            kv.len() == n,
            forall|k: int|
                0 <= k < n && pos_occ(ps, ps[k], i as int) ==> (#[trigger] marks@[k]
                    <==> marked_idxs(kv, ps, ps[k], thr as int).contains(k as usize)),
            forall|k: int| 0 <= k < n && !pos_occ(ps, ps[k], i as int) ==> !(#[trigger] marks@[k]),
        decreases n - i,
    {
        let p = positions[i];
        let mut isfirst = true;
        let mut j2: usize = 0;
        while j2 < i
            invariant
                0 <= j2 <= i <= n,
                ps.len() == n,
                isfirst <==> !pos_occ(ps, ps[i as int], j2 as int),
            decreases i - j2,
        {
            if positions[j2].x == p.x && positions[j2].y == p.y {
                proof {
                    assert(ps[j2 as int] == ps[i as int]);
                    assert(pos_occ(ps, ps[i as int], (j2 + 1) as int));
                }
                isfirst = false;
            }
            proof {
                if !isfirst && pos_occ(ps, ps[i as int], j2 as int) {
                    assert(pos_occ(ps, ps[i as int], (j2 + 1) as int));
                }
                if pos_occ(ps, ps[i as int], (j2 + 1) as int) && !pos_occ(
                    ps,
                    ps[i as int],
                    j2 as int,
                ) {
                    let k = choose|k: int| 0 <= k < j2 + 1 && ps[k] == ps[i as int];
                    assert(k == j2);
                }
            }
            j2 = j2 + 1;
        }
        if isfirst {
            mark_tile_group(positions, keys, thr, &mut marks, i, Ghost(ps), Ghost(kv));
        }
        proof {
            assert forall|q: Position|
                pos_occ(ps, q, (i + 1) as int) && !pos_occ(ps, q, i as int) implies q
                == ps[i as int] by {
                let k = choose|k: int| 0 <= k < i + 1 && ps[k] == q;
                assert(k == i);
            }
            if !isfirst {
                assert(pos_occ(ps, ps[i as int], i as int));
            } else {
                assert(pos_occ(ps, ps[i as int], (i + 1) as int));
            }
        }
        i = i + 1;
    }
    proof {
        assert forall|k: int| 0 <= k < n implies pos_occ(ps, ps[k], n as int) by {
            assert(ps[k] == ps[k]);
        }
    }
    marks
}

/// Mark the excess lowest-energy agents on the tile of agent `i`, which
/// must be the first agent at its position. Used only by `cull_marks`.
#[verifier::loop_isolation(false)]
#[verifier::rlimit(100)]
fn mark_tile_group(
    positions: &Vec<Position>,
    keys: &Vec<i64>,
    thr: usize,
    marks: &mut Vec<bool>,
    i: usize,
    Ghost(ps): Ghost<Seq<Position>>,
    Ghost(kv): Ghost<Seq<int>>,
)
    requires
        positions@ == ps,
        kv == keys@.map_values(|k: i64| k as int),
        ps.len() == keys@.len(),
        i < ps.len(),
        old(marks)@.len() == ps.len(),
        !pos_occ(ps, ps[i as int], i as int),
        forall|k: int| 0 <= k < ps.len() && ps[k] == ps[i as int] ==> !(#[trigger] old(marks)@[k]),
    ensures
        final(marks)@.len() == ps.len(),
        forall|k: int|
            0 <= k < ps.len() && ps[k] == ps[i as int] ==> (#[trigger] final(marks)@[k]
                <==> marked_idxs(kv, ps, ps[i as int], thr as int).contains(k as usize)),
        forall|k: int|
            0 <= k < ps.len() && ps[k] != ps[i as int] ==> #[trigger] final(marks)@[k] == old(
                marks,
            )@[k],
{
    let ghost p_g = ps[i as int];
    let p = positions[i];
    let n = positions.len();

    // Collect the group standing at `p`.
    let mut g: Vec<usize> = Vec::new();
    let mut j: usize = 0;
    while j < n
        invariant
            0 <= j <= n,
            ps.len() == n,
            p == p_g,
            g@ == group_upto(ps, p_g, j as int),
        decreases n - j,
    {
        if positions[j].x == p.x && positions[j].y == p.y {
            g.push(j);
        }
        j = j + 1;
    }
    proof {
        lemma_group_upto(ps, p_g, ps.len() as int);
    }
    let ghost gfull = group_of(ps, p_g);
    assert(g@ == gfull);
    proof {
        lemma_cull_order(kv, gfull);
    }
    let ghost ord_full = cull_order(kv, gfull);

    if g.len() <= thr {
        return ;
    }
    let k_rm = g.len() - thr;

    let mut grem = g;
    let mut r: usize = 0;
    while r < k_rm
        invariant
            marks@.len() == n,
            ps.len() == n,
            kv.len() == n,
            0 <= r <= k_rm,
            k_rm == gfull.len() - thr,
            gfull.len() > thr,
            r + grem@.len() == ord_full.len(),
            cull_order(kv, grem@) == ord_full.skip(r as int),
            grem@.no_duplicates(),
            forall|t: int| 0 <= t < grem@.len() ==> gfull.contains(#[trigger] grem@[t]),
            forall|k: int|
                0 <= k < n && ps[k] == p_g ==> (#[trigger] marks@[k] <==> ord_full.take(
                    r as int,
                ).contains(k as usize)),
            forall|k: int|
                0 <= k < n && ps[k] != p_g ==> #[trigger] marks@[k] == old(marks)@[k],
        decreases k_rm - r,
    {
        let ghost gkeys = Seq::new(grem@.len(), |t: int| kv[grem@[t] as int]);
        let m_len = grem.len();
        assert(m_len > 0);
        let mut best_t: usize = 0;
        let mut best_key: i64 = 0;
        let mut t: usize = 0;
        while t < m_len
            invariant
                0 <= t <= m_len,
                m_len == grem@.len(),
                m_len > 0,
                ps.len() == n,
                kv.len() == n,
                gkeys == Seq::new(grem@.len(), |tt: int| kv[grem@[tt] as int]),
                forall|tt: int| 0 <= tt < grem@.len() ==> gfull.contains(#[trigger] grem@[tt]),
                t == 0 ==> best_t == 0,
                t > 0 ==> 0 <= best_t < t && best_key == gkeys[best_t as int] && first_min_from(
                    gkeys,
                    t as int,
                    best_t as int,
                ) == first_min_idx(gkeys),
            decreases m_len - t,
        {
            let idx = grem[t];
            proof {
                assert(gfull.contains(grem@[t as int]));
                let tt = choose|tt: int| 0 <= tt < gfull.len() && gfull[tt] == grem@[t as int];
                assert(0 <= gfull[tt] < n);
            }
            let key = keys[idx];
            assert(key as int == gkeys[t as int]);
            if t == 0 {
                best_t = 0;
                best_key = key;
            } else if key < best_key {
                best_t = t;
                best_key = key;
            }
            t = t + 1;
        }
        assert(first_min_idx(gkeys) == best_t as int);
        let ghost grem_pre = grem@;
        let jj = grem.remove(best_t);
        proof {
            assert(cull_order(kv, grem_pre) == seq![jj] + cull_order(kv, grem@));
            assert(ord_full.skip(r as int)[0] == ord_full[r as int]);
            assert(ord_full[r as int] == jj);
            assert(cull_order(kv, grem@) =~= ord_full.skip(r as int).drop_first());
            assert(ord_full.skip(r as int).drop_first() =~= ord_full.skip(r + 1));
            lemma_remove_keeps(grem_pre, best_t as int);
            assert(gfull.contains(jj));
            let tt = choose|tt: int| 0 <= tt < gfull.len() && gfull[tt] == jj;
            assert(0 <= jj < n && ps[jj as int] == p_g);
        }
        marks[jj] = true;
        proof {
            assert(ord_full.take(r + 1) =~= ord_full.take(r as int).push(jj));
            assert forall|k: int|
                0 <= k < n && ps[k] == p_g implies (#[trigger] marks@[k] <==> ord_full.take(
                r + 1,
            ).contains(k as usize)) by {
                if k == jj {
                    assert(ord_full.take(r + 1)[r as int] == jj);
                } else {
                    if ord_full.take(r + 1).contains(k as usize) {
                        let u = choose|u: int|
                            0 <= u < r + 1 && #[trigger] ord_full.take(r + 1)[u] == k as usize;
                        assert(u < r);
                        assert(ord_full.take(r as int)[u] == k as usize);
                    }
                    if ord_full.take(r as int).contains(k as usize) {
                        let u = choose|u: int|
                            0 <= u < r && #[trigger] ord_full.take(r as int)[u] == k as usize;
                        assert(ord_full.take(r + 1)[u] == k as usize);
                    }
                }
            }
        }
        r = r + 1;
    }
    proof {
        assert(marked_idxs(kv, ps, p_g, thr as int) == ord_full.take(k_rm as int));
    }
}

/// One organism after the overcrowding stage.
pub open spec fn culled_org(
    s: Seq<OrganismWithPosition>,
    thr: int,
    i: int,
) -> OrganismWithPosition {
    if marked_idxs(
        s.map_values(|a: OrganismWithPosition| a.organism.energy as int),
        positions_of(s),
        s[i].position,
        thr,
    ).contains(i as usize) {
        OrganismWithPosition {
            organism: Organism { energy: (-SCALE) as i64, ..s[i].organism },
            position: s[i].position,
        }
    } else {
        s[i]
    }
}

/// One predator after the overcrowding stage.
pub open spec fn culled_pred(
    s: Seq<PredatorWithPosition>,
    thr: int,
    i: int,
) -> PredatorWithPosition {
    if marked_idxs(
        s.map_values(|a: PredatorWithPosition| a.predator.energy as int),
        s.map_values(|a: PredatorWithPosition| a.position),
        s[i].position,
        thr,
    ).contains(i as usize) {
        PredatorWithPosition {
            predator: Predator { energy: (-SCALE) as i64, ..s[i].predator },
            position: s[i].position,
        }
    } else {
        s[i]
    }
}

/// Overcrowding favours the already weak: an organism marked dead by the
/// overcrowding stage never had more energy than any organism on the
/// same tile that was spared.
pub proof fn lemma_overcrowding_culls_weakest(
    s: Seq<OrganismWithPosition>,
    thr: int,
    i: int,
    j: int,
)
    requires
        s.len() <= usize::MAX,
        0 <= i < s.len(),
        0 <= j < s.len(),
        thr >= 0,
        s[i].position == s[j].position,
        culled_pos_marked(s, thr, i),
        !culled_pos_marked(s, thr, j),
    ensures
        s[i].organism.energy <= s[j].organism.energy,
{
    let keys = s.map_values(|a: OrganismWithPosition| a.organism.energy as int);
    let ps = positions_of(s);
    lemma_cull_marks_weakest(keys, ps, ps[i], thr, i, j);
}

/// Agent `i` is marked by the overcrowding stage.
pub open spec fn culled_pos_marked(s: Seq<OrganismWithPosition>, thr: int, i: int) -> bool {
    marked_idxs(
        s.map_values(|a: OrganismWithPosition| a.organism.energy as int),
        positions_of(s),
        s[i].position,
        thr,
    ).contains(i as usize)
}

/// Overcrowding culling, per tile and per species independently: where
/// more than the threshold stand on one tile, the lowest-energy excess
/// agents have their energy forced to -1 whole unit; they are removed
/// at the next despawn pass.
#[verifier::loop_isolation(false)]
pub fn overcrowding(
    orgs: &mut Vec<OrganismWithPosition>,
    preds: &mut Vec<PredatorWithPosition>,
    config: &Config,
)
    ensures
        final(orgs)@.len() == old(orgs)@.len(),
        final(preds)@.len() == old(preds)@.len(),
        forall|i: int|
            0 <= i < old(orgs)@.len() ==> #[trigger] final(orgs)@[i] == culled_org(
                old(orgs)@,
                config.overcrowding_threshold_for_organisms as int,
                i,
            ),
        forall|i: int|
            0 <= i < old(preds)@.len() ==> #[trigger] final(preds)@[i] == culled_pred(
                old(preds)@,
                config.overcrowding_threshold_for_predators as int,
                i,
            ),
{
    let ghost oorgs = orgs@;
    let ghost opreds = preds@;

    let n = orgs.len();
    let mut ops: Vec<Position> = Vec::new();
    let mut oks: Vec<i64> = Vec::new();
    let mut j: usize = 0;
    while j < n
        invariant
            0 <= j <= n,
            orgs@ == oorgs,
            ops@.len() == j,
            oks@.len() == j,
            forall|k: int| 0 <= k < j ==> #[trigger] ops@[k] == oorgs[k].position,
            forall|k: int| 0 <= k < j ==> #[trigger] oks@[k] == oorgs[k].organism.energy,
        decreases n - j,
    {
        let a = orgs[j];
        ops.push(a.position);
        oks.push(a.organism.energy);
        j = j + 1;
    }
    proof {
        assert(ops@ =~= positions_of(oorgs));
        assert(oks@.map_values(|k: i64| k as int) =~= oorgs.map_values(
            |a: OrganismWithPosition| a.organism.energy as int,
        ));
    }
    let marks = cull_marks(&ops, &oks, config.overcrowding_threshold_for_organisms);
    let mut i: usize = 0;
    while i < n
        invariant
            0 <= i <= n,
            orgs@.len() == n,
            marks@.len() == n,
            oorgs.len() == n,
            forall|k: int|
                0 <= k < n ==> (#[trigger] marks@[k] <==> marked_idxs(
                    oorgs.map_values(|a: OrganismWithPosition| a.organism.energy as int),
                    positions_of(oorgs),
                    oorgs[k].position,
                    config.overcrowding_threshold_for_organisms as int,
                ).contains(k as usize)),
            forall|k: int|
                0 <= k < i ==> #[trigger] orgs@[k] == culled_org(
                    oorgs,
                    config.overcrowding_threshold_for_organisms as int,
                    k,
                ),
            forall|k: int| i <= k < n ==> #[trigger] orgs@[k] == oorgs[k],
        decreases n - i,
    {
        if marks[i] {
            let a = orgs[i];
            orgs[i] = OrganismWithPosition {
                organism: Organism { energy: -SCALE, ..a.organism },
                position: a.position,
            };
        }
        i = i + 1;
    }

    let np = preds.len();
    let mut pps: Vec<Position> = Vec::new();
    let mut pks: Vec<i64> = Vec::new();
    let mut j2: usize = 0;
    while j2 < np
        invariant
            0 <= j2 <= np,
            preds@ == opreds,
            pps@.len() == j2,
            pks@.len() == j2,
            forall|k: int| 0 <= k < j2 ==> #[trigger] pps@[k] == opreds[k].position,
            forall|k: int| 0 <= k < j2 ==> #[trigger] pks@[k] == opreds[k].predator.energy,
        decreases np - j2,
    {
        let a = preds[j2];
        pps.push(a.position);
        pks.push(a.predator.energy);
        j2 = j2 + 1;
    }
    proof {
        assert(pps@ =~= opreds.map_values(|a: PredatorWithPosition| a.position));
        assert(pks@.map_values(|k: i64| k as int) =~= opreds.map_values(
            |a: PredatorWithPosition| a.predator.energy as int,
        ));
    }
    let pmarks = cull_marks(&pps, &pks, config.overcrowding_threshold_for_predators);
    let mut i2: usize = 0;
    while i2 < np
        invariant
            0 <= i2 <= np,
            preds@.len() == np,
            pmarks@.len() == np,
            opreds.len() == np,
            forall|k: int|
                0 <= k < np ==> (#[trigger] pmarks@[k] <==> marked_idxs(
                    opreds.map_values(|a: PredatorWithPosition| a.predator.energy as int),
                    opreds.map_values(|a: PredatorWithPosition| a.position),
                    opreds[k].position,
                    config.overcrowding_threshold_for_predators as int,
                ).contains(k as usize)),
            forall|k: int|
                0 <= k < i2 ==> #[trigger] preds@[k] == culled_pred(
                    opreds,
                    config.overcrowding_threshold_for_predators as int,
                    k,
                ),
            forall|k: int| i2 <= k < np ==> #[trigger] preds@[k] == opreds[k],
        decreases np - i2,
    {
        if pmarks[i2] {
            let a = preds[i2];
            preds[i2] = PredatorWithPosition {
                predator: Predator { energy: -SCALE, ..a.predator },
                position: a.position,
            };
        }
        i2 = i2 + 1;
    }
}

/// The agent handles 0, 1, ..., n-1, organisms first, then predators.
pub open spec fn handle_pool(n: int) -> Seq<usize> {
    Seq::new(n as nat, |i: int| i as usize)
}

/// The order in which the handles of `pool` leave the random shuffle
/// driven by the stream at position `idx`: each draw removes the handle
/// at a uniformly drawn position of what remains.
pub open spec fn shuffled_handles(pool: Seq<usize>, seed: u64, idx: nat) -> Seq<usize>
    decreases pool.len(),
{
    if pool.len() == 0 {
        Seq::empty()
    } else {
        let t = crate::rng::draw_below(seed, idx, pool.len() as u64) as int;
        if 0 <= t < pool.len() {
            seq![pool[t]] + shuffled_handles(pool.remove(t), seed, idx + 1)
        } else {
            Seq::empty()
        }
    }
}

/// The despawn flags of cap enforcement: handle `u` is marked exactly
/// when it is among the first `k` handles of the shuffled order, so the
/// culled set is a function of the stream position alone.
pub open spec fn cull_flags(n: int, k: int, seed: u64, idx: nat) -> Seq<bool> {
    Seq::new(
        n as nat,
        |u: int| shuffled_handles(handle_pool(n), seed, idx).take(k).contains(u as usize),
    )
}

/// Hard population-cap enforcement: when the number of living agents
/// exceeds the configured maximum, shuffle all agent handles and
/// despawn the excess from the front of the shuffled order, an
/// unbiased random cull that leaves exactly the maximum present. The
/// culled set is `cull_flags` of the stream position, so runs stay
/// reproducible from the seed; when the living population fits under
/// the cap nothing is despawned.
#[verifier::loop_isolation(false)]
#[verifier::rlimit(100)]
pub fn kill_over_limit_organisms(
    orgs: &mut Vec<OrganismWithPosition>,
    preds: &mut Vec<PredatorWithPosition>,
    config: &Config,
    rng: &mut SimRng,
)
    requires
        old(orgs)@.len() + old(preds)@.len() <= 100_000_000,
    ensures
        final(orgs)@.len() + final(preds)@.len() <= config.max_total_entities
            || final(orgs)@.len() + final(preds)@.len() == old(orgs)@.len() + old(preds)@.len(),
        living(final(orgs)@).len() + pred_living(final(preds)@).len()
            <= config.max_total_entities,
        living(old(orgs)@).len() + pred_living(old(preds)@).len() <= config.max_total_entities
            ==> final(orgs)@ == old(orgs)@ && final(preds)@ == old(preds)@ && final(rng).seed()
            == old(rng).seed() && final(rng).idx() == old(rng).idx(),
        living(old(orgs)@).len() + pred_living(old(preds)@).len() > config.max_total_entities
            ==> final(orgs)@.len() + final(preds)@.len() == config.max_total_entities && ({
            let n = old(orgs)@.len() + old(preds)@.len();
            let f = cull_flags(
                n as int,
                n - config.max_total_entities,
                old(rng).seed(),
                old(rng).idx(),
            );
            final(orgs)@ == keep_unflagged(old(orgs)@, f.subrange(0, old(orgs)@.len() as int))
                && final(preds)@ == keep_unflagged(
                old(preds)@,
                f.subrange(old(orgs)@.len() as int, n as int),
            )
        }) && final(rng).idx() == old(rng).idx() + (old(orgs)@.len() + old(preds)@.len()),
        final(rng).seed() == old(rng).seed(),
        forall|i: int|
            0 <= i < final(orgs)@.len() ==> old(orgs)@.contains(#[trigger] final(orgs)@[i]),
        forall|i: int|
            0 <= i < final(preds)@.len() ==> old(preds)@.contains(#[trigger] final(preds)@[i]),
{
    broadcast use vstd::seq_lib::group_to_multiset_ensures;

    let n_org = orgs.len();
    let n_pred = preds.len();
    let total = n_org + n_pred;
    let living_total = count_living_organisms(orgs) + count_living_predators(preds);
    if living_total <= config.max_total_entities {
        proof {
            lemma_living(orgs@);
            lemma_pred_living(preds@);
        }
        return ;
    }
    assert(total > config.max_total_entities);
    let k = total - config.max_total_entities;

    // All agent handles: organisms first, then predators.
    let mut pool: Vec<usize> = Vec::new();
    let mut j: usize = 0;
    while j < total
        invariant
            0 <= j <= total,
            pool@.len() == j,
            forall|t: int| 0 <= t < j ==> #[trigger] pool@[t] == t as usize,
        decreases total - j,
    {
        pool.push(j);
        j = j + 1;
    }
    let ghost init = pool@;
    proof {
        assert(init.no_duplicates());
        init.lemma_multiset_has_no_duplicates();
    }

    // Shuffle by repeatedly drawing one remaining handle at random; the
    // resulting order is exactly `shuffled_handles` of the stream.
    let mut shuffled: Vec<usize> = Vec::new();
    proof {
        assert(Seq::<usize>::empty() + shuffled_handles(init, old(rng).seed(), old(rng).idx())
            =~= shuffled_handles(init, old(rng).seed(), old(rng).idx()));
    }
    while pool.len() > 0
        invariant
            shuffled@.len() + pool@.len() == total,
            shuffled@.to_multiset().add(pool@.to_multiset()) == init.to_multiset(),
            shuffled@ + shuffled_handles(pool@, old(rng).seed(), rng.idx()) == shuffled_handles(
                init,
                old(rng).seed(),
                old(rng).idx(),
            ),
            forall|t: int| 0 <= t < shuffled@.len() ==> #[trigger] shuffled@[t] < total,
            forall|t: int| 0 <= t < pool@.len() ==> #[trigger] pool@[t] < total,
            rng.seed() == old(rng).seed(),
            rng.idx() == old(rng).idx() + (total - pool@.len()),
            orgs@ == old(orgs)@,
            preds@ == old(preds)@,
        decreases pool@.len(),
    {
        let ghost idx_pre = rng.idx();
        let t = rng.below(pool.len() as u64) as usize;
        let ghost pool_pre = pool@;
        let ghost sh_pre = shuffled@;
        let h = pool.remove(t);
        shuffled.push(h);
        proof {
            assert(pool@ == pool_pre.remove(t as int));
            assert(pool_pre.remove(t as int).to_multiset() =~= pool_pre.to_multiset().remove(h));
            assert(shuffled@.to_multiset() =~= sh_pre.to_multiset().insert(h));
            assert(pool_pre.to_multiset().count(h) >= 1) by {
                assert(pool_pre.contains(h));
            }
            assert(shuffled@.to_multiset().add(pool@.to_multiset()) =~= sh_pre.to_multiset().add(
                pool_pre.to_multiset(),
            ));
            assert(shuffled_handles(pool_pre, old(rng).seed(), idx_pre) == seq![h]
                + shuffled_handles(pool@, old(rng).seed(), idx_pre + 1));
            assert(shuffled@ =~= sh_pre.push(h));
            assert(sh_pre.push(h) + shuffled_handles(pool@, old(rng).seed(), idx_pre + 1) =~= sh_pre
                + (seq![h] + shuffled_handles(pool@, old(rng).seed(), idx_pre + 1)));
            assert forall|t2: int| 0 <= t2 < pool@.len() implies #[trigger] pool@[t2] < total by {
                if t2 < t {
                    assert(pool@[t2] == pool_pre[t2]);
                } else {
                    assert(pool@[t2] == pool_pre[t2 + 1]);
                }
            }
        }
    }
    assert(shuffled@.to_multiset() =~= init.to_multiset()) by {
        assert(pool@.len() == 0);
        assert(pool@.to_multiset() =~= Multiset::empty());
        assert(shuffled@.to_multiset().add(Multiset::empty()) =~= shuffled@.to_multiset());
    }
    proof {
        assert(forall|x: usize|
            shuffled@.to_multiset().contains(x) ==> shuffled@.to_multiset().count(x) == 1);
        shuffled@.lemma_multiset_has_no_duplicates_conv();
        assert(shuffled@ + shuffled_handles(pool@, old(rng).seed(), rng.idx()) =~= shuffled@);
        assert(shuffled@ == shuffled_handles(init, old(rng).seed(), old(rng).idx()));
        assert(init =~= handle_pool(total as int));
    }

    // Mark the first `k` handles of the shuffled order for despawn.
    let mut flags: Vec<bool> = Vec::new();
    let mut j3: usize = 0;
    while j3 < total
        invariant
            0 <= j3 <= total,
            flags@.len() == j3,
            forall|t: int| 0 <= t < j3 ==> !(#[trigger] flags@[t]),
        decreases total - j3,
    {
        flags.push(false);
        j3 = j3 + 1;
    }
    proof {
        lemma_count_true_zero(flags@);
    }
    let mut t: usize = 0;
    while t < k
        invariant
            0 <= t <= k,
            k <= total,
            flags@.len() == total,
            shuffled@.len() == total,
            shuffled@.no_duplicates(),
            forall|u: int| 0 <= u < shuffled@.len() ==> #[trigger] shuffled@[u] < total,
            count_true(flags@) == t,
            forall|u: int|
                0 <= u < total ==> (#[trigger] flags@[u] <==> shuffled@.take(t as int).contains(
                    u as usize,
                )),
            orgs@ == old(orgs)@,
            preds@ == old(preds)@,
        decreases k - t,
    {
        let h = shuffled[t];
        proof {
            assert(!flags@[h as int]) by {
                if shuffled@.take(t as int).contains(h) {
                    let u = choose|u: int| 0 <= u < t && shuffled@.take(t as int)[u] == h;
                    assert(shuffled@[u] == shuffled@[t as int]);
                }
            }
            lemma_count_true_set(flags@, h as int);
        }
        let ghost flags_pre = flags@;
        flags[h] = true;
        proof {
            assert forall|u: int|
                0 <= u < total implies (#[trigger] flags@[u] <==> shuffled@.take(t + 1).contains(
                u as usize,
            )) by {
                assert(shuffled@.take(t + 1) =~= shuffled@.take(t as int).push(shuffled@[t as int]));
                if u == h as int {
                    assert(shuffled@.take(t + 1)[t as int] == h);
                } else {
                    assert(flags@[u] == flags_pre[u]);
                    if shuffled@.take(t + 1).contains(u as usize) {
                        let w = choose|w: int|
                            0 <= w < t + 1 && #[trigger] shuffled@.take(t + 1)[w] == u as usize;
                        assert(w < t);
                        assert(shuffled@.take(t as int)[w] == u as usize);
                    }
                    if shuffled@.take(t as int).contains(u as usize) {
                        let w = choose|w: int|
                            0 <= w < t && #[trigger] shuffled@.take(t as int)[w] == u as usize;
                        assert(shuffled@.take(t + 1)[w] == u as usize);
                    }
                }
            }
        }
        t = t + 1;
    }

    // Rebuild both lists, keeping the unflagged agents.
    proof {
        assert(flags@ =~= cull_flags(
            total as int,
            k as int,
            old(rng).seed(),
            old(rng).idx(),
        ));
    }
    let ghost f = flags@;
    let mut new_orgs: Vec<OrganismWithPosition> = Vec::new();
    let mut j4: usize = 0;
    while j4 < n_org
        invariant
            0 <= j4 <= n_org,
            orgs@ == old(orgs)@,
            flags@ == f,
            f.len() == total,
            n_org == old(orgs)@.len(),
            new_orgs@ == keep_unflagged(old(orgs)@.take(j4 as int), f.subrange(0, j4 as int)),
        decreases n_org - j4,
    {
        proof {
            assert(old(orgs)@.take(j4 + 1).drop_last() =~= old(orgs)@.take(j4 as int));
            assert(f.subrange(0, j4 + 1).drop_last() =~= f.subrange(0, j4 as int));
            assert(old(orgs)@.take(j4 + 1).last() == old(orgs)@[j4 as int]);
        }
        if !flags[j4] {
            new_orgs.push(orgs[j4]);
        }
        j4 = j4 + 1;
    }
    assert(old(orgs)@.take(n_org as int) =~= old(orgs)@);

    let mut new_preds: Vec<PredatorWithPosition> = Vec::new();
    let mut j5: usize = 0;
    while j5 < n_pred
        invariant
            0 <= j5 <= n_pred,
            preds@ == old(preds)@,
            flags@ == f,
            f.len() == total,
            n_pred == old(preds)@.len(),
            new_preds@ == keep_unflagged(
                old(preds)@.take(j5 as int),
                f.subrange(n_org as int, n_org + j5 as int),
            ),
        decreases n_pred - j5,
    {
        proof {
            assert(old(preds)@.take(j5 + 1).drop_last() =~= old(preds)@.take(j5 as int));
            assert(f.subrange(n_org as int, n_org + j5 + 1).drop_last() =~= f.subrange(
                n_org as int,
                n_org + j5 as int,
            ));
            assert(old(preds)@.take(j5 + 1).last() == old(preds)@[j5 as int]);
            assert(f.subrange(n_org as int, n_org + j5 + 1).last() == f[n_org + j5 as int]);
        }
        if !flags[n_org + j5] {
            new_preds.push(preds[j5]);
        }
        j5 = j5 + 1;
    }
    assert(old(preds)@.take(n_pred as int) =~= old(preds)@);

    let ghost f_org = f.subrange(0, n_org as int);
    let ghost f_pred = f.subrange(n_org as int, total as int);
    proof {
        assert(f =~= f_org + f_pred);
        lemma_count_true_add(f_org, f_pred);
        lemma_keep_unflagged_len(old(orgs)@, f_org);
        lemma_keep_unflagged_len(old(preds)@, f_pred);
        lemma_count_true_bounds(f_org);
        lemma_count_true_bounds(f_pred);
        assert forall|i: int|
            0 <= i < new_orgs@.len() implies old(orgs)@.contains(#[trigger] new_orgs@[i]) by {
            lemma_keep_unflagged_contains(old(orgs)@, f_org, i);
        }
        assert forall|i: int|
            0 <= i < new_preds@.len() implies old(preds)@.contains(#[trigger] new_preds@[i]) by {
            lemma_keep_unflagged_contains(old(preds)@, f_pred, i);
        }
        lemma_living(new_orgs@);
        lemma_pred_living(new_preds@);
    }
    *orgs = new_orgs;
    *preds = new_preds;
}

proof fn lemma_count_true_zero(s: Seq<bool>)
    requires
        forall|t: int| 0 <= t < s.len() ==> !(#[trigger] s[t]),
    ensures
        count_true(s) == 0,
    decreases s.len(),
{
    if s.len() > 0 {
        lemma_count_true_zero(s.drop_last());
    }
}

} // verus!
