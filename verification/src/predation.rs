//! Predation: each living predator below its satiation threshold eats
//! the first living organism standing on its own cell, gaining energy
//! proportional to the prey's size, capped at the configured maximum.
//! The prey is removed at once, so no two predators eat the same
//! organism; at most one kill per predator per tick. Dead agents that
//! the cleanup pass has not yet removed neither hunt nor count as prey.

use vstd::prelude::*;

use crate::agents::{OrganismWithPosition, Predator, PredatorWithPosition};
use crate::config::Config;
use crate::Position;

verus! {

/// The first living organism among the first `n` that stands at `p`.
pub open spec fn hunt_prey_upto(orgs: Seq<OrganismWithPosition>, p: Position, n: int) -> Option<
    usize,
>
    decreases n,
{
    if n <= 0 {
        None
    } else {
        match hunt_prey_upto(orgs, p, n - 1) {
            Some(j) => Some(j),
            None => if orgs[n - 1].position == p && orgs[n - 1].organism.energy > 0 {
                Some((n - 1) as usize)
            } else {
                None
            },
        }
    }
}

/// The first living organism co-located with `p`, if any.
pub open spec fn hunt_prey(orgs: Seq<OrganismWithPosition>, p: Position) -> Option<usize> {
    hunt_prey_upto(orgs, p, orgs.len() as int)
}

/// What the prey scan finds: the first index holding a living organism
/// at `p`, or nothing when no such organism exists among the first `n`.
proof fn lemma_hunt_prey_upto(orgs: Seq<OrganismWithPosition>, p: Position, n: int)
    requires
        0 <= n <= orgs.len(),
        orgs.len() <= usize::MAX,
    ensures
        hunt_prey_upto(orgs, p, n) is Some ==> {
            let j = hunt_prey_upto(orgs, p, n)->Some_0;
            &&& 0 <= j < n
            &&& orgs[j as int].position == p
            &&& orgs[j as int].organism.energy > 0
            &&& forall|k: int|
                0 <= k < j ==> !((#[trigger] orgs[k]).position == p && orgs[k].organism.energy
                    > 0)
        },
        hunt_prey_upto(orgs, p, n) is None ==> forall|k: int|
            0 <= k < n ==> !((#[trigger] orgs[k]).position == p && orgs[k].organism.energy > 0),
    decreases n,
{
    if n > 0 {
        lemma_hunt_prey_upto(orgs, p, n - 1);
    }
}

/// One predator's turn: if it is alive and hungry (energy below
/// satiation) and a living organism shares its cell, the first such
/// organism is eaten: the predator gains `prey.size *
/// hunting_efficiency`, capped at `max_e`, and the prey is removed from
/// the list.
pub open spec fn hunt_step(
    pr: Predator,
    orgs: Seq<OrganismWithPosition>,
    p: Position,
    max_e: i64,
) -> (Predator, Seq<OrganismWithPosition>) {
    if pr.energy <= 0 || pr.energy >= pr.satiation_threshold {
        (pr, orgs)
    } else {
        match hunt_prey(orgs, p) {
            Some(j) => {
                let gain = orgs[j as int].organism.size * pr.hunting_efficiency / 1000;
                let e = if pr.energy + gain <= max_e {
                    pr.energy + gain
                } else {
                    max_e as int
                };
                (Predator { energy: e as i64, ..pr }, orgs.remove(j as int))
            },
            None => (pr, orgs),
        }
    }
}

/// The predator list and organism list after the first `i` predators
/// have taken their turn, in list order.
pub open spec fn hunt_upto(
    preds: Seq<PredatorWithPosition>,
    orgs: Seq<OrganismWithPosition>,
    max_e: i64,
    i: int,
) -> (Seq<PredatorWithPosition>, Seq<OrganismWithPosition>)
    decreases i,
{
    if i <= 0 {
        (preds, orgs)
    } else {
        let prev = hunt_upto(preds, orgs, max_e, i - 1);
        let st = hunt_step(preds[i - 1].predator, prev.1, preds[i - 1].position, max_e);
        (
            prev.0.update(i - 1, PredatorWithPosition { predator: st.0, position: preds[i - 1].position }),
            st.1,
        )
    }
}

pub proof fn lemma_hunt_upto_frame(
    preds: Seq<PredatorWithPosition>,
    orgs: Seq<OrganismWithPosition>,
    max_e: i64,
    i: int,
)
    requires
        0 <= i <= preds.len(),
    ensures
        hunt_upto(preds, orgs, max_e, i).0.len() == preds.len(),
        forall|k: int|
            i <= k < preds.len() ==> #[trigger] hunt_upto(preds, orgs, max_e, i).0[k] == preds[k],
    decreases i,
{
    if i > 0 {
        lemma_hunt_upto_frame(preds, orgs, max_e, i - 1);
    }
}

/// Every organism that survives the hunt was in the input list.
pub proof fn lemma_hunt_upto_orgs(
    preds: Seq<PredatorWithPosition>,
    orgs: Seq<OrganismWithPosition>,
    max_e: i64,
    i: int,
)
    requires
        0 <= i <= preds.len(),
        orgs.len() <= usize::MAX,
    ensures
        forall|k: int|
            0 <= k < hunt_upto(preds, orgs, max_e, i).1.len() ==> orgs.contains(
                #[trigger] hunt_upto(preds, orgs, max_e, i).1[k],
            ),
        hunt_upto(preds, orgs, max_e, i).1.len() <= orgs.len(),
    decreases i,
{
    if i > 0 {
        lemma_hunt_upto_orgs(preds, orgs, max_e, i - 1);
        lemma_hunt_upto_frame(preds, orgs, max_e, i - 1);
        let prev = hunt_upto(preds, orgs, max_e, i - 1);
        let pr = preds[i - 1].predator;
        let p = preds[i - 1].position;
        let st = hunt_step(pr, prev.1, p, max_e);
        assert forall|k: int| 0 <= k < st.1.len() implies orgs.contains(#[trigger] st.1[k]) by {
            if pr.energy > 0 && pr.energy < pr.satiation_threshold && hunt_prey(prev.1, p) is Some {
                let j = hunt_prey(prev.1, p)->Some_0;
                lemma_hunt_prey_upto(prev.1, p, prev.1.len() as int);
                assert(0 <= j < prev.1.len());
                assert(st.1 == prev.1.remove(j as int));
                if k < j {
                    assert(st.1[k] == prev.1[k]);
                    assert(prev.1.contains(prev.1[k]));
                } else {
                    assert(st.1[k] == prev.1[k + 1]);
                    assert(prev.1.contains(prev.1[k + 1]));
                }
                let e = st.1[k];
                let kk = choose|kk: int| 0 <= kk < prev.1.len() && prev.1[kk] == e;
                assert(orgs.contains(prev.1[kk]));
            } else {
                assert(st.1 == prev.1);
                assert(prev.1.contains(prev.1[k]));
                let e = st.1[k];
                let kk = choose|kk: int| 0 <= kk < prev.1.len() && prev.1[kk] == e;
                assert(orgs.contains(prev.1[kk]));
            }
        }
        if pr.energy > 0 && pr.energy < pr.satiation_threshold && hunt_prey(prev.1, p) is Some {
            let j = hunt_prey(prev.1, p)->Some_0;
            lemma_hunt_prey_upto(prev.1, p, prev.1.len() as int);
            assert(0 <= j < prev.1.len());
            assert(st.1.len() == prev.1.len() - 1);
        } else {
            assert(st.1 == prev.1);
        }
    }
}

/// Hunting never revives a predator: one alive afterwards was alive
/// before its turn.
pub proof fn lemma_hunt_upto_no_revive(
    preds: Seq<PredatorWithPosition>,
    orgs: Seq<OrganismWithPosition>,
    max_e: i64,
    i: int,
)
    requires
        0 <= i <= preds.len(),
    ensures
        forall|k: int|
            0 <= k < preds.len() && (#[trigger] hunt_upto(
                preds,
                orgs,
                max_e,
                i,
            ).0[k]).predator.energy > 0 ==> preds[k].predator.energy > 0,
    decreases i,
{
    if i > 0 {
        lemma_hunt_upto_no_revive(preds, orgs, max_e, i - 1);
        lemma_hunt_upto_frame(preds, orgs, max_e, i - 1);
    }
}

/// Hunting never increases the number of living organisms: it only
/// removes living prey.
pub proof fn lemma_hunt_upto_living(
    preds: Seq<PredatorWithPosition>,
    orgs: Seq<OrganismWithPosition>,
    max_e: i64,
    i: int,
)
    requires
        0 <= i <= preds.len(),
        orgs.len() <= usize::MAX,
    ensures
        crate::population::living(hunt_upto(preds, orgs, max_e, i).1).len()
            <= crate::population::living(orgs).len(),
    decreases i,
{
    if i > 0 {
        lemma_hunt_upto_living(preds, orgs, max_e, i - 1);
        lemma_hunt_upto_orgs(preds, orgs, max_e, i - 1);
        let prev = hunt_upto(preds, orgs, max_e, i - 1);
        let pr = preds[i - 1].predator;
        let p = preds[i - 1].position;
        let st = hunt_step(pr, prev.1, p, max_e);
        if pr.energy > 0 && pr.energy < pr.satiation_threshold && hunt_prey(prev.1, p) is Some {
            let j = hunt_prey(prev.1, p)->Some_0;
            lemma_hunt_prey_upto(prev.1, p, prev.1.len() as int);
            crate::population::lemma_living_remove(prev.1, j as int);
        } else {
            assert(st.1 == prev.1);
        }
    }
}

/// Run the predation stage: every living, hungry predator eats the
/// first living organism on its own cell, if any; each prey is removed
/// immediately.
#[verifier::loop_isolation(false)]
pub fn hunting(
    preds: &mut Vec<PredatorWithPosition>,
    orgs: &mut Vec<OrganismWithPosition>,
    config: &Config,
)
    requires
        config.wf(),
        forall|i: int| 0 <= i < old(preds)@.len() ==> (#[trigger] old(preds)@[i]).predator.wf(),
        forall|i: int| 0 <= i < old(orgs)@.len() ==> (#[trigger] old(orgs)@[i]).organism.wf(),
    ensures
        (final(preds)@, final(orgs)@) == hunt_upto(
            old(preds)@,
            old(orgs)@,
            config.max_predator_energy,
            old(preds)@.len() as int,
        ),
        final(preds)@.len() == old(preds)@.len(),
        final(orgs)@.len() <= old(orgs)@.len(),
        forall|i: int| 0 <= i < final(preds)@.len() ==> (#[trigger] final(preds)@[i]).predator.wf(),
        forall|i: int| 0 <= i < final(orgs)@.len() ==> old(orgs)@.contains(#[trigger] final(orgs)@[i]),
        forall|i: int|
            0 <= i < final(preds)@.len() ==> (#[trigger] final(preds)@[i]).position
                == old(preds)@[i].position,
{
    let ghost opreds = preds@;
    let ghost oorgs = orgs@;
    let m0 = orgs.len();
    assert(oorgs.len() == m0);
    let max_e = config.max_predator_energy;
    let n = preds.len();
    let mut i: usize = 0;
    while i < n
        invariant
            0 <= i <= n,
            preds@.len() == n,
            (preds@, orgs@) == hunt_upto(opreds, oorgs, max_e, i as int),
            forall|k: int| 0 <= k < n ==> (#[trigger] preds@[k]).predator.wf(),
            forall|k: int| 0 <= k < orgs@.len() ==> (#[trigger] orgs@[k]).organism.wf(),
            forall|k: int| 0 <= k < n ==> (#[trigger] preds@[k]).position == opreds[k].position,
        decreases n - i,
    {
        proof {
            lemma_hunt_upto_frame(opreds, oorgs, max_e, i as int);
        }
        let a = preds[i];
        assert(a == opreds[i as int]);
        if a.predator.energy > 0 && a.predator.energy < a.predator.satiation_threshold {
            let m = orgs.len();
            let mut t: usize = 0;
            let mut found = false;
            while t < m && !found
                invariant
                    0 <= t <= m,
                    m == orgs@.len(),
                    found ==> t < m && orgs@[t as int].position == a.position
                        && orgs@[t as int].organism.energy > 0,
                    forall|k: int|
                        0 <= k < t ==> !((#[trigger] orgs@[k]).position == a.position
                            && orgs@[k].organism.energy > 0),
                decreases m - t + (if found { 0int } else { 1int }),
            {
                if orgs[t].position.x == a.position.x && orgs[t].position.y == a.position.y
                    && orgs[t].organism.energy > 0 {
                    found = true;
                } else {
                    t = t + 1;
                }
            }
            proof {
                lemma_hunt_prey_upto(orgs@, a.position, orgs@.len() as int);
                if found {
                    assert(hunt_prey(orgs@, a.position) is Some) by {
                        if hunt_prey(orgs@, a.position) is None {
                            assert(!(orgs@[t as int].position == a.position
                                && orgs@[t as int].organism.energy > 0));
                        }
                    }
                    let j0 = hunt_prey(orgs@, a.position)->Some_0;
                    assert(t as int <= j0 as int) by {
                        if (j0 as int) < t as int {
                            assert(!(orgs@[j0 as int].position == a.position
                                && orgs@[j0 as int].organism.energy > 0));
                        }
                    }
                    assert(j0 as int <= t as int) by {
                        if (t as int) < j0 as int {
                            assert(!(orgs@[t as int].position == a.position
                                && orgs@[t as int].organism.energy > 0));
                        }
                    }
                    assert(hunt_prey(orgs@, a.position) == Some(t as usize));
                } else {
                    assert(hunt_prey(orgs@, a.position) is None) by {
                        if hunt_prey(orgs@, a.position) is Some {
                            let j0 = hunt_prey(orgs@, a.position)->Some_0;
                            assert(!(orgs@[j0 as int].position == a.position
                                && orgs@[j0 as int].organism.energy > 0));
                        }
                    }
                }
            }
            if found {
                let prey = orgs[t];
                proof {
                    assert(0 <= prey.organism.size * a.predator.hunting_efficiency
                        <= 1_000_000_000_000) by (nonlinear_arith)
                        requires
                            1 <= prey.organism.size <= 1_000_000,
                            0 <= a.predator.hunting_efficiency <= 1_000_000,
                    ;
                }
                let gain = prey.organism.size * a.predator.hunting_efficiency / 1000;
                let mut e = a.predator.energy + gain;
                if e > max_e {
                    e = max_e;
                }
                let na = PredatorWithPosition {
                    predator: Predator { energy: e, ..a.predator },
                    position: a.position,
                };
                preds[i] = na;
                let _ = orgs.remove(t);
            }
        }
        proof {
            let prev = hunt_upto(opreds, oorgs, max_e, i as int);
            let st = hunt_step(opreds[i as int].predator, prev.1, opreds[i as int].position, max_e);
            assert(hunt_upto(opreds, oorgs, max_e, i + 1) == (
                prev.0.update(
                    i as int,
                    PredatorWithPosition { predator: st.0, position: opreds[i as int].position },
                ),
                st.1,
            ));
            assert(preds@ =~= hunt_upto(opreds, oorgs, max_e, i + 1).0);
        }
        i = i + 1;
    }
    proof {
        lemma_hunt_upto_orgs(opreds, oorgs, max_e, n as int);
        lemma_hunt_upto_frame(opreds, oorgs, max_e, n as int);
    }
}

} // verus!
