//! Biome adaptation: a passive per-tick energy delta from the tile an
//! organism stands on, scaled by its tolerance for that biome. Forest
//! and grassland grant tolerance-scaled gains, desert applies a
//! tolerance-inverse penalty, water is lethal.

use vstd::prelude::*;

use crate::agents::{Organism, OrganismWithPosition};
use crate::biome::Biome;
use crate::world::{tile_at, World};
use crate::{clamp_e, clamp_energy, ENERGY_MAX};

verus! {

/// One organism after biome adaptation on biome `b`: forest adds a
/// tenth of the tolerance, grassland a twentieth, desert subtracts the
/// inverse-tolerance penalty, and water forces the energy to the lowest
/// representable value, which kills the organism at the next despawn.
pub open spec fn adapt_org(o: Organism, b: Biome) -> Organism {
    let tol = o.biome_tolerance.spec_get(b) as int;
    let e = match b {
        Biome::Forest => clamp_e(o.energy + tol / 10),
        Biome::Desert => clamp_e(o.energy - 100_000int / tol),
        Biome::Water => -ENERGY_MAX as int,
        Biome::Grassland => clamp_e(o.energy + tol / 20),
    };
    Organism { energy: e as i64, ..o }
}

/// Apply the biome adaptation delta to every organism.
#[verifier::loop_isolation(false)]
pub fn biome_adaptation(agents: &mut Vec<OrganismWithPosition>, world: &World)
    requires
        world.wf(),
        forall|i: int|
            0 <= i < old(agents)@.len() ==> (#[trigger] old(agents)@[i]).wf(
                world.width as int,
                world.height as int,
            ),
    ensures
        final(agents)@.len() == old(agents)@.len(),
        forall|i: int|
            0 <= i < old(agents)@.len() ==> #[trigger] final(agents)@[i]
                == (OrganismWithPosition {
                organism: adapt_org(
                    old(agents)@[i].organism,
                    tile_at(*world, old(agents)@[i].position).biome,
                ),
                position: old(agents)@[i].position,
            }),
        forall|i: int|
            0 <= i < final(agents)@.len() ==> (#[trigger] final(agents)@[i]).wf(
                world.width as int,
                world.height as int,
            ),
        forall|i: int|
            0 <= i < final(agents)@.len() && tile_at(*world, final(agents)@[i].position).biome
                == Biome::Water ==> final(agents)@[i].organism.energy < 0,
{
    let ghost olds = agents@;
    let n = agents.len();
    let mut j: usize = 0;
    while j < n
        invariant
            0 <= j <= n,
            agents@.len() == n,
            forall|i: int|
                0 <= i < j ==> #[trigger] agents@[i] == (OrganismWithPosition {
                    organism: adapt_org(olds[i].organism, tile_at(*world, olds[i].position).biome),
                    position: olds[i].position,
                }),
            forall|i: int| j <= i < n ==> #[trigger] agents@[i] == olds[i],
        decreases n - j,
    {
        let a = agents[j];
        let tile = world.grid[a.position.y][a.position.x];
        let tol = a.organism.biome_tolerance.get(tile.biome);
        let e: i64 = match tile.biome {
            Biome::Forest => clamp_energy(a.organism.energy + tol / 10),
            Biome::Desert => clamp_energy(a.organism.energy - 100_000 / tol),
            Biome::Water => -ENERGY_MAX,
            Biome::Grassland => clamp_energy(a.organism.energy + tol / 20),
        };
        let na = OrganismWithPosition {
            organism: Organism { energy: e, ..a.organism },
            position: a.position,
        };
        agents[j] = na;
        j = j + 1;
    }
}

} // verus!
