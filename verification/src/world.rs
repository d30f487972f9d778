//! The tile grid: procedural generation from a seed by coherent-noise
//! biome classification plus uniform-random initial food, and per-tick
//! food regeneration. Generation is deterministic in (width, height,
//! seed); `lemma_generation_deterministic` states that law.

use vstd::prelude::*;

use crate::biome::Biome;
use crate::config::Config;
use crate::rng::{draw_below, SimRng};
use crate::{AREA_MAX, DIM_MAX, ENERGY_MAX, Position};

verus! {

/// The 2-d Perlin noise sample of the `noise` crate for seed `nseed` at
/// the point `(xq + xr/10, yq + yr/10)`, rounded to milli-units. The
/// sample is a pure function of the seed and the point, so it carries a
/// name. The library holds no floating point, so the point crosses the
/// boundary as whole tiles plus tenths and the sample comes back in
/// decimal milli-units.
pub uninterp spec fn noise_milli_of(nseed: u32, xq: int, xr: int, yq: int, yr: int) -> int;

/// Relies on the `noise` crate: `Perlin::new` builds a permutation table
/// that is a pure function of the seed, and `get` evaluates 2-d Perlin
/// noise at the point, a pure function of the table and the coordinates,
/// with the result clamped into [-1, 1] by its source (so its rounding
/// to milli-units lies in [-1000, 1000]). The bounds keep the point a
/// whole number of tenths well inside the range where the sampler's
/// floor-to-integer conversion cannot fail.
#[verifier::external_body]
fn perlin_sample_tenths(nseed: u32, xq: u64, xr: u64, yq: u64, yr: u64) -> (r: i64)
    requires
        xq <= 1_000_000,
        xr <= 9,
        yq <= 1_000_000,
        yr <= 9,
    ensures
        r == noise_milli_of(nseed, xq as int, xr as int, yq as int, yr as int),
        -1000 <= r <= 1000,
{
    let p = noise::Perlin::new(nseed);
    let sx = format!("{}.{}", xq, xr);
    let sy = format!("{}.{}", yq, yr);
    let v = noise::NoiseFn::get(&p, [sx.parse().unwrap(), sy.parse().unwrap()]);
    format!("{:+.3}", v).replace(".", "").parse().unwrap()
}

/// Biome selected by thresholding a noise sample (milli-units).
pub open spec fn classify_noise(n: int) -> Biome {
    if n < -300 {
        Biome::Water
    } else if n < -100 {
        Biome::Desert
    } else if n < 500 {
        Biome::Grassland
    } else {
        Biome::Forest
    }
}

pub fn classify(n: i64) -> (b: Biome)
    ensures
        b == classify_noise(n as int),
{
    if n < -300 {
        Biome::Water
    } else if n < -100 {
        Biome::Desert
    } else if n < 500 {
        Biome::Grassland
    } else {
        Biome::Forest
    }
}

/// One grid cell: its biome (fixed after generation), climate scalars,
/// and its current food content, all in milli-units.
#[derive(Clone, Copy, Debug, PartialEq, Eq, Structural)]
pub struct Tile {
    pub biome: Biome,
    pub temperature: i64,
    pub humidity: i64,
    pub food_availabilty: i64,
}

/// A regenerating tile after one tick: water never regenerates; any
/// other tile already above its biome's cap is left alone, else it gains
/// the biome's increment (one transient overshoot past the cap is
/// possible).
pub open spec fn regen_tile(t: Tile, c: Config) -> Tile {
    if t.biome == Biome::Water {
        t
    } else if t.food_availabilty > c.spec_biome_data(t.biome).max_food_availabilty {
        t
    } else {
        Tile {
            food_availabilty: (t.food_availabilty + c.spec_biome_data(t.biome).food_availabilty)
                as i64,
            ..t
        }
    }
}

impl Tile {
    /// Food content is non-negative and at most one regeneration step
    /// past the largest configurable cap.
    pub open spec fn wf(self) -> bool {
        0 <= self.food_availabilty <= 2 * ENERGY_MAX
    }

    /// Apply one tick of food regeneration to this tile.
    pub fn regenerate_food(&mut self, config: &Config)
        requires
            old(self).wf(),
            config.wf(),
        ensures
            *final(self) == regen_tile(*old(self), *config),
            final(self).wf(),
    {
        if let Biome::Water = self.biome {
            return ;
        }
        let data = config.biome_data(self.biome);
        if self.food_availabilty > data.max_food_availabilty {
            return ;
        }
        self.food_availabilty = self.food_availabilty + data.food_availabilty;
    }
}

/// A tile's food stays bounded by its biome's configured cap, except
/// for the transient overshoot of a single regeneration step: a tile at
/// or under the cap gains at most one increment past it, and a tile
/// already over the cap gains nothing.
pub proof fn lemma_regen_overshoot(t: Tile, c: Config)
    requires
        c.wf(),
        t.wf(),
    ensures
        regen_tile(t, c).food_availabilty <= if t.food_availabilty > c.spec_biome_data(
            t.biome,
        ).max_food_availabilty {
            t.food_availabilty as int
        } else {
            c.spec_biome_data(t.biome).max_food_availabilty + c.spec_biome_data(
                t.biome,
            ).food_availabilty
        },
{
}

/// The noise seed used for biome classification: the first draw of the
/// stream for `seed`, truncated to 32 bits.
pub open spec fn world_noise_seed(seed: u64) -> u32 {
    draw_below(seed, 0, 0x1_0000_0000) as u32
}

/// The generated tile at grid coordinates `(x, y)`: biome from the
/// thresholded noise sample at one tenth of the grid coordinates, food
/// uniform in [1, 100) whole units.
pub open spec fn gen_tile(seed: u64, width: int, x: int, y: int) -> Tile {
    Tile {
        biome: classify_noise(
            noise_milli_of(world_noise_seed(seed), x / 10, x % 10, y / 10, y % 10),
        ),
        temperature: 20_000,
        humidity: 500,
        food_availabilty: (1000 + draw_below(seed, (1 + y * width + x) as nat, 99_000)) as i64,
    }
}

/// The grid `w` is exactly the one generated for (width, height, seed).
pub open spec fn is_generated(w: World, width: int, height: int, seed: u64) -> bool {
    &&& w.width == width
    &&& w.height == height
    &&& w.grid@.len() == height
    &&& forall|y: int| 0 <= y < height ==> (#[trigger] w.grid@[y])@.len() == width
    &&& forall|x: int, y: int|
        0 <= x < width && 0 <= y < height ==> #[trigger] w.grid@[y]@[x] == gen_tile(
            seed,
            width,
            x,
            y,
        )
}

/// The world grid: topology (biomes) immutable after generation, food
/// content mutable.
#[derive(Clone, Debug)]
pub struct World {
    pub width: usize,
    pub height: usize,
    pub grid: Vec<Vec<Tile>>,
}

/// The grid as a sequence of rows of tiles.
pub open spec fn grid_view(w: World) -> Seq<Seq<Tile>> {
    w.grid@.map_values(|row: Vec<Tile>| row@)
}

/// The tile under position `p`.
pub open spec fn tile_at(w: World, p: Position) -> Tile {
    w.grid@[p.y as int]@[p.x as int]
}

impl World {
    /// The grid has the declared dimensions and every tile is
    /// well-formed.
    pub open spec fn wf(self) -> bool {
        &&& 1 <= self.width <= DIM_MAX
        &&& 1 <= self.height <= DIM_MAX
        &&& self.width * self.height <= AREA_MAX
        &&& self.grid@.len() == self.height
        &&& forall|y: int| 0 <= y < self.height ==> (#[trigger] self.grid@[y])@.len() == self.width
        &&& forall|x: int, y: int|
            0 <= x < self.width && 0 <= y < self.height ==> (#[trigger] self.grid@[y]@[x]).wf()
    }

    /// Generate the world for (width, height, random_seed): biome by
    /// thresholded coherent noise at one tenth of the grid coordinates,
    /// initial food uniform in [1, 100) whole units. Deterministic in
    /// its arguments.
    pub fn new(width: usize, height: usize, random_seed: u64) -> (w: World)
        requires
            1 <= width <= DIM_MAX,
            1 <= height <= DIM_MAX,
            width * height <= AREA_MAX,
        ensures
            is_generated(w, width as int, height as int, random_seed),
            w.wf(),
    {
        let mut rng = SimRng::new(random_seed);
        let s = rng.below(0x1_0000_0000);
        let nseed = s as u32;
        assert(nseed == world_noise_seed(random_seed));
        let mut grid: Vec<Vec<Tile>> = Vec::new();
        let mut y: usize = 0;
        while y < height
            invariant
                0 <= y <= height,
                1 <= width <= DIM_MAX,
                1 <= height <= DIM_MAX,
                width * height <= AREA_MAX,
                nseed == world_noise_seed(random_seed),
                rng.seed() == random_seed,
                rng.idx() == 1 + y * width,
                grid@.len() == y,
                forall|yy: int| 0 <= yy < y ==> (#[trigger] grid@[yy])@.len() == width,
                forall|xx: int, yy: int|
                    0 <= xx < width && 0 <= yy < y ==> #[trigger] grid@[yy]@[xx] == gen_tile(
                        random_seed,
                        width as int,
                        xx,
                        yy,
                    ),
            decreases height - y,
        {
            let mut row: Vec<Tile> = Vec::new();
            let mut x: usize = 0;
            while x < width
                invariant
                    0 <= x <= width,
                    0 <= y < height,
                    1 <= width <= DIM_MAX,
                    1 <= height <= DIM_MAX,
                    width * height <= AREA_MAX,
                    nseed == world_noise_seed(random_seed),
                    rng.seed() == random_seed,
                    rng.idx() == 1 + y * width + x,
                    row@.len() == x,
                    forall|xx: int|
                        0 <= xx < x ==> #[trigger] row@[xx] == gen_tile(
                            random_seed,
                            width as int,
                            xx,
                            y as int,
                        ),
                decreases width - x,
            {
                proof {
                    assert(y * width + x < height * width) by (nonlinear_arith)
                        requires
                            0 <= y < height,
                            0 <= x < width,
                    ;
                    assert(height * width <= DIM_MAX * DIM_MAX) by (nonlinear_arith)
                        requires
                            0 <= height <= DIM_MAX,
                            0 <= width <= DIM_MAX,
                    ;
                }
                let nm = perlin_sample_tenths(
                    nseed,
                    (x / 10) as u64,
                    (x % 10) as u64,
                    (y / 10) as u64,
                    (y % 10) as u64,
                );
                let biome = classify(nm);
                let fd = rng.below(99_000);
                let food = 1000 + fd as i64;
                let tile = Tile { biome, temperature: 20_000, humidity: 500, food_availabilty: food };
                assert(tile == gen_tile(random_seed, width as int, x as int, y as int));
                row.push(tile);
                x = x + 1;
            }
            grid.push(row);
            y = y + 1;
            proof {
                assert(1 + (y - 1) * width + width == 1 + y * width) by (nonlinear_arith);
            }
        }
        World { width, height, grid }
    }
}

impl Default for World {
    /// The default world: a 10 by 10 grid generated from seed 0.
    fn default() -> (w: World)
        ensures
            is_generated(w, 10, 10, 0),
            w.wf(),
    {
        World::new(10, 10, 0)
    }
}

/// World generation is deterministic: two worlds generated from the same
/// width, height and seed are identical, grid and all.
pub proof fn lemma_generation_deterministic(a: World, b: World, width: int, height: int, seed: u64)
    requires
        is_generated(a, width, height, seed),
        is_generated(b, width, height, seed),
    ensures
        a.width == b.width,
        a.height == b.height,
        grid_view(a) == grid_view(b),
{
    assert forall|y: int| 0 <= y < height implies #[trigger] grid_view(a)[y] == grid_view(b)[y] by {
        assert(grid_view(a)[y] == a.grid@[y]@);
        assert(grid_view(b)[y] == b.grid@[y]@);
        assert forall|x: int| 0 <= x < a.grid@[y]@.len() implies #[trigger] a.grid@[y]@[x]
            == b.grid@[y]@[x] by {
            assert(a.grid@[y]@[x] == gen_tile(seed, width, x, y));
            assert(b.grid@[y]@[x] == gen_tile(seed, width, x, y));
        }
        assert(a.grid@[y]@ =~= b.grid@[y]@);
    }
    assert(grid_view(a) =~= grid_view(b));
}

} // verus!
