use ecosim::adaptation::biome_adaptation;
use ecosim::agents::{get_biome_tolerance, Organism, OrganismWithPosition, Predator,
    PredatorWithPosition};
use ecosim::biome::{Biome, BiomeTolerance};
use ecosim::config::default_config;
use ecosim::reproduction::{predator_reproduction, reproduction};
use ecosim::rng::SimRng;
use ecosim::world::{Tile, World};
use ecosim::{Position, ENERGY_MAX, TRAIT_FLOOR};

fn flat_world(biome: Biome, food: i64, width: usize, height: usize) -> World {
    let mut grid = Vec::new();
    for _ in 0..height {
        let mut row = Vec::new();
        for _ in 0..width {
            row.push(Tile { biome, temperature: 20_000, humidity: 500, food_availabilty: food });
        }
        grid.push(row);
    }
    World { width, height, grid }
}

fn tolerances(v: i64) -> BiomeTolerance {
    BiomeTolerance { forest: v, desert: v, water: v, grassland: v }
}

fn organism(energy: i64, threshold: i64, cooldown: i64) -> OrganismWithPosition {
    OrganismWithPosition {
        organism: Organism {
            energy,
            speed: 1000,
            size: 1000,
            reproduction_threshold: threshold,
            reproduction_cooldown: cooldown,
            biome_tolerance: tolerances(500),
        },
        position: Position { x: 5, y: 5 },
    }
}

fn predator(energy: i64, threshold: i64, cooldown: i64) -> PredatorWithPosition {
    PredatorWithPosition {
        predator: Predator {
            energy,
            speed: 1000,
            size: 1000,
            reproduction_threshold: threshold,
            hunting_efficiency: 1000,
            satiation_threshold: 100_000,
            reproduction_cooldown: cooldown,
        },
        position: Position { x: 5, y: 5 },
    }
}

#[test]
fn reproduction_splits_the_energy_in_half() {
    // Energy 100, threshold 50, cooldown 0, on grassland, mutability 0:
    // one reproduction tick yields child energy 50 and parent energy 50.
    let mut config = default_config();
    config.organism_mutability = 0;
    let world = flat_world(Biome::Grassland, 0, 10, 10);
    let mut agents = vec![organism(100_000, 50_000, 0)];
    let mut rng = SimRng::new(0);
    reproduction(&mut agents, 0, &world, &config, &mut rng);
    assert_eq!(agents.len(), 2);
    assert_eq!(agents[0].organism.energy, 50_000);
    assert_eq!(agents[1].organism.energy, 50_000);
    // Parent's cooldown resets to the configured value.
    assert_eq!(agents[0].organism.reproduction_cooldown, config.organism_reproduction_cooldown);
    // With mutability 0 the child's threshold is the parent's, and its
    // speed pays exactly the size-coupled penalty of 0.1 * size.
    assert_eq!(agents[1].organism.reproduction_threshold, 50_000);
    assert_eq!(agents[1].organism.size, 1000);
    assert_eq!(agents[1].organism.speed, 900);
    // The child lands next to the parent.
    let p = agents[1].position;
    assert!((p.x as i64 - 5).abs() <= 1 && (p.y as i64 - 5).abs() <= 1);
}

#[test]
fn reproduction_conserves_energy_with_mutation() {
    let mut config = default_config();
    config.organism_mutability = 1000;
    let world = flat_world(Biome::Forest, 0, 10, 10);
    let mut agents = vec![organism(77_777, 10_000, 0)];
    let mut rng = SimRng::new(123);
    reproduction(&mut agents, 0, &world, &config, &mut rng);
    assert_eq!(agents.len(), 2);
    assert_eq!(agents[0].organism.energy + agents[1].organism.energy, 77_777);
}

#[test]
fn cooldown_blocks_reproduction_and_ticks_down() {
    let config = default_config();
    let world = flat_world(Biome::Grassland, 0, 10, 10);
    let mut agents = vec![organism(100_000, 50_000, 2500)];
    let mut rng = SimRng::new(0);
    reproduction(&mut agents, 0, &world, &config, &mut rng);
    assert_eq!(agents.len(), 1);
    assert_eq!(agents[0].organism.reproduction_cooldown, 1500);
    assert_eq!(agents[0].organism.energy, 100_000);
}

#[test]
fn reproduction_is_skipped_at_the_population_cap() {
    let mut config = default_config();
    config.max_total_entities = 1;
    let world = flat_world(Biome::Grassland, 0, 10, 10);
    let mut agents = vec![organism(100_000, 50_000, 0)];
    let mut rng = SimRng::new(0);
    reproduction(&mut agents, 0, &world, &config, &mut rng);
    assert_eq!(agents.len(), 1);
    assert_eq!(agents[0].organism.energy, 100_000);
}

#[test]
fn dead_agents_do_not_count_toward_the_reproduction_cap() {
    // One living parent and one dead organism with a cap of 2: only
    // living agents count, so the parent still reproduces.
    let mut config = default_config();
    config.max_total_entities = 2;
    let world = flat_world(Biome::Grassland, 0, 10, 10);
    let mut agents = vec![organism(100_000, 50_000, 0), organism(0, 50_000, 0)];
    let mut rng = SimRng::new(0);
    reproduction(&mut agents, 0, &world, &config, &mut rng);
    assert_eq!(agents.len(), 3);
    assert_eq!(agents[0].organism.energy, 50_000);
}

#[test]
fn mutated_size_and_speed_never_fall_below_the_floor() {
    // Repeated reproduction at the maximum mutability: every child's
    // size and speed stay at or above 0.1.
    let mut config = default_config();
    config.organism_mutability = 1000;
    config.predator_mutability = 1000;
    let world = flat_world(Biome::Desert, 0, 10, 10);
    for seed in 0..50u64 {
        let mut agents = vec![organism(1_000_000, 1000, 0)];
        let mut rng = SimRng::new(seed);
        reproduction(&mut agents, 0, &world, &config, &mut rng);
        assert_eq!(agents.len(), 2);
        assert!(agents[1].organism.size >= TRAIT_FLOOR);
        assert!(agents[1].organism.speed >= TRAIT_FLOOR);

        let mut preds = vec![predator(1_000_000, 1000, 0)];
        predator_reproduction(&mut preds, 0, &world, &config, &mut rng);
        assert_eq!(preds.len(), 2);
        assert!(preds[1].predator.size >= TRAIT_FLOOR);
        assert!(preds[1].predator.speed >= TRAIT_FLOOR);
    }
}

#[test]
fn predator_reproduction_splits_the_energy() {
    let mut config = default_config();
    config.predator_mutability = 0;
    let world = flat_world(Biome::Grassland, 0, 10, 10);
    let mut preds = vec![predator(80_000, 50_000, 0)];
    let mut rng = SimRng::new(4);
    predator_reproduction(&mut preds, 0, &world, &config, &mut rng);
    assert_eq!(preds.len(), 2);
    assert_eq!(preds[0].predator.energy, 40_000);
    assert_eq!(preds[1].predator.energy, 40_000);
    assert_eq!(preds[1].predator.hunting_efficiency, 1000);
    assert_eq!(preds[1].predator.satiation_threshold, 100_000);
}

#[test]
fn child_tolerance_tables_have_four_positive_entries() {
    let mut config = default_config();
    config.organism_mutability = 1000;
    let world = flat_world(Biome::Forest, 0, 10, 10);
    for seed in 0..30u64 {
        let mut agents = vec![organism(500_000, 1000, 0)];
        let mut rng = SimRng::new(seed);
        reproduction(&mut agents, 0, &world, &config, &mut rng);
        let tol = &agents[1].organism.biome_tolerance;
        assert!(tol.forest > 0 && tol.desert > 0 && tol.water > 0 && tol.grassland > 0);
    }
}

#[test]
fn fresh_tolerance_favours_the_home_biome() {
    for seed in 0..20u64 {
        let mut rng = SimRng::new(seed);
        let tol = get_biome_tolerance(&Biome::Desert, &mut rng);
        assert!(tol.desert >= 1000 && tol.desert < 1500);
        assert!(tol.forest >= 100 && tol.forest < 800);
        assert!(tol.water >= 100 && tol.water < 800);
        assert!(tol.grassland >= 100 && tol.grassland < 800);
    }
}

#[test]
fn adaptation_scales_with_tolerance() {
    let mut agents = vec![organism(10_000, 0, 0)];
    let world = flat_world(Biome::Forest, 0, 10, 10);
    biome_adaptation(&mut agents, &world);
    // Forest grants tolerance / 10 = 0.5 / 10 whole units.
    assert_eq!(agents[0].organism.energy, 10_050);

    let mut agents2 = vec![organism(10_000, 0, 0)];
    let desert = flat_world(Biome::Desert, 0, 10, 10);
    biome_adaptation(&mut agents2, &desert);
    // Desert costs 0.1 / tolerance = 0.1 / 0.5 whole units.
    assert_eq!(agents2[0].organism.energy, 10_000 - 200);

    let mut agents3 = vec![organism(10_000, 0, 0)];
    let grass = flat_world(Biome::Grassland, 0, 10, 10);
    biome_adaptation(&mut agents3, &grass);
    assert_eq!(agents3[0].organism.energy, 10_025);

    let mut agents4 = vec![organism(10_000, 0, 0)];
    let water = flat_world(Biome::Water, 0, 10, 10);
    biome_adaptation(&mut agents4, &water);
    assert_eq!(agents4[0].organism.energy, -ENERGY_MAX);
}
