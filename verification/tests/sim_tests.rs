use ecosim::agents::{Organism, OrganismWithPosition, Predator, PredatorWithPosition};
use ecosim::biome::{Biome, BiomeTolerance};
use ecosim::config::default_config;
use ecosim::sim::{SimPhase, SimState};
use ecosim::stats::generation_stats;
use ecosim::world::{Tile, World};
use ecosim::Position;

fn flat_world(biome: Biome, food: i64, width: usize, height: usize) -> World {
    let mut grid = Vec::new();
    for _ in 0..height {
        let mut row = Vec::new();
        for _ in 0..width {
            row.push(Tile { biome, temperature: 20_000, humidity: 500, food_availabilty: food });
        }
        grid.push(row);
    }
    World { width, height, grid }
}

#[test]
fn initial_state_is_deterministic() {
    let config = default_config();
    let a = SimState::new(config);
    let b = SimState::new(config);
    assert_eq!(a.organisms.len(), b.organisms.len());
    assert_eq!(a.predators.len(), b.predators.len());
    for (x, y) in a.organisms.iter().zip(b.organisms.iter()) {
        assert_eq!(x.position.x, y.position.x);
        assert_eq!(x.position.y, y.position.y);
        assert_eq!(x.organism.biome_tolerance, y.organism.biome_tolerance);
    }
}

#[test]
fn initial_populations_match_the_configuration() {
    let mut config = default_config();
    config.initial_organisms = 25;
    config.initial_predators = 3;
    let s = SimState::new(config);
    assert_eq!(s.organisms.len(), 25);
    assert_eq!(s.predators.len(), 3);
    assert_eq!(s.generation.0, 0);
    assert_eq!(s.phase, SimPhase::Simulating);
    for a in &s.organisms {
        assert_eq!(a.organism.energy, config.initial_organism_energy);
        assert!(a.position.x < config.width && a.position.y < config.height);
    }
}

#[test]
fn every_position_stays_in_bounds_over_many_ticks() {
    let mut config = default_config();
    config.generation_limit = Some(20);
    let mut s = SimState::new(config);
    while s.phase == SimPhase::Simulating {
        s.step();
        for a in &s.organisms {
            assert!(a.position.x < config.width && a.position.y < config.height);
        }
        for a in &s.predators {
            assert!(a.position.x < config.width && a.position.y < config.height);
        }
    }
}

#[test]
fn living_population_never_exceeds_the_cap_after_a_tick() {
    let mut config = default_config();
    config.generation_limit = Some(15);
    config.max_total_entities = 30;
    config.initial_organisms = 40;
    config.initial_predators = 2;
    let mut s = SimState::new(config);
    while s.phase == SimPhase::Simulating {
        s.step();
        let living = s.organisms.iter().filter(|a| a.organism.energy > 0).count()
            + s.predators.iter().filter(|a| a.predator.energy > 0).count();
        assert!(living <= config.max_total_entities);
    }
}

#[test]
fn tolerance_tables_stay_positive_over_many_ticks() {
    let mut config = default_config();
    config.generation_limit = Some(15);
    config.organism_mutability = 1000;
    let mut s = SimState::new(config);
    while s.phase == SimPhase::Simulating {
        s.step();
        for a in &s.organisms {
            let t = &a.organism.biome_tolerance;
            assert!(t.forest > 0 && t.desert > 0 && t.water > 0 && t.grassland > 0);
        }
    }
}

#[test]
fn the_generation_limit_finishes_the_simulation() {
    let mut config = default_config();
    config.generation_limit = Some(3);
    let mut s = SimState::new(config);
    assert_eq!(s.phase, SimPhase::Simulating);
    s.step();
    assert_eq!(s.generation.0, 1);
    assert_eq!(s.phase, SimPhase::Simulating);
    s.step();
    s.step();
    assert_eq!(s.generation.0, 3);
    assert_eq!(s.phase, SimPhase::Finished);
    // A finished simulation no longer changes.
    let orgs = s.organisms.len();
    s.step();
    assert_eq!(s.generation.0, 3);
    assert_eq!(s.organisms.len(), orgs);
    assert_eq!(s.phase, SimPhase::Finished);
}

#[test]
fn whole_runs_are_reproducible() {
    let mut config = default_config();
    config.generation_limit = Some(10);
    let mut a = SimState::new(config);
    let mut b = SimState::new(config);
    while a.phase == SimPhase::Simulating {
        a.step();
        b.step();
    }
    assert_eq!(a.organisms.len(), b.organisms.len());
    assert_eq!(a.predators.len(), b.predators.len());
    for (x, y) in a.organisms.iter().zip(b.organisms.iter()) {
        assert_eq!(x.organism.energy, y.organism.energy);
        assert_eq!(x.position.x, y.position.x);
        assert_eq!(x.position.y, y.position.y);
    }
}

#[test]
fn statistics_average_the_population() {
    let world = flat_world(Biome::Grassland, 6000, 2, 2);
    let orgs = vec![
        OrganismWithPosition {
            organism: Organism {
                energy: 10_000,
                speed: 1000,
                size: 2000,
                reproduction_threshold: 50_000,
                reproduction_cooldown: 0,
                biome_tolerance: BiomeTolerance {
                    forest: 500,
                    desert: 300,
                    water: 200,
                    grassland: 1200,
                },
            },
            position: Position { x: 0, y: 0 },
        },
        OrganismWithPosition {
            organism: Organism {
                energy: 20_000,
                speed: 3000,
                size: 1000,
                reproduction_threshold: 70_000,
                reproduction_cooldown: 0,
                biome_tolerance: BiomeTolerance {
                    forest: 1500,
                    desert: 100,
                    water: 400,
                    grassland: 800,
                },
            },
            position: Position { x: 1, y: 1 },
        },
    ];
    let preds: Vec<PredatorWithPosition> = vec![PredatorWithPosition {
        predator: Predator {
            energy: 44_000,
            speed: 2000,
            size: 3000,
            reproduction_threshold: 90_000,
            hunting_efficiency: 1500,
            satiation_threshold: 80_000,
            reproduction_cooldown: 0,
        },
        position: Position { x: 0, y: 1 },
    }];
    let stats = generation_stats(&orgs, &preds, &world, 7);
    assert_eq!(stats.generation, 7);
    assert_eq!(stats.organism_count, 2);
    assert_eq!(stats.predator_count, 1);
    assert_eq!(stats.organism_avg_energy, 15_000);
    assert_eq!(stats.organism_avg_speed, 2000);
    assert_eq!(stats.organism_avg_size, 1500);
    assert_eq!(stats.organism_avg_reproduction_threshold, 60_000);
    assert_eq!(stats.predator_avg_energy, 44_000);
    assert_eq!(stats.predator_avg_hunting_efficiency, 1500);
    assert_eq!(stats.predator_avg_satiation_threshold, 80_000);
    assert_eq!(stats.biome_tally.forest, 2000);
    assert_eq!(stats.biome_tally.desert, 400);
    assert_eq!(stats.biome_tally.water, 600);
    assert_eq!(stats.biome_tally.grassland, 2000);
    assert_eq!(stats.average_food, 6000);
}

#[test]
fn statistics_guard_empty_populations() {
    let world = flat_world(Biome::Grassland, 1000, 2, 2);
    let orgs: Vec<OrganismWithPosition> = Vec::new();
    let preds: Vec<PredatorWithPosition> = Vec::new();
    let stats = generation_stats(&orgs, &preds, &world, 0);
    assert_eq!(stats.organism_count, 0);
    assert_eq!(stats.organism_avg_energy, 0);
    assert_eq!(stats.predator_avg_size, 0);
}
