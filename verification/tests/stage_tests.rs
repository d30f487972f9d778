use ecosim::agents::{Organism, OrganismWithPosition, Predator, PredatorWithPosition};
use ecosim::biome::{Biome, BiomeTolerance};
use ecosim::config::default_config;
use ecosim::feeding::consume_food;
use ecosim::movement::{organism_movement, predator_movement};
use ecosim::population::{
    despawn_dead_organisms, despawn_dead_predators, kill_over_limit_organisms, overcrowding,
};
use ecosim::predation::hunting;
use ecosim::rng::SimRng;
use ecosim::world::{Tile, World};
use ecosim::Position;

fn flat_world(biome: Biome, food: i64, width: usize, height: usize) -> World {
    let mut grid = Vec::new();
    for _ in 0..height {
        let mut row = Vec::new();
        for _ in 0..width {
            row.push(Tile { biome, temperature: 20_000, humidity: 500, food_availabilty: food });
        }
        grid.push(row);
    }
    World { width, height, grid }
}

fn tolerances(v: i64) -> BiomeTolerance {
    BiomeTolerance { forest: v, desert: v, water: v, grassland: v }
}

fn organism(energy: i64, speed: i64, size: i64, x: usize, y: usize) -> OrganismWithPosition {
    OrganismWithPosition {
        organism: Organism {
            energy,
            speed,
            size,
            reproduction_threshold: 1_000_000,
            reproduction_cooldown: 10_000,
            biome_tolerance: tolerances(500),
        },
        position: Position { x, y },
    }
}

fn predator(energy: i64, satiation: i64, efficiency: i64, x: usize, y: usize) -> PredatorWithPosition {
    PredatorWithPosition {
        predator: Predator {
            energy,
            speed: 1000,
            size: 1000,
            reproduction_threshold: 1_000_000,
            hunting_efficiency: efficiency,
            satiation_threshold: satiation,
            reproduction_cooldown: 10_000,
        },
        position: Position { x, y },
    }
}

#[test]
fn movement_charges_the_energy_cost_and_stays_in_bounds() {
    let world = flat_world(Biome::Grassland, 0, 5, 5);
    let mut agents = vec![organism(100_000, 2000, 3000, 2, 2)];
    let mut rng = SimRng::new(7);
    organism_movement(&world, &mut agents, &mut rng);
    assert_eq!(agents.len(), 1);
    // 0.1 * speed * size = 2000 * 3000 / 10000 milli-units.
    assert_eq!(agents[0].organism.energy, 100_000 - 600);
    let p = agents[0].position;
    assert!(p.x < 5 && p.y < 5);
    assert!((p.x as i64 - 2).abs() <= 1 && (p.y as i64 - 2).abs() <= 1);
}

#[test]
fn dead_organisms_do_not_move() {
    let world = flat_world(Biome::Grassland, 0, 5, 5);
    let mut agents = vec![organism(0, 1000, 1000, 3, 4)];
    let mut rng = SimRng::new(1);
    organism_movement(&world, &mut agents, &mut rng);
    assert_eq!(agents[0].position.x, 3);
    assert_eq!(agents[0].position.y, 4);
    assert_eq!(agents[0].organism.energy, 0);
}

#[test]
fn water_is_lethal_to_organisms() {
    let world = flat_world(Biome::Water, 0, 5, 5);
    let mut agents = vec![organism(100_000, 1000, 1000, 2, 2)];
    let mut rng = SimRng::new(3);
    organism_movement(&world, &mut agents, &mut rng);
    // Wherever it stepped, the tile is water: energy is forced to -1.
    assert_eq!(agents[0].organism.energy, -1000);
    despawn_dead_organisms(&mut agents);
    assert_eq!(agents.len(), 0);
}

#[test]
fn predators_pursue_prey_within_the_attack_radius() {
    let config = default_config();
    let world = flat_world(Biome::Grassland, 0, 9, 9);
    let prey = vec![organism(50_000, 1000, 1000, 5, 4)];
    let mut preds = vec![predator(50_000, 100_000, 1000, 4, 4)];
    let mut rng = SimRng::new(11);
    predator_movement(&world, &mut preds, &prey, &config, &mut rng);
    // One unit step per axis toward the prey, then the decay cost:
    // 0.5 * 1.0 * 1.0 = 0.5 whole units.
    assert_eq!(preds[0].position.x, 5);
    assert_eq!(preds[0].position.y, 4);
    assert_eq!(preds[0].predator.energy, 50_000 - 500);
}

#[test]
fn predators_forage_when_no_prey_is_in_range() {
    let config = default_config();
    let world = flat_world(Biome::Grassland, 0, 9, 9);
    let prey = vec![organism(50_000, 1000, 1000, 8, 8)];
    let mut preds = vec![predator(50_000, 100_000, 1000, 1, 1)];
    let mut rng = SimRng::new(11);
    predator_movement(&world, &mut preds, &prey, &config, &mut rng);
    let p = preds[0].position;
    assert!((p.x as i64 - 1).abs() <= 1 && (p.y as i64 - 1).abs() <= 1);
    assert_eq!(preds[0].predator.energy, 50_000 - 500);
}

#[test]
fn predators_forage_when_only_dead_prey_is_in_range() {
    let config = default_config();
    let world = flat_world(Biome::Grassland, 0, 9, 9);
    let prey = vec![organism(0, 1000, 1000, 4, 4)];
    let mut preds = vec![predator(50_000, 100_000, 1000, 4, 4)];
    let mut rng = SimRng::new(11);
    predator_movement(&world, &mut preds, &prey, &config, &mut rng);
    // The corpse is not pursued: the predator takes a forage step into
    // a neighbouring cell (pursuing the co-located corpse would keep it
    // in place).
    let p = preds[0].position;
    assert!((p.x as i64 - 4).abs() <= 1 && (p.y as i64 - 4).abs() <= 1);
    assert!(!(p.x == 4 && p.y == 4));
    assert_eq!(preds[0].predator.energy, 50_000 - 500);
}

#[test]
fn hungry_predator_eats_colocated_prey() {
    // Satiation 100, energy 50, prey size 10, efficiency 1.0: the
    // predator gains exactly 10 whole units and the prey is removed.
    let config = default_config();
    let mut orgs = vec![organism(70_000, 1000, 10_000, 3, 3)];
    let mut preds = vec![predator(50_000, 100_000, 1000, 3, 3)];
    hunting(&mut preds, &mut orgs, &config);
    assert_eq!(preds[0].predator.energy, 60_000);
    assert_eq!(orgs.len(), 0);
}

#[test]
fn dead_predators_do_not_hunt() {
    // A predator awaiting despawn takes no action: the co-located living
    // prey survives and the predator's energy stays where it was.
    let config = default_config();
    let mut orgs = vec![organism(70_000, 1000, 10_000, 3, 3)];
    let mut preds = vec![predator(0, 100_000, 1000, 3, 3)];
    hunting(&mut preds, &mut orgs, &config);
    assert_eq!(preds[0].predator.energy, 0);
    assert_eq!(orgs.len(), 1);
}

#[test]
fn satiated_predator_does_not_hunt() {
    let config = default_config();
    let mut orgs = vec![organism(70_000, 1000, 10_000, 3, 3)];
    let mut preds = vec![predator(100_000, 100_000, 1000, 3, 3)];
    hunting(&mut preds, &mut orgs, &config);
    assert_eq!(preds[0].predator.energy, 100_000);
    assert_eq!(orgs.len(), 1);
}

#[test]
fn predator_energy_gain_is_capped() {
    let mut config = default_config();
    config.max_predator_energy = 55_000;
    let mut orgs = vec![organism(70_000, 1000, 10_000, 3, 3)];
    let mut preds = vec![predator(50_000, 100_000, 1000, 3, 3)];
    hunting(&mut preds, &mut orgs, &config);
    assert_eq!(preds[0].predator.energy, 55_000);
    assert_eq!(orgs.len(), 0);
}

#[test]
fn dead_organisms_are_not_prey() {
    // A dead organism shares the predator's cell; a living one sits one
    // cell away. The hunt ignores the corpse, and the pursuit steps
    // toward the living prey instead of staying on the corpse.
    let config = default_config();
    let world = flat_world(Biome::Grassland, 0, 9, 9);
    let mut orgs = vec![
        organism(0, 1000, 10_000, 4, 4),
        organism(50_000, 1000, 1000, 5, 4),
    ];
    let mut preds = vec![predator(50_000, 100_000, 1000, 4, 4)];
    hunting(&mut preds, &mut orgs, &config);
    // Nothing co-located is alive, so nothing is eaten.
    assert_eq!(preds[0].predator.energy, 50_000);
    assert_eq!(orgs.len(), 2);
    let mut rng = SimRng::new(5);
    predator_movement(&world, &mut preds, &orgs, &config, &mut rng);
    assert_eq!(preds[0].position.x, 5);
    assert_eq!(preds[0].position.y, 4);
}

#[test]
fn hunting_eats_the_first_living_colocated_prey() {
    // A dead organism earlier in the list is skipped; the living one
    // behind it is eaten.
    let config = default_config();
    let mut orgs = vec![
        organism(-500, 1000, 20_000, 3, 3),
        organism(70_000, 1000, 10_000, 3, 3),
    ];
    let mut preds = vec![predator(50_000, 100_000, 1000, 3, 3)];
    hunting(&mut preds, &mut orgs, &config);
    assert_eq!(preds[0].predator.energy, 60_000);
    assert_eq!(orgs.len(), 1);
    assert_eq!(orgs[0].organism.energy, -500);
}

#[test]
fn each_prey_is_eaten_at_most_once() {
    let config = default_config();
    let mut orgs = vec![organism(70_000, 1000, 10_000, 3, 3)];
    let mut preds = vec![
        predator(50_000, 100_000, 1000, 3, 3),
        predator(50_000, 100_000, 1000, 3, 3),
    ];
    hunting(&mut preds, &mut orgs, &config);
    // The first predator eats the only prey; the second finds none.
    assert_eq!(preds[0].predator.energy, 60_000);
    assert_eq!(preds[1].predator.energy, 50_000);
    assert_eq!(orgs.len(), 0);
}

#[test]
fn largest_organism_eats_first_and_late_eaters_starve() {
    // Tile food 0.5; the bigger organism (listed second) needs 0.4 and
    // eats first, the smaller needs 0.2 but only 0.1 is left.
    let mut world = flat_world(Biome::Grassland, 500, 5, 5);
    let mut agents = vec![
        organism(10_000, 1000, 1000, 2, 2),
        organism(10_000, 1000, 2000, 2, 2),
    ];
    consume_food(&mut world, &mut agents);
    assert_eq!(agents[1].organism.energy, 10_000 + 2 * 400);
    assert_eq!(agents[0].organism.energy, 10_000 + 2 * 100);
    assert_eq!(world.grid[2][2].food_availabilty, 0);
}

#[test]
fn consumption_converts_food_at_twice_the_rate() {
    let mut world = flat_world(Biome::Grassland, 10_000, 5, 5);
    let mut agents = vec![organism(10_000, 1000, 1000, 1, 1)];
    consume_food(&mut world, &mut agents);
    // Need = 1.0 * 0.2 * 1.0 = 0.2; gain = 0.4 whole units.
    assert_eq!(agents[0].organism.energy, 10_400);
    assert_eq!(world.grid[1][1].food_availabilty, 9800);
    // Other tiles untouched.
    assert_eq!(world.grid[0][0].food_availabilty, 10_000);
}

#[test]
fn overcrowding_marks_exactly_the_lowest_energy_excess() {
    // Threshold 2, five organisms of distinct energies on one tile:
    // exactly the three weakest are marked for death.
    let mut config = default_config();
    config.overcrowding_threshold_for_organisms = 2;
    let energies = [5000i64, 1000, 4000, 2000, 3000];
    let mut orgs: Vec<OrganismWithPosition> =
        energies.iter().map(|&e| organism(e, 1000, 1000, 3, 3)).collect();
    let mut preds: Vec<PredatorWithPosition> = Vec::new();
    overcrowding(&mut orgs, &mut preds, &config);
    let marked: Vec<i64> = energies
        .iter()
        .zip(orgs.iter())
        .filter(|(_, a)| a.organism.energy == -1000)
        .map(|(&e, _)| e)
        .collect();
    let mut marked_sorted = marked.clone();
    marked_sorted.sort();
    assert_eq!(marked_sorted, vec![1000, 2000, 3000]);
    assert_eq!(orgs[0].organism.energy, 5000);
    assert_eq!(orgs[2].organism.energy, 4000);
}

#[test]
fn overcrowding_spares_tiles_within_the_threshold() {
    let config = default_config();
    let mut orgs = vec![
        organism(1000, 1000, 1000, 3, 3),
        organism(2000, 1000, 1000, 3, 3),
    ];
    let mut preds: Vec<PredatorWithPosition> = Vec::new();
    overcrowding(&mut orgs, &mut preds, &config);
    assert_eq!(orgs[0].organism.energy, 1000);
    assert_eq!(orgs[1].organism.energy, 2000);
}

#[test]
fn despawn_removes_only_the_dead() {
    let mut orgs = vec![
        organism(1000, 1000, 1000, 0, 0),
        organism(0, 1000, 1000, 1, 1),
        organism(-500, 1000, 1000, 2, 2),
        organism(2000, 1000, 1000, 3, 3),
    ];
    despawn_dead_organisms(&mut orgs);
    assert_eq!(orgs.len(), 2);
    assert_eq!(orgs[0].organism.energy, 1000);
    assert_eq!(orgs[1].organism.energy, 2000);

    let mut preds = vec![
        predator(-1, 1000, 1000, 0, 0),
        predator(700, 1000, 1000, 1, 1),
    ];
    despawn_dead_predators(&mut preds);
    assert_eq!(preds.len(), 1);
    assert_eq!(preds[0].predator.energy, 700);
}

#[test]
fn population_cap_culls_down_to_the_maximum() {
    let mut config = default_config();
    config.max_total_entities = 8;
    let mut orgs: Vec<OrganismWithPosition> =
        (0..10).map(|i| organism(1000 + i, 1000, 1000, 0, 0)).collect();
    let mut preds: Vec<PredatorWithPosition> =
        (0..5).map(|_| predator(1000, 1000, 1000, 0, 0)).collect();
    let mut rng = SimRng::new(9);
    kill_over_limit_organisms(&mut orgs, &mut preds, &config, &mut rng);
    assert_eq!(orgs.len() + preds.len(), 8);
}

#[test]
fn population_cap_ignores_dead_agents() {
    // Five organisms are present but only two are alive; with a cap of
    // three the living population fits, so nothing is despawned even
    // though more agents are present than the cap.
    let mut config = default_config();
    config.max_total_entities = 3;
    let mut orgs = vec![
        organism(1000, 1000, 1000, 0, 0),
        organism(0, 1000, 1000, 0, 0),
        organism(-500, 1000, 1000, 1, 1),
        organism(2000, 1000, 1000, 2, 2),
        organism(0, 1000, 1000, 3, 3),
    ];
    let mut preds: Vec<PredatorWithPosition> = Vec::new();
    let mut rng = SimRng::new(2);
    kill_over_limit_organisms(&mut orgs, &mut preds, &config, &mut rng);
    assert_eq!(orgs.len(), 5);
}

#[test]
fn population_cap_leaves_small_populations_alone() {
    let config = default_config();
    let mut orgs = vec![organism(1000, 1000, 1000, 0, 0)];
    let mut preds = vec![predator(1000, 1000, 1000, 0, 0)];
    let mut rng = SimRng::new(9);
    kill_over_limit_organisms(&mut orgs, &mut preds, &config, &mut rng);
    assert_eq!(orgs.len(), 1);
    assert_eq!(preds.len(), 1);
}
