use ecosim::biome::Biome;
use ecosim::config::default_config;
use ecosim::world::{classify, Tile, World};

#[test]
fn world_generation_is_deterministic() {
    let a = World::new(10, 10, 0);
    let b = World::new(10, 10, 0);
    assert_eq!(a.width, b.width);
    assert_eq!(a.height, b.height);
    assert_eq!(a.grid.len(), 10);
    assert_eq!(b.grid.len(), 10);
    for y in 0..10 {
        assert_eq!(a.grid[y].len(), 10);
        assert_eq!(b.grid[y].len(), 10);
        for x in 0..10 {
            assert_eq!(a.grid[y][x].biome, b.grid[y][x].biome);
            assert_eq!(a.grid[y][x].food_availabilty, b.grid[y][x].food_availabilty);
            assert_eq!(a.grid[y][x].temperature, b.grid[y][x].temperature);
            assert_eq!(a.grid[y][x].humidity, b.grid[y][x].humidity);
        }
    }
}

#[test]
fn world_generation_depends_on_seed() {
    let a = World::new(10, 10, 0);
    let b = World::new(10, 10, 1);
    let mut differs = false;
    for y in 0..10 {
        for x in 0..10 {
            if a.grid[y][x].biome != b.grid[y][x].biome
                || a.grid[y][x].food_availabilty != b.grid[y][x].food_availabilty
            {
                differs = true;
            }
        }
    }
    assert!(differs);
}

#[test]
fn initial_food_is_in_range() {
    let w = World::new(12, 7, 42);
    assert_eq!(w.width, 12);
    assert_eq!(w.height, 7);
    for row in &w.grid {
        for t in row {
            assert!(t.food_availabilty >= 1000);
            assert!(t.food_availabilty < 100_000);
        }
    }
}

#[test]
fn noise_classification_thresholds() {
    assert_eq!(classify(-1000), Biome::Water);
    assert_eq!(classify(-301), Biome::Water);
    assert_eq!(classify(-300), Biome::Desert);
    assert_eq!(classify(-101), Biome::Desert);
    assert_eq!(classify(-100), Biome::Grassland);
    assert_eq!(classify(0), Biome::Grassland);
    assert_eq!(classify(499), Biome::Grassland);
    assert_eq!(classify(500), Biome::Forest);
    assert_eq!(classify(1000), Biome::Forest);
}

#[test]
fn regeneration_adds_the_biome_increment() {
    let config = default_config();
    let mut t = Tile {
        biome: Biome::Forest,
        temperature: 20_000,
        humidity: 500,
        food_availabilty: 50_000,
    };
    t.regenerate_food(&config);
    assert_eq!(t.food_availabilty, 51_000);
}

#[test]
fn regeneration_stops_past_the_cap() {
    let config = default_config();
    let mut t = Tile {
        biome: Biome::Grassland,
        temperature: 20_000,
        humidity: 500,
        food_availabilty: 100_001,
    };
    t.regenerate_food(&config);
    assert_eq!(t.food_availabilty, 100_001);
}

#[test]
fn water_never_regenerates() {
    let config = default_config();
    let mut t = Tile {
        biome: Biome::Water,
        temperature: 20_000,
        humidity: 500,
        food_availabilty: 5000,
    };
    t.regenerate_food(&config);
    assert_eq!(t.food_availabilty, 5000);
}

#[test]
fn noise_produces_varied_biomes() {
    // A 30 by 30 grid spans three noise periods; a constant sample
    // could never produce more than one biome.
    let w = World::new(30, 30, 0);
    let first = w.grid[0][0].biome;
    let mut varied = false;
    for row in &w.grid {
        for t in row {
            if t.biome != first {
                varied = true;
            }
        }
    }
    assert!(varied);
}

#[test]
fn initial_food_is_varied() {
    // A constant random stream could never produce two different
    // initial food values.
    let w = World::new(10, 10, 0);
    let first = w.grid[0][0].food_availabilty;
    let mut varied = false;
    for row in &w.grid {
        for t in row {
            if t.food_availabilty != first {
                varied = true;
            }
        }
    }
    assert!(varied);
}

#[test]
fn default_world_is_ten_by_ten_seed_zero() {
    let d = World::default();
    let w = World::new(10, 10, 0);
    assert_eq!(d.width, 10);
    assert_eq!(d.height, 10);
    for y in 0..10 {
        for x in 0..10 {
            assert_eq!(d.grid[y][x].biome, w.grid[y][x].biome);
            assert_eq!(d.grid[y][x].food_availabilty, w.grid[y][x].food_availabilty);
        }
    }
}

#[test]
fn default_config_matches_the_built_in_values() {
    let c = default_config();
    assert_eq!(c.width, 10);
    assert_eq!(c.height, 10);
    assert_eq!(c.initial_organisms, 10);
    assert_eq!(c.initial_predators, 1);
    assert_eq!(c.initial_organism_energy, 100_000);
    assert_eq!(c.organism_mutability, 100);
    assert_eq!(c.max_predator_energy, 1_500_000);
    assert_eq!(c.max_total_entities, 1000);
    assert_eq!(c.overcrowding_threshold_for_organisms, 10);
    assert_eq!(c.generation_limit, None);
}
