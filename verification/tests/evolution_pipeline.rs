//! DNA generation, mutation, selection, reproduction and whole
//! generations.

use evosim::config::{
    CreatureConfig, MutationConfig, MutationRange, SimulationConfig, WorldConfig,
};
use evosim::creature::Creature;
use evosim::dna::{generate_dna, mutate_dna, CellDna};
use evosim::evolution::{
    generate_population, reproduce, run_batch, select_fittest, simulate_generation,
};
use evosim::fitness::fitness_distance;
use evosim::fixed::Fx;
use evosim::particle::Particle;
use evosim::vec2::Vec2;

fn fx(raw: i64) -> Fx {
    Fx::from_raw(raw)
}

fn range(min: i64, max: i64) -> MutationRange {
    MutationRange { min: fx(min), max: fx(max) }
}

fn mutation_config() -> MutationConfig {
    MutationConfig {
        chance: fx(200_000),
        strength: fx(500_000),
        conductivity: range(0, 2_500_000),
        reactivity: range(0, 400_000),
        toughness: range(1_000_000_000, 2_000_000_000),
        active: range(0, 1_000_000),
        charge_rate: range(0, 2_000_000),
    }
}

fn small_config(size: usize, creature_count: usize, threads: usize) -> SimulationConfig {
    SimulationConfig {
        world_config: WorldConfig {
            ground_y: fx(250_000_000),
            ground_friction: fx(200_000_000),
            gravity: fx(800_000_000),
        },
        creature_config: CreatureConfig {
            size,
            cell_size: fx(40_000_000),
            pulse_threshold: fx(1_900_000),
            charge_threshold: fx(1_000_000),
            discharge_threshold: fx(1_100_000),
            charge_accel: fx(300_000_000),
            active_threshold: fx(200_000),
            node_damping: fx(40_000),
            node_mass: fx(2_000_000),
        },
        mutation_config: mutation_config(),
        creature_count,
        timestep: fx(10_000),
        sub_steps: 2,
        sim_time: fx(20_000),
        threads,
    }
}

fn in_range(x: Fx, r: &MutationRange) -> bool {
    r.min.raw <= x.raw && x.raw <= r.max.raw
}

fn cell_in_ranges(c: &CellDna, config: &MutationConfig) -> bool {
    in_range(c.conductivity, &config.conductivity) && in_range(c.reactivity, &config.reactivity)
        && in_range(c.toughness, &config.toughness) && in_range(c.active, &config.active)
        && in_range(c.charge_rate, &config.charge_rate)
}

#[test]
fn generated_dna_fills_every_range() {
    let config = mutation_config();
    let dna = generate_dna(36, config);
    assert_eq!(dna.len(), 36);
    for cell in dna.iter() {
        assert!(cell_in_ranges(cell, &config));
    }
}

#[test]
fn mutation_keeps_length_ranges_and_changes_at_most_one_cell() {
    let config = mutation_config();
    let dna = generate_dna(9, config);
    for _ in 0..200 {
        let child = mutate_dna(&dna, config);
        assert_eq!(child.len(), dna.len());
        let mut changed = 0usize;
        for (a, b) in dna.iter().zip(child.iter()) {
            if a != b {
                changed += 1;
            }
        }
        assert!(changed <= 1);
        for cell in child.iter() {
            assert!(cell_in_ranges(cell, &config));
        }
    }
}

#[test]
fn selection_count() {
    // 100 pairs with distinct fitnesses: selection keeps exactly 50, and
    // reproduction refills the population to exactly 100.
    let config = mutation_config();
    let cell = CellDna {
        conductivity: fx(1_000_000),
        reactivity: fx(200_000),
        toughness: fx(1_500_000_000),
        active: fx(500_000),
        charge_rate: fx(1_000_000),
    };
    let results: Vec<(Vec<CellDna>, Fx)> =
        (0..100).map(|i| (vec![cell], fx(i as i64 * 1_000_000))).collect();
    let survivors = select_fittest(&results);
    assert_eq!(survivors.len(), 50);
    let next = reproduce(config, &survivors);
    assert_eq!(next.len(), 100);
}

#[test]
fn selection_count_on_odd_sizes() {
    let results: Vec<(Vec<CellDna>, Fx)> = (0..7)
        .map(|i| (vec![generate_dna(1, mutation_config())[0]], fx(i as i64)))
        .collect();
    assert_eq!(select_fittest(&results).len(), 4);
    let empty: Vec<(Vec<CellDna>, Fx)> = vec![];
    assert_eq!(select_fittest(&empty).len(), 0);
}

#[test]
fn population_has_the_configured_shape() {
    let config = small_config(2, 12, 3);
    let population = generate_population(config);
    assert_eq!(population.len(), 12);
    for dna in population.iter() {
        assert_eq!(dna.len(), 4);
    }
}

#[test]
fn generation_roundtrip_count() {
    // 8 DNA over 2 threads, all long enough: exactly 8 results come back.
    let config = small_config(1, 8, 2);
    let population = generate_population(config);
    let results = simulate_generation(&population, config);
    assert_eq!(results.len(), 8);
}

#[test]
fn generation_drops_the_remainder() {
    // 9 DNA over 2 threads: batches of 4, the ninth DNA is never run.
    let config = small_config(1, 9, 2);
    let population = generate_population(config);
    let results = simulate_generation(&population, config);
    assert_eq!(results.len(), 8);
}

#[test]
fn invalid_dna_is_skipped_by_the_worker() {
    // both too-short and too-long DNA are creature-invalid and omitted
    let config = small_config(2, 0, 1);
    let good = generate_dna(4, config.mutation_config);
    let short = generate_dna(2, config.mutation_config);
    let long = generate_dna(7, config.mutation_config);
    let batch = vec![short, good.clone(), long];
    let results = run_batch(config, &batch);
    assert_eq!(results.len(), 1);
    assert_eq!(results[0].0, good);
}

#[test]
fn selection_keeps_a_fittest_dna() {
    // with at least four results, the removals stay in the lower half of
    // the fitness order, so the best DNA always survives
    for _ in 0..20 {
        let results: Vec<(Vec<CellDna>, Fx)> = (0..9)
            .map(|i| {
                let mut cell = CellDna {
                    conductivity: fx(0),
                    reactivity: fx(0),
                    toughness: fx(1_000_000_000),
                    active: fx(0),
                    charge_rate: fx(0),
                };
                cell.active = fx(i as i64);
                (vec![cell], fx(i as i64 * 1_000_000))
            })
            .collect();
        let survivors = select_fittest(&results);
        assert_eq!(survivors.len(), 5);
        assert!(survivors.iter().any(|d| d[0].active.raw == 8));
    }
}

#[test]
fn fitness_is_the_mean_horizontal_position() {
    let particle = |x: i64| Particle {
        position: Vec2 { x: fx(x), y: fx(0) },
        old_position: Vec2 { x: fx(x), y: fx(0) },
        acceleration: Vec2 { x: fx(0), y: fx(0) },
        mass: fx(2_000_000),
        damping: fx(0),
    };
    let creature = Creature {
        particles: vec![particle(2_000_000), particle(4_000_000)],
        cells: vec![],
        size: 0,
    };
    let fitnesses = fitness_distance(&vec![creature]);
    assert_eq!(fitnesses.len(), 1);
    assert_eq!(fitnesses[0].raw, 3_000_000);
}

#[test]
fn run_batch_scores_a_still_creature_by_its_start_position() {
    // A creature with inert springs and a resting charge model never moves
    // horizontally, so its fitness is exactly the mean of its initial x
    // coordinates: (10 + 50 + 10 + 50) / 4 = 30.
    let mut config = small_config(1, 1, 1);
    config.creature_config.node_damping = fx(0);
    let still = CellDna {
        conductivity: fx(0),
        reactivity: fx(0),
        toughness: fx(0),
        active: fx(0),
        charge_rate: fx(0),
    };
    let results = run_batch(config, &vec![vec![still]]);
    assert_eq!(results.len(), 1);
    assert_eq!(results[0].1.raw, 30_000_000);
}

#[test]
fn default_config_matches_the_stock_parameters() {
    let config = SimulationConfig::default();
    assert_eq!(config.creature_config.size, 6);
    assert_eq!(config.creature_config.cell_size.raw, 40_000_000);
    assert_eq!(config.world_config.ground_y.raw, 250_000_000);
    assert_eq!(config.world_config.gravity.raw, 800_000_000);
    assert_eq!(config.mutation_config.chance.raw, 200_000);
    assert_eq!(config.creature_count, 1000);
    assert_eq!(config.sub_steps, 4);
    assert_eq!(config.threads, 6);
    assert_eq!(config.timestep.raw, 10_000);
    assert_eq!(config.sim_time.raw, 10_000_000);
}
