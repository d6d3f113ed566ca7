//! Cell geometry: charge-driven spring retargeting and the world
//! container.

use evosim::charge::{ChargeModel, Pulse};
use evosim::config::{CreatureConfig, WorldConfig};
use evosim::creature::Creature;
use evosim::dna::CellDna;
use evosim::fixed::Fx;
use evosim::vec2::Vec2;
use evosim::world::World;

fn fx(raw: i64) -> Fx {
    Fx::from_raw(raw)
}

fn dna(reactivity: i64) -> CellDna {
    CellDna {
        conductivity: fx(0),
        reactivity: fx(reactivity),
        toughness: fx(0),
        active: fx(0),
        charge_rate: fx(0),
    }
}

fn config() -> CreatureConfig {
    CreatureConfig {
        size: 1,
        cell_size: fx(40_000_000),
        pulse_threshold: fx(1_900_000),
        charge_threshold: fx(1_000_000),
        discharge_threshold: fx(1_100_000),
        charge_accel: fx(300_000_000),
        active_threshold: fx(200_000),
        node_damping: fx(0),
        node_mass: fx(2_000_000),
    }
}

fn charged_pulse(charge: i64) -> ChargeModel {
    ChargeModel::Pulse(Pulse {
        charge_rate: fx(0),
        charge: fx(charge),
        threshold: fx(10_000_000),
        reset_threshold: fx(20_000_000),
    })
}

#[test]
fn vector_norm_is_euclidean() {
    let v = Vec2 { x: fx(3_000_000), y: fx(4_000_000) };
    assert_eq!(v.len().raw, 5_000_000);
    assert_eq!(v.neg().x.raw, -3_000_000);
    assert_eq!(v.add(v).y.raw, 8_000_000);
}

#[test]
fn charge_scales_the_spring_rest_lengths() {
    // charge 1.0 and reactivity 0.5: every rest length becomes
    // start_length * 1.5; the start length itself is untouched.
    let mut creature = Creature::new(config(), vec![dna(500_000)]).unwrap();
    creature.cells[0].charge_model = charged_pulse(1_000_000);
    creature.update(fx(2_500));
    let cell = &creature.cells[0];
    for edge in 0..4usize {
        assert_eq!(cell.springs[edge].length.raw, 60_000_000);
        assert_eq!(cell.springs[edge].start_length.raw, 40_000_000);
    }
    assert_eq!(cell.springs[4].length.raw, 84_852_813);
    assert_eq!(cell.springs[4].start_length.raw, 56_568_542);
}

#[test]
fn a_negative_rest_length_saturates_at_zero() {
    // charge 1.0 and reactivity -2: the multiplier is -1, and a negative
    // computed rest length is treated as zero rather than inverting the
    // spring.
    let mut creature = Creature::new(config(), vec![dna(-2_000_000)]).unwrap();
    creature.cells[0].charge_model = charged_pulse(1_000_000);
    creature.update(fx(2_500));
    let cell = &creature.cells[0];
    assert_eq!(cell.springs[0].length.raw, 0);
    assert_eq!(cell.springs[0].start_length.raw, 40_000_000);
}

#[test]
fn world_container_basics() {
    let mut world = World::from_config(WorldConfig {
        ground_y: fx(250_000_000),
        ground_friction: fx(200_000_000),
        gravity: fx(800_000_000),
    });
    assert_eq!(world.creatures.len(), 0);
    assert_eq!(world.ground_y.raw, 250_000_000);
    let creature = Creature::new(config(), vec![dna(0)]).unwrap();
    world.add_creature(creature);
    assert_eq!(world.creatures.len(), 1);
    world.reset();
    assert_eq!(world.creatures.len(), 0);
    assert_eq!(world.gravity.raw, 800_000_000);
}
