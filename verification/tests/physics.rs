//! Particle, spring and world physics against hand-computed values.

use evosim::config::{CreatureConfig, WorldConfig};
use evosim::creature::Creature;
use evosim::dna::CellDna;
use evosim::fixed::Fx;
use evosim::particle::Particle;
use evosim::spring::Spring;
use evosim::vec2::Vec2;
use evosim::world::World;

fn fx(raw: i64) -> Fx {
    Fx::from_raw(raw)
}

fn vec2(x: i64, y: i64) -> Vec2 {
    Vec2 { x: fx(x), y: fx(y) }
}

fn particle_at(x: i64, y: i64) -> Particle {
    Particle {
        position: vec2(x, y),
        old_position: vec2(x, y),
        acceleration: vec2(0, 0),
        mass: fx(2_000_000),
        damping: fx(0),
    }
}

fn still_dna() -> CellDna {
    CellDna {
        conductivity: fx(0),
        reactivity: fx(0),
        toughness: fx(0),
        active: fx(0),
        charge_rate: fx(0),
    }
}

fn test_creature_config(size: usize) -> CreatureConfig {
    CreatureConfig {
        size,
        cell_size: fx(40_000_000),
        pulse_threshold: fx(1_900_000),
        charge_threshold: fx(1_000_000),
        discharge_threshold: fx(1_100_000),
        charge_accel: fx(300_000_000),
        active_threshold: fx(200_000),
        node_damping: fx(0),
        node_mass: fx(2_000_000),
    }
}

#[test]
fn verlet_preserves_velocity_without_acceleration_or_damping() {
    let mut p = particle_at(0, 0);
    p.old_position = vec2(-3_000_000, -1_000_000);
    let dt = fx(2_500);
    p.integrate(dt);
    p.integrate(dt);
    // velocity (3, 1) carried exactly through both steps
    assert_eq!(p.position.x.raw - p.old_position.x.raw, 3_000_000);
    assert_eq!(p.position.y.raw - p.old_position.y.raw, 1_000_000);
    assert_eq!(p.position.x.raw, 6_000_000);
    assert_eq!(p.position.y.raw, 2_000_000);
}

#[test]
fn spring_at_rest_length_applies_no_force() {
    let mut particles = vec![particle_at(0, 0), particle_at(40_000_000, 0)];
    let spring = Spring {
        a_id: 0,
        b_id: 1,
        k: fx(1_000_000_000),
        length: fx(40_000_000),
        start_length: fx(40_000_000),
    };
    spring.apply(&mut particles);
    assert_eq!(particles[0].acceleration.x.raw, 0);
    assert_eq!(particles[0].acceleration.y.raw, 0);
    assert_eq!(particles[1].acceleration.x.raw, 0);
    assert_eq!(particles[1].acceleration.y.raw, 0);
}

#[test]
fn stretched_spring_pulls_the_endpoints_together() {
    // distance 50, rest length 40, k = 1000: force magnitude 10000,
    // acceleration magnitude 10000 / 2 = 5000 along the axis.
    let mut particles = vec![particle_at(0, 0), particle_at(50_000_000, 0)];
    let spring = Spring {
        a_id: 0,
        b_id: 1,
        k: fx(1_000_000_000),
        length: fx(40_000_000),
        start_length: fx(40_000_000),
    };
    spring.apply(&mut particles);
    assert_eq!(particles[0].acceleration.x.raw, 5_000_000_000);
    assert_eq!(particles[1].acceleration.x.raw, -5_000_000_000);
    assert_eq!(particles[0].acceleration.y.raw, 0);
}

#[test]
fn hookean_rest_is_an_equilibrium_over_a_hundred_substeps() {
    let mut particles = vec![particle_at(0, 0), particle_at(40_000_000, 0)];
    let spring = Spring {
        a_id: 0,
        b_id: 1,
        k: fx(1_000_000_000),
        length: fx(40_000_000),
        start_length: fx(40_000_000),
    };
    let dt = fx(2_500);
    for _ in 0..100 {
        spring.apply(&mut particles);
        for p in particles.iter_mut() {
            p.integrate(dt);
        }
    }
    assert_eq!(particles[0].position, vec2(0, 0).clone());
    assert_eq!(particles[1].position.x.raw, 40_000_000);
    assert_eq!(particles[1].position.y.raw, 0);
}

#[test]
fn free_fall_advances_every_particle_equally() {
    // One creature without active springs under gravity 800, one nominal
    // step of 0.01 as four substeps of 0.0025.  From rest the particles
    // cover exactly 0.5 * 800 * 0.01^2 = 0.04, whatever the substep split.
    let options = test_creature_config(1);
    let dna = vec![still_dna()];
    let creature = Creature::new(options, dna).unwrap();
    let mut world = World {
        creatures: vec![creature],
        ground_y: fx(250_000_000),
        ground_friction: fx(200_000_000),
        gravity: fx(800_000_000),
    };
    let dt = fx(2_500);
    for _ in 0..4 {
        world.update(dt);
    }
    let creature = &world.creatures[0];
    assert_eq!(creature.particles.len(), 4);
    for (i, p) in creature.particles.iter().enumerate() {
        let start_y = if i < 2 { 0 } else { 40_000_000 };
        assert_eq!(p.position.y.raw, start_y + 40_000);
        let start_x = if i % 2 == 0 { 10_000_000 } else { 50_000_000 };
        assert_eq!(p.position.x.raw, start_x);
    }
}

#[test]
fn free_fall_is_invariant_under_substep_refinement() {
    // The same nominal step as a single substep of 0.01 covers the same
    // exact 0.04.
    let options = test_creature_config(1);
    let creature = Creature::new(options, vec![still_dna()]).unwrap();
    let mut world = World {
        creatures: vec![creature],
        ground_y: fx(250_000_000),
        ground_friction: fx(200_000_000),
        gravity: fx(800_000_000),
    };
    world.update(fx(10_000));
    for p in world.creatures[0].particles.iter() {
        let fallen = p.position.y.raw % 40_000_000;
        assert_eq!(fallen, 40_000);
    }
}

#[test]
fn ground_friction_cancels_unit_velocity_in_one_substep() {
    // friction * gravity * velocity * dt^2 = 200 * 800 * 1 * 0.0025^2 = 1:
    // a horizontal velocity of 1 is wiped out within the substep, and the
    // clamp leaves the particle exactly on the ground line.
    let mut p = particle_at(0, 251_000_000);
    p.old_position = vec2(-1_000_000, 251_000_000);
    let creature = Creature { particles: vec![p], cells: vec![], size: 0 };
    let mut world = World {
        creatures: vec![creature],
        ground_y: fx(250_000_000),
        ground_friction: fx(200_000_000),
        gravity: fx(800_000_000),
    };
    world.update(fx(2_500));
    let p = &world.creatures[0].particles[0];
    // vertical position equals the ground line after the step
    assert_eq!(p.position.y.raw, 250_000_000);
    // horizontal velocity decreased by exactly 1
    assert_eq!(p.position.x.raw - p.old_position.x.raw, 0);
}

#[test]
fn ground_clamp_holds_after_every_step() {
    // A particle pressed well below the line with downward motion still
    // ends every step at or above the line.
    let mut p = particle_at(7_000_000, 400_000_000);
    p.old_position = vec2(7_000_000, 390_000_000);
    let creature = Creature { particles: vec![p], cells: vec![], size: 0 };
    let mut world = World {
        creatures: vec![creature],
        ground_y: fx(250_000_000),
        ground_friction: fx(0),
        gravity: fx(800_000_000),
    };
    for _ in 0..5 {
        world.update(fx(2_500));
        assert!(world.creatures[0].particles[0].position.y.raw <= 250_000_000);
    }
}
