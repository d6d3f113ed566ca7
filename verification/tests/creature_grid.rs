//! Creature construction and discharge propagation across the grid.

use evosim::charge::{ActionPotential, ChargeModel};
use evosim::config::CreatureConfig;
use evosim::creature::Creature;
use evosim::dna::CellDna;
use evosim::fixed::Fx;

fn fx(raw: i64) -> Fx {
    Fx::from_raw(raw)
}

fn still_dna() -> CellDna {
    CellDna {
        conductivity: fx(0),
        reactivity: fx(0),
        toughness: fx(0),
        active: fx(0),
        charge_rate: fx(0),
    }
}

fn config(size: usize) -> CreatureConfig {
    CreatureConfig {
        size,
        cell_size: fx(40_000_000),
        pulse_threshold: fx(1_900_000),
        charge_threshold: fx(1_000_000),
        discharge_threshold: fx(1_100_000),
        charge_accel: fx(300_000_000),
        active_threshold: fx(200_000),
        node_damping: fx(0),
        node_mass: fx(2_000_000),
    }
}

/// An action-potential model held mid-spike, so the next update emits a
/// discharge.
fn spiking_model() -> ChargeModel {
    ChargeModel::ActionPotential(ActionPotential {
        charge: fx(1_200_000),
        old_charge: fx(1_200_000),
        acceleration: fx(0),
        max_acceleration: fx(300_000_000),
        active: true,
        threshold: fx(1_100_000),
        rest_charge: fx(0),
        conductivity: fx(0),
    })
}

fn model_state(m: &ChargeModel) -> (bool, i64) {
    match m {
        ChargeModel::ActionPotential(a) => (a.active, a.acceleration.raw),
        ChargeModel::Pulse(_) => panic!("expected an action potential"),
    }
}

#[test]
fn creature_dimensions_follow_the_grid() {
    for size in 1..=4usize {
        let dna = vec![still_dna(); size * size];
        let creature = Creature::new(config(size), dna).unwrap();
        assert_eq!(creature.particles.len(), (size + 1) * (size + 1));
        assert_eq!(creature.cells.len(), size * size);
        for cell in creature.cells.iter() {
            assert_eq!(cell.springs.len(), 6);
            for spring in cell.springs.iter() {
                assert!(spring.a_id < creature.particles.len());
                assert!(spring.b_id < creature.particles.len());
                assert_ne!(spring.a_id, spring.b_id);
            }
        }
    }
}

#[test]
fn creature_construction_demands_one_record_per_cell() {
    // a DNA length other than size * size is creature-invalid
    assert!(Creature::new(config(2), vec![still_dna(); 3]).is_none());
    assert!(Creature::new(config(2), vec![still_dna(); 4]).is_some());
    assert!(Creature::new(config(2), vec![still_dna(); 5]).is_none());
    assert!(Creature::new(config(2), vec![still_dna(); 9]).is_none());
}

#[test]
fn first_cell_addresses_its_quad_vertices() {
    let creature = Creature::new(config(2), vec![still_dna(); 4]).unwrap();
    let cell = &creature.cells[0];
    assert_eq!(cell.pos, (0, 0));
    // quad vertices 0, 1, 4, 3 on the 3x3 vertex grid
    assert_eq!((cell.springs[0].a_id, cell.springs[0].b_id), (0, 1));
    assert_eq!((cell.springs[1].a_id, cell.springs[1].b_id), (1, 4));
    assert_eq!((cell.springs[2].a_id, cell.springs[2].b_id), (4, 3));
    assert_eq!((cell.springs[3].a_id, cell.springs[3].b_id), (3, 0));
    assert_eq!((cell.springs[4].a_id, cell.springs[4].b_id), (0, 4));
    assert_eq!((cell.springs[5].a_id, cell.springs[5].b_id), (3, 1));
    // the diagonal rest length is sqrt(2) * 40, floored in raw units
    assert_eq!(cell.springs[4].length.raw, 56_568_542);
}

#[test]
fn charge_rate_picks_the_model() {
    let mut pulse_dna = still_dna();
    pulse_dna.charge_rate = fx(2_000_000);
    let creature = Creature::new(config(1), vec![pulse_dna]).unwrap();
    match &creature.cells[0].charge_model {
        ChargeModel::Pulse(p) => {
            // the pulse runs at half the DNA charge rate
            assert_eq!(p.charge_rate.raw, 1_000_000);
            assert_eq!(p.threshold.raw, 1_000_000);
            assert_eq!(p.reset_threshold.raw, 1_100_000);
        },
        ChargeModel::ActionPotential(_) => panic!("expected a pulse"),
    }
    let creature = Creature::new(config(1), vec![still_dna()]).unwrap();
    match &creature.cells[0].charge_model {
        ChargeModel::ActionPotential(a) => {
            assert_eq!(a.threshold.raw, 1_100_000);
            assert_eq!(a.max_acceleration.raw, 300_000_000);
        },
        ChargeModel::Pulse(_) => panic!("expected an action potential"),
    }
}

#[test]
fn discharge_excites_exactly_the_grid_neighbors() {
    // 2x2 grid; the top-left cell spikes.  After one step the top-right
    // and bottom-left cells are stimulated, the spiking cell keeps its
    // own discharging state, and the bottom-right cell is untouched.
    let mut creature = Creature::new(config(2), vec![still_dna(); 4]).unwrap();
    creature.cells[0].charge_model = spiking_model();
    creature.update(fx(2_500));

    let (active0, accel0) = model_state(&creature.cells[0].charge_model);
    assert!(active0);
    assert_eq!(accel0, -300_000_000, "the spiking cell is discharging, not re-stimulated");

    let (active1, accel1) = model_state(&creature.cells[1].charge_model);
    assert!(active1);
    assert_eq!(accel1, 300_000_000);

    let (active2, accel2) = model_state(&creature.cells[2].charge_model);
    assert!(active2);
    assert_eq!(accel2, 300_000_000);

    let (active3, accel3) = model_state(&creature.cells[3].charge_model);
    assert!(!active3);
    assert_eq!(accel3, 0);
}

#[test]
fn propagation_is_single_hop_per_step() {
    // 3x3 grid; only the center cell spikes.  One step may stimulate the
    // four von-Neumann neighbors and nothing else: the corners stay
    // quiescent even though they border the stimulated cells.
    let mut creature = Creature::new(config(3), vec![still_dna(); 9]).unwrap();
    creature.cells[4].charge_model = spiking_model();
    creature.update(fx(2_500));

    let stimulated: Vec<usize> = (0..9)
        .filter(|&i| i != 4 && model_state(&creature.cells[i].charge_model).0)
        .collect();
    assert_eq!(stimulated, vec![1, 3, 5, 7]);
}
