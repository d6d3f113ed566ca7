//! The two charge models against hand-computed trajectories.

use evosim::charge::{ActionPotential, ChargeModel, Pulse};
use evosim::fixed::Fx;

fn fx(raw: i64) -> Fx {
    Fx::from_raw(raw)
}

#[test]
fn pulse_ramps_then_wraps() {
    // charge_rate 1.0, threshold 1.0, reset threshold 1.1, dt 0.01: the
    // discharge first becomes positive at step 101 (charge 1.01) and
    // returns to 0 at step 111 (charge wraps to 0).
    let mut pulse = Pulse::new(fx(1_000_000), fx(1_000_000), fx(1_100_000));
    let dt = fx(10_000);
    let mut first_positive = 0usize;
    let mut back_to_zero = 0usize;
    for step in 1..=120usize {
        pulse.update(dt);
        let d = pulse.get_discharge();
        if first_positive == 0 && d.raw > 0 {
            first_positive = step;
        }
        if first_positive > 0 && back_to_zero == 0 && d.raw == 0 {
            back_to_zero = step;
        }
    }
    assert_eq!(first_positive, 101);
    assert_eq!(back_to_zero, 111);
}

#[test]
fn pulse_ignores_stimuli() {
    let mut pulse = Pulse::new(fx(1_000_000), fx(1_000_000), fx(1_100_000));
    let before = pulse.copy();
    pulse.charge(fx(5_000_000));
    assert_eq!(pulse, before);
}

#[test]
fn pulse_cycle_repeats_exactly() {
    let mut pulse = Pulse::new(fx(1_000_000), fx(1_000_000), fx(1_100_000));
    let fresh = pulse.copy();
    let dt = fx(10_000);
    // 110 / (1.0 * 0.01) + 1 = 111 steps bring the charge back to 0
    for _ in 0..111 {
        pulse.update(dt);
    }
    assert_eq!(pulse, fresh);
}

#[test]
fn action_potential_triggers_all_or_nothing() {
    let mut ap = ActionPotential::new(fx(1_100_000), fx(300_000_000), fx(500_000));
    assert!(!ap.active);
    ap.charge(fx(1));
    assert!(ap.active);
    assert_eq!(ap.acceleration.raw, 300_000_000);
    // Verlet for the charge: 300 * 0.01^2 = 0.03 after the first step
    ap.update(fx(10_000));
    assert_eq!(ap.charge.raw, 30_000);
    assert_eq!(ap.old_charge.raw, 0);
}

#[test]
fn active_model_ignores_further_stimuli() {
    let mut ap = ActionPotential::new(fx(1_100_000), fx(300_000_000), fx(500_000));
    ap.charge(fx(1_000_000));
    let during = ap.copy();
    ap.charge(fx(1_000_000));
    assert_eq!(ap, during);
}

#[test]
fn action_potential_completes_a_cycle_before_restimulation() {
    // Drive a triggered model through upstroke, discharge, downstroke and
    // return to rest; only then does a stimulus take effect again.
    let mut ap = ActionPotential::new(fx(1_100_000), fx(300_000_000), fx(500_000));
    ap.charge(fx(1_000_000));
    let dt = fx(10_000);
    let mut steps = 0usize;
    while ap.active && steps < 10_000 {
        ap.update(dt);
        steps += 1;
    }
    assert!(steps < 10_000, "the model never ended its active phase");
    // after the refractory dip the model snaps back to its rest charge
    let mut recovery = 0usize;
    while !(ap.charge.raw == 0 && ap.acceleration.raw == 0) && recovery < 10_000 {
        ap.update(dt);
        recovery += 1;
    }
    assert!(recovery < 10_000, "the model never returned to rest");
    assert_eq!(ap.charge.raw, 0);
    assert_eq!(ap.old_charge.raw, 0);
    assert_eq!(ap.acceleration.raw, 0);
    assert!(!ap.active);
    // and a fresh stimulus takes effect again
    ap.charge(fx(1));
    assert!(ap.active);
    assert_eq!(ap.acceleration.raw, 300_000_000);
}

#[test]
fn model_dispatch_matches_the_variants() {
    let mut m = ChargeModel::Pulse(Pulse::new(fx(1_000_000), fx(1_000_000), fx(1_100_000)));
    m.update(fx(10_000));
    assert_eq!(m.get_charge().raw, 10_000);
    assert_eq!(m.get_discharge().raw, 0);
    let copy = m.copy();
    assert_eq!(copy, m);

    let mut a = ChargeModel::ActionPotential(ActionPotential::new(
        fx(1_100_000),
        fx(300_000_000),
        fx(0),
    ));
    a.charge(fx(1));
    a.update(fx(10_000));
    assert_eq!(a.get_charge().raw, 30_000);
}
