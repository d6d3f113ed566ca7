//! Per-cell excitable charge models: a free-running pulse oscillator and an
//! action-potential unit, wrapped in one closed variant type.

use crate::fixed::{fx_add, fx_mul, fx_neg, fx_sub, Fx};
use vstd::prelude::*;

verus! {

// ---------------------------------------------------------------------------
// Pulse
// ---------------------------------------------------------------------------
/// A free-running oscillator: the charge grows linearly and wraps to zero
/// above `reset_threshold`; stimuli are ignored.
#[derive(Clone, Copy, PartialEq, Eq, Structural, Debug)]
pub struct Pulse {
    pub charge_rate: Fx,
    pub charge: Fx,
    pub threshold: Fx,
    pub reset_threshold: Fx,
}

/// The pulse after one `dt` step: `charge += charge_rate * dt`, wrapping to
/// 0 once the charge exceeds the reset threshold.
pub open spec fn pulse_updated(p: Pulse, dt: int) -> Pulse {
    let c = fx_add(p.charge.v(), fx_mul(p.charge_rate.v(), dt));
    Pulse {
        charge: Fx {
            raw: if c > p.reset_threshold.v() {
                0
            } else {
                c as i64
            },
        },
        ..p
    }
}

/// Overflow of the pulse's charge above its threshold (0 when at or below).
pub open spec fn pulse_discharge(p: Pulse) -> int {
    if p.charge.v() > p.threshold.v() {
        fx_sub(p.charge.v(), p.threshold.v())
    } else {
        0
    }
}

impl Pulse {
    pub fn new(charge_rate: Fx, threshold: Fx, reset_threshold: Fx) -> (r: Pulse)
        ensures
            r == (Pulse { charge_rate, charge: Fx { raw: 0 }, threshold, reset_threshold }),
    {
        Pulse { charge_rate, charge: Fx { raw: 0 }, threshold, reset_threshold }
    }

    pub fn get_charge(&self) -> (r: Fx)
        ensures
            r == self.charge,
    {
        self.charge
    }

    pub fn get_discharge(&self) -> (r: Fx)
        ensures
            r.v() == pulse_discharge(*self),
    {
        if self.charge.raw > self.threshold.raw {
            self.charge.sub(self.threshold)
        } else {
            Fx { raw: 0 }
        }
    }

    pub fn update(&mut self, dt: Fx)
        ensures
            *final(self) == pulse_updated(*old(self), dt.v()),
    {
        self.charge = self.charge.add(self.charge_rate.mul(dt));
        if self.charge.raw > self.reset_threshold.raw {
            self.charge = Fx { raw: 0 };
        }
    }

    /// Stimuli do not affect a pulse.
    pub fn charge(&mut self, amount: Fx)
        ensures
            *final(self) == *old(self),
    {
    }

    /// A deep copy, so DNA reuse across generations cannot alias state.
    pub fn copy(&self) -> (r: Pulse)
        ensures
            r == *self,
    {
        *self
    }
}

/// The pulse after `n` update steps of `dt`.
pub open spec fn pulse_after(p: Pulse, dt: int, n: nat) -> Pulse
    decreases n,
{
    if n == 0 {
        p
    } else {
        pulse_updated(pulse_after(p, dt, (n - 1) as nat), dt)
    }
}

proof fn lemma_pulse_ramp(p: Pulse, dt: int, k: nat)
    requires
        0 <= p.charge.v(),
        0 < fx_mul(p.charge_rate.v(), dt),
        0 <= p.reset_threshold.v(),
        p.reset_threshold.v() + fx_mul(p.charge_rate.v(), dt) <= i64::MAX,
        k <= (p.reset_threshold.v() - p.charge.v()) / fx_mul(p.charge_rate.v(), dt),
    ensures
        pulse_after(p, dt, k) == (Pulse {
            charge: Fx { raw: (p.charge.v() + k * fx_mul(p.charge_rate.v(), dt)) as i64 },
            ..p
        }),
        p.charge.v() + k * fx_mul(p.charge_rate.v(), dt) <= p.reset_threshold.v(),
    decreases k,
{
    let c = p.charge.v();
    let step = fx_mul(p.charge_rate.v(), dt);
    let reset = p.reset_threshold.v();
    let q = (reset - c) / step;
    vstd::arithmetic::div_mod::lemma_fundamental_div_mod(reset - c, step);
    vstd::arithmetic::div_mod::lemma_mod_bound(reset - c, step);
    assert(0 <= k * step && k * step <= q * step && q * step <= reset - c) by (nonlinear_arith)
        requires
            k <= q,
            0 < step,
            reset - c == step * q + (reset - c) % step,
            0 <= (reset - c) % step,
    ;
    if k == 0 {
        assert(k * step == 0) by (nonlinear_arith)
            requires
                k == 0,
        ;
    } else {
        lemma_pulse_ramp(p, dt, (k - 1) as nat);
        assert((k - 1) * step + step == k * step) by (nonlinear_arith);
        let prev = pulse_after(p, dt, (k - 1) as nat);
        assert(pulse_after(p, dt, k) == pulse_updated(prev, dt));
        assert(fx_add(prev.charge.v(), step) == c + k * step);
    }
}

/// A pulse at any charge in `[0, reset_threshold]` wraps back to charge 0
/// within `(reset_threshold - charge) / step + 1` steps, where
/// `step = charge_rate * dt > 0` is the per-step increment; that count
/// never exceeds `reset_threshold / step + 1`, so every window of that
/// many consecutive updates sees the charge at exactly 0.
pub proof fn lemma_pulse_wraps_to_zero(p: Pulse, dt: int)
    requires
        0 <= p.charge.v() <= p.reset_threshold.v(),
        0 < fx_mul(p.charge_rate.v(), dt),
        p.reset_threshold.v() + fx_mul(p.charge_rate.v(), dt) <= i64::MAX,
    ensures
        ({
            let step = fx_mul(p.charge_rate.v(), dt);
            let k = (p.reset_threshold.v() - p.charge.v()) / step + 1;
            &&& 1 <= k <= p.reset_threshold.v() / step + 1
            &&& pulse_after(p, dt, k as nat) == (Pulse { charge: Fx { raw: 0 }, ..p })
        }),
{
    let c = p.charge.v();
    let step = fx_mul(p.charge_rate.v(), dt);
    let reset = p.reset_threshold.v();
    let q = (reset - c) / step;
    lemma_pulse_ramp(p, dt, q as nat);
    vstd::arithmetic::div_mod::lemma_fundamental_div_mod(reset - c, step);
    vstd::arithmetic::div_mod::lemma_mod_bound(reset - c, step);
    assert(0 <= q && c + q * step + step > reset) by (nonlinear_arith)
        requires
            0 < step,
            0 <= reset - c,
            reset - c == step * q + (reset - c) % step,
            0 <= (reset - c) % step < step,
    ;
    vstd::arithmetic::div_mod::lemma_div_is_ordered(reset - c, reset, step);
    assert(pulse_after(p, dt, (q + 1) as nat) == pulse_updated(pulse_after(p, dt, q as nat), dt));
}

/// Pulse periodicity: starting from charge 0, a pulse whose per-step
/// increment is `step = charge_rate * dt > 0` returns to exactly the same
/// state (charge 0 included) after `reset_threshold / step + 1` steps, and
/// hence repeats that cycle indefinitely.
pub proof fn lemma_pulse_periodic(p: Pulse, dt: int)
    requires
        p.charge.v() == 0,
        0 < fx_mul(p.charge_rate.v(), dt),
        0 <= p.reset_threshold.v(),
        p.reset_threshold.v() + fx_mul(p.charge_rate.v(), dt) <= i64::MAX,
    ensures
        pulse_after(p, dt, (p.reset_threshold.v() / fx_mul(p.charge_rate.v(), dt) + 1) as nat)
            == p,
{
    lemma_pulse_wraps_to_zero(p, dt);
}

// ---------------------------------------------------------------------------
// ActionPotential
// ---------------------------------------------------------------------------
/// An excitable unit that mimics a natural cell's action potential: a
/// stimulus triggers an all-or-nothing upstroke, the charge spikes past the
/// threshold, discharges, and recovers to the rest charge before a further
/// stimulus can take effect.  `conductivity` is carried from DNA and does
/// not enter the update.
#[derive(Clone, Copy, PartialEq, Eq, Structural, Debug)]
pub struct ActionPotential {
    pub charge: Fx,
    pub old_charge: Fx,
    /// Rate of the rate of change of the charge.
    pub acceleration: Fx,
    pub max_acceleration: Fx,
    pub active: bool,
    pub threshold: Fx,
    pub rest_charge: Fx,
    pub conductivity: Fx,
}

/// The charge after the Verlet stage of one update:
/// `2 * charge - old_charge + acceleration * dt * dt`.
pub open spec fn ap_verlet_charge(m: ActionPotential, dt: int) -> int {
    fx_add(
        fx_sub(fx_mul(m.charge.v(), 2_000_000), m.old_charge.v()),
        fx_mul(fx_mul(m.acceleration.v(), dt), dt),
    )
}

/// The model after one `dt` step: Verlet-integrate the charge, then begin
/// the discharge above the threshold, end the refractory phase below the
/// rest charge, and snap an inactive above-rest charge back to rest.
pub open spec fn ap_updated(m: ActionPotential, dt: int) -> ActionPotential {
    let c1 = ap_verlet_charge(m, dt);
    let m1 = ActionPotential { old_charge: m.charge, charge: Fx { raw: c1 as i64 }, ..m };
    let m2 = if m1.charge.v() > m1.threshold.v() {
        ActionPotential { acceleration: Fx { raw: fx_neg(m1.max_acceleration.v()) as i64 }, ..m1 }
    } else {
        m1
    };
    let m3 = if m2.charge.v() < m2.rest_charge.v() {
        ActionPotential { acceleration: m2.max_acceleration, active: false, ..m2 }
    } else {
        m2
    };
    if m3.charge.v() > m3.rest_charge.v() && !m3.active {
        ActionPotential {
            charge: m3.rest_charge,
            old_charge: m3.rest_charge,
            acceleration: Fx { raw: 0 },
            ..m3
        }
    } else {
        m3
    }
}

/// Overflow of the model's charge above its threshold (0 when below).
pub open spec fn ap_discharge(m: ActionPotential) -> int {
    if m.charge.v() >= m.threshold.v() {
        fx_sub(m.charge.v(), m.threshold.v())
    } else {
        0
    }
}

/// The model after receiving a stimulus: an inactive model at or above its
/// rest charge starts an upstroke and becomes active; anything else is
/// unchanged.  The stimulus magnitude does not enter: the trigger is
/// all-or-nothing.
pub open spec fn ap_charged(m: ActionPotential) -> ActionPotential {
    if !m.active && m.charge.v() >= m.rest_charge.v() {
        ActionPotential { acceleration: m.max_acceleration, active: true, ..m }
    } else {
        m
    }
}

impl ActionPotential {
    pub fn new(threshold: Fx, max_acceleration: Fx, conductivity: Fx) -> (r: ActionPotential)
        ensures
            r == (ActionPotential {
                charge: Fx { raw: 0 },
                old_charge: Fx { raw: 0 },
                acceleration: Fx { raw: 0 },
                max_acceleration,
                active: false,
                threshold,
                rest_charge: Fx { raw: 0 },
                conductivity,
            }),
    {
        ActionPotential {
            charge: Fx { raw: 0 },
            old_charge: Fx { raw: 0 },
            acceleration: Fx { raw: 0 },
            max_acceleration,
            active: false,
            threshold,
            rest_charge: Fx { raw: 0 },
            conductivity,
        }
    }

    pub fn get_charge(&self) -> (r: Fx)
        ensures
            r == self.charge,
    {
        self.charge
    }

    pub fn get_discharge(&self) -> (r: Fx)
        ensures
            r.v() == ap_discharge(*self),
    {
        if self.charge.raw >= self.threshold.raw {
            self.charge.sub(self.threshold)
        } else {
            Fx { raw: 0 }
        }
    }

    pub fn update(&mut self, dt: Fx)
        ensures
            *final(self) == ap_updated(*old(self), dt.v()),
    {
        let two = Fx { raw: 2 * crate::fixed::SCALE };
        let new_charge = self.charge.mul(two).sub(self.old_charge).add(
            self.acceleration.mul(dt).mul(dt),
        );

        self.old_charge = self.charge;
        self.charge = new_charge;

        if self.charge.raw > self.threshold.raw {
            self.acceleration = self.max_acceleration.neg();
        }

        if self.charge.raw < self.rest_charge.raw {
            self.acceleration = self.max_acceleration;
            self.active = false;
        }

        if self.charge.raw > self.rest_charge.raw && !self.active {
            self.charge = self.rest_charge;
            self.old_charge = self.rest_charge;
            self.acceleration = Fx { raw: 0 };
        }
    }

    pub fn charge(&mut self, amount: Fx)
        ensures
            *final(self) == ap_charged(*old(self)),
    {
        if !self.active && self.charge.raw >= self.rest_charge.raw {
            self.acceleration = self.max_acceleration;
            self.active = true;
        }
    }

    /// A deep copy, so DNA reuse across generations cannot alias state.
    pub fn copy(&self) -> (r: ActionPotential)
        ensures
            r == *self,
    {
        *self
    }
}

/// The refractory property of the action potential, part one: while the
/// model is active, a stimulus is ignored entirely.
pub proof fn lemma_active_ignores_stimulus(m: ActionPotential)
    requires
        m.active,
    ensures
        ap_charged(m) == m,
{
}

/// The refractory property, part two: an update ends an active phase
/// exactly when the Verlet-advanced charge has fallen below the rest
/// charge, i.e. the downstroke must complete before a further stimulus can
/// take effect through `ap_charged`.
pub proof fn lemma_active_ends_below_rest(m: ActionPotential, dt: int)
    requires
        m.active,
    ensures
        ap_updated(m, dt).active == (ap_verlet_charge(m, dt) >= m.rest_charge.v()),
{
}

/// The refractory property in one step: once triggered, the model must
/// complete its cycle before a further stimulus takes effect — after an
/// update of an active model a stimulus is still ignored, unless that very
/// update's Verlet stage carried the charge below the rest charge and so
/// ended the cycle.
pub proof fn lemma_refractory_step(m: ActionPotential, dt: int)
    requires
        m.active,
    ensures
        ap_verlet_charge(m, dt) >= m.rest_charge.v() ==> ap_charged(ap_updated(m, dt))
            == ap_updated(m, dt),
{
    lemma_active_ends_below_rest(m, dt);
    if ap_verlet_charge(m, dt) >= m.rest_charge.v() {
        lemma_active_ignores_stimulus(ap_updated(m, dt));
    }
}

// ---------------------------------------------------------------------------
// ChargeModel
// ---------------------------------------------------------------------------
/// The closed set of charge models a cell can own.
#[derive(Clone, Copy, PartialEq, Eq, Structural, Debug)]
pub enum ChargeModel {
    Pulse(Pulse),
    ActionPotential(ActionPotential),
}

/// The model after one `dt` step.
pub open spec fn model_updated(m: ChargeModel, dt: int) -> ChargeModel {
    match m {
        ChargeModel::Pulse(p) => ChargeModel::Pulse(pulse_updated(p, dt)),
        ChargeModel::ActionPotential(a) => ChargeModel::ActionPotential(ap_updated(a, dt)),
    }
}

/// The model's current charge.
pub open spec fn model_charge(m: ChargeModel) -> int {
    match m {
        ChargeModel::Pulse(p) => p.charge.v(),
        ChargeModel::ActionPotential(a) => a.charge.v(),
    }
}

/// The model's current discharge.
pub open spec fn model_discharge(m: ChargeModel) -> int {
    match m {
        ChargeModel::Pulse(p) => pulse_discharge(p),
        ChargeModel::ActionPotential(a) => ap_discharge(a),
    }
}

/// The model after receiving a stimulus.
pub open spec fn model_charged(m: ChargeModel) -> ChargeModel {
    match m {
        ChargeModel::Pulse(p) => ChargeModel::Pulse(p),
        ChargeModel::ActionPotential(a) => ChargeModel::ActionPotential(ap_charged(a)),
    }
}

/// Stimulating a model twice is the same as stimulating it once: the
/// first stimulus that takes effect leaves the model active, and an active
/// model ignores stimuli.
pub proof fn lemma_model_charged_idempotent(m: ChargeModel)
    ensures
        model_charged(model_charged(m)) == model_charged(m),
{
}

impl ChargeModel {
    pub fn get_charge(&self) -> (r: Fx)
        ensures
            r.v() == model_charge(*self),
    {
        match self {
            ChargeModel::Pulse(p) => p.get_charge(),
            ChargeModel::ActionPotential(a) => a.get_charge(),
        }
    }

    pub fn get_discharge(&self) -> (r: Fx)
        ensures
            r.v() == model_discharge(*self),
    {
        match self {
            ChargeModel::Pulse(p) => p.get_discharge(),
            ChargeModel::ActionPotential(a) => a.get_discharge(),
        }
    }

    pub fn update(&mut self, dt: Fx)
        ensures
            *final(self) == model_updated(*old(self), dt.v()),
    {
        match self {
            ChargeModel::Pulse(p) => p.update(dt),
            ChargeModel::ActionPotential(a) => a.update(dt),
        }
    }

    pub fn charge(&mut self, amount: Fx)
        ensures
            *final(self) == model_charged(*old(self)),
    {
        match self {
            ChargeModel::Pulse(p) => p.charge(amount),
            ChargeModel::ActionPotential(a) => a.charge(amount),
        }
    }

    /// A deep copy, so DNA reuse across generations cannot alias state.
    pub fn copy(&self) -> (r: ChargeModel)
        ensures
            r == *self,
    {
        *self
    }
}

} // verus!
