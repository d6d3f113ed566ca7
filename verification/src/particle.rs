//! A Verlet-integrable point mass with damping.

use crate::fixed::{fx_add, fx_div, fx_mul, fx_sub, Fx, SCALE};
use crate::vec2::Vec2;
use vstd::prelude::*;

verus! {

#[derive(Clone, Copy, PartialEq, Eq, Structural, Debug)]
pub struct Particle {
    pub position: Vec2,
    pub old_position: Vec2,
    pub acceleration: Vec2,
    pub mass: Fx,
    pub damping: Fx,
}

/// New raw position of one axis after a Verlet step:
/// The damped velocity of one axis: `(position - old_position) * (1 - damping)`.
pub open spec fn damped_velocity(p: int, old: int, damping: int) -> int {
    fx_mul(fx_sub(p, old), fx_sub(SCALE as int, damping))
}

/// The acceleration kick of one axis over one step: `acceleration * dt * dt`.
pub open spec fn accel_kick(acc: int, dt: int) -> int {
    fx_mul(fx_mul(acc, dt), dt)
}

/// New raw position of one axis after a Verlet step: the position advances
/// by the damped velocity plus half the acceleration kick.
pub open spec fn verlet_axis_pos(p: int, old: int, acc: int, damping: int, dt: int) -> int {
    fx_add(fx_add(p, damped_velocity(p, old, damping)), fx_mul(accel_kick(acc, dt), 500_000))
}

/// New raw old-position of one axis: it absorbs the full kick, so the next
/// step reads the velocity `velocity * (1 - damping) + acceleration * dt * dt`.
pub open spec fn verlet_axis_old(p: int, old: int, acc: int, damping: int, dt: int) -> int {
    fx_sub(
        verlet_axis_pos(p, old, acc, damping, dt),
        fx_add(damped_velocity(p, old, damping), accel_kick(acc, dt)),
    )
}

/// The particle after one Verlet step of `dt`: on each axis the position
/// advances by the damped velocity plus half the kick `a * dt * dt`, the
/// stored velocity grows by the full kick, and the acceleration resets to
/// zero.  Taking only half the kick into the position keeps the scheme
/// consistent with its own velocity: a body accelerated from rest covers
/// exactly `a * t^2 / 2` whatever the substep refinement.
pub open spec fn integrated(p: Particle, dt: int) -> Particle {
    Particle {
        position: Vec2 {
            x: Fx {
                raw: verlet_axis_pos(
                    p.position.x.v(),
                    p.old_position.x.v(),
                    p.acceleration.x.v(),
                    p.damping.v(),
                    dt,
                ) as i64,
            },
            y: Fx {
                raw: verlet_axis_pos(
                    p.position.y.v(),
                    p.old_position.y.v(),
                    p.acceleration.y.v(),
                    p.damping.v(),
                    dt,
                ) as i64,
            },
        },
        old_position: Vec2 {
            x: Fx {
                raw: verlet_axis_old(
                    p.position.x.v(),
                    p.old_position.x.v(),
                    p.acceleration.x.v(),
                    p.damping.v(),
                    dt,
                ) as i64,
            },
            y: Fx {
                raw: verlet_axis_old(
                    p.position.y.v(),
                    p.old_position.y.v(),
                    p.acceleration.y.v(),
                    p.damping.v(),
                    dt,
                ) as i64,
            },
        },
        acceleration: Vec2 { x: Fx { raw: 0 }, y: Fx { raw: 0 } },
        mass: p.mass,
        damping: p.damping,
    }
}

/// The particle with `(ax, ay)` summed into its acceleration.
pub open spec fn accelerated(p: Particle, ax: int, ay: int) -> Particle {
    Particle {
        acceleration: Vec2 {
            x: Fx { raw: fx_add(p.acceleration.x.v(), ax) as i64 },
            y: Fx { raw: fx_add(p.acceleration.y.v(), ay) as i64 },
        },
        ..p
    }
}

impl Particle {
    pub fn integrate(&mut self, dt: Fx)
        ensures
            *final(self) == integrated(*old(self), dt.v()),
    {
        let velocity = self.position.sub(self.old_position);
        let damp_factor = Fx { raw: SCALE }.sub(self.damping);
        let damped = velocity.scale(damp_factor);
        let kick = self.acceleration.scale(dt).scale(dt);
        let new_position = self.position.add(damped).add(kick.scale(Fx { raw: 500_000 }));
        self.old_position = new_position.sub(damped.add(kick));
        self.position = new_position;
        self.acceleration = Vec2::zero();
    }

    pub fn accelerate(&mut self, acceleration: Vec2)
        ensures
            *final(self) == accelerated(*old(self), acceleration.vx(), acceleration.vy()),
    {
        self.acceleration = self.acceleration.add(acceleration);
    }

    /// Sum `force / mass` into the acceleration.
    pub fn add_force(&mut self, force: Vec2)
        ensures
            *final(self) == accelerated(
                *old(self),
                fx_div(force.vx(), old(self).mass.v()),
                fx_div(force.vy(), old(self).mass.v()),
            ),
    {
        let a = force.div_by(self.mass);
        self.accelerate(a);
    }
}

/// Verlet integration preserves velocity when the acceleration and the
/// damping are zero: with `acceleration = 0` every step keeps
/// `position - old_position` constant on both axes, so any run of steps
/// (two consecutive ones in particular) leaves it unchanged, as long as no
/// coordinate saturates the fixed-point range.
pub proof fn lemma_verlet_preserves_velocity(p: Particle, dt: int)
    requires
        p.acceleration.x.v() == 0,
        p.acceleration.y.v() == 0,
        p.damping.v() == 0,
        i64::MIN <= p.position.x.v() - p.old_position.x.v() <= i64::MAX,
        i64::MIN <= p.position.y.v() - p.old_position.y.v() <= i64::MAX,
        i64::MIN <= 2 * p.position.x.v() - p.old_position.x.v() <= i64::MAX,
        i64::MIN <= 2 * p.position.y.v() - p.old_position.y.v() <= i64::MAX,
    ensures
        integrated(p, dt).position.x.v() - integrated(p, dt).old_position.x.v() == p.position.x.v()
            - p.old_position.x.v(),
        integrated(p, dt).position.y.v() - integrated(p, dt).old_position.y.v() == p.position.y.v()
            - p.old_position.y.v(),
        integrated(p, dt).acceleration.x.v() == 0,
        integrated(p, dt).acceleration.y.v() == 0,
        integrated(p, dt).damping.v() == 0,
{
    lemma_verlet_axis_keeps_velocity(p.position.x.v(), p.old_position.x.v(), dt);
    lemma_verlet_axis_keeps_velocity(p.position.y.v(), p.old_position.y.v(), dt);
}

proof fn lemma_verlet_axis_keeps_velocity(p: int, old: int, dt: int)
    requires
        i64::MIN <= p <= i64::MAX,
        i64::MIN <= old <= i64::MAX,
        i64::MIN <= p - old <= i64::MAX,
        i64::MIN <= 2 * p - old <= i64::MAX,
    ensures
        verlet_axis_pos(p, old, 0, 0, dt) == p + (p - old),
        verlet_axis_old(p, old, 0, 0, dt) == p,
{
    let vel = p - old;
    assert(fx_sub(p, old) == vel);
    assert(fx_mul(vel, SCALE as int) == vel) by (nonlinear_arith)
        requires
            i64::MIN <= vel <= i64::MAX,
    ;
    assert(fx_mul(fx_mul(0, dt), dt) == 0) by (nonlinear_arith);
    assert(fx_mul(0, 500_000) == 0);
}

} // verus!
