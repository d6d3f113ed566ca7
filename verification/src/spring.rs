//! A Hookean spring between two particle indices of a creature's pool.

use crate::fixed::{fx_add, fx_div, fx_mul, fx_neg, fx_sub, Fx};
use crate::particle::{accelerated, Particle};
use crate::vec2::{norm, Vec2};
use vstd::prelude::*;

verus! {

#[derive(Clone, Copy, PartialEq, Eq, Structural, Debug)]
pub struct Spring {
    pub a_id: usize,
    pub b_id: usize,
    pub k: Fx,
    /// Current rest length; rewritten by the owning cell every step.
    pub length: Fx,
    /// Rest length the spring was built with.
    pub start_length: Fx,
}

/// The spring's endpoint indices address the particle pool and differ.
pub open spec fn spring_wf(s: Spring, n_particles: int) -> bool {
    s.a_id < n_particles && s.b_id < n_particles && s.a_id != s.b_id
}

/// Raw distance between the spring's endpoints.
pub open spec fn spring_dist(ps: Seq<Particle>, s: Spring) -> int {
    let a = ps[s.a_id as int];
    let b = ps[s.b_id as int];
    norm(
        fx_sub(a.position.x.v(), b.position.x.v()),
        fx_sub(a.position.y.v(), b.position.y.v()),
    )
}

/// The particle pool after the spring's force has been accumulated into the
/// accelerations of its two endpoints.  Coincident endpoints (distance 0)
/// leave the pool unchanged: the force has no defined direction there.
pub open spec fn spring_applied(ps: Seq<Particle>, s: Spring) -> Seq<Particle> {
    let a = ps[s.a_id as int];
    let b = ps[s.b_id as int];
    let dx = fx_sub(a.position.x.v(), b.position.x.v());
    let dy = fx_sub(a.position.y.v(), b.position.y.v());
    let dist = norm(dx, dy);
    if dist == 0 {
        ps
    } else {
        let fmag = fx_mul(s.k.v(), fx_sub(dist, s.length.v()));
        let ux = fx_div(dx, dist);
        let uy = fx_div(dy, dist);
        let a2 = accelerated(
            a,
            fx_div(fx_mul(ux, fx_neg(fmag)), a.mass.v()),
            fx_div(fx_mul(uy, fx_neg(fmag)), a.mass.v()),
        );
        let b2 = accelerated(
            b,
            fx_div(fx_mul(ux, fmag), b.mass.v()),
            fx_div(fx_mul(uy, fmag), b.mass.v()),
        );
        ps.update(s.a_id as int, a2).update(s.b_id as int, b2)
    }
}

pub proof fn lemma_spring_applied_len(ps: Seq<Particle>, s: Spring)
    requires
        spring_wf(s, ps.len() as int),
    ensures
        spring_applied(ps, s).len() == ps.len(),
{
}

impl Spring {
    /// Accumulate the spring force `k * (dist - length)` into both
    /// endpoints' accelerations, pulling them together when extended.
    pub fn apply(&self, particles: &mut Vec<Particle>)
        requires
            spring_wf(*self, old(particles).len() as int),
        ensures
            final(particles)@ == spring_applied(old(particles)@, *self),
            final(particles).len() == old(particles).len(),
            spring_dist(old(particles)@, *self) == self.length.v() ==> final(particles)@ == old(
                particles,
            )@,
    {
        proof {
            if spring_dist(old(particles)@, *self) == self.length.v() {
                lemma_spring_at_rest(old(particles)@, *self);
            }
        }
        let a = particles[self.a_id];
        let b = particles[self.b_id];
        let dir = a.position.sub(b.position);
        let dist = dir.len();
        if dist.raw == 0 {
            proof {
                assert(final(particles)@ =~= spring_applied(old(particles)@, *self));
            }
            return ;
        }
        let force_mag = self.k.mul(dist.sub(self.length));
        let unit_dir = dir.div_by(dist);

        let mut pa = particles[self.a_id];
        pa.add_force(unit_dir.scale(force_mag.neg()));
        particles.set(self.a_id, pa);

        let mut pb = particles[self.b_id];
        pb.add_force(unit_dir.scale(force_mag));
        particles.set(self.b_id, pb);
    }
}

/// A spring exactly at its rest length applies no force: when the distance
/// between the endpoints equals the current rest length, applying the
/// spring leaves every particle (accelerations included) unchanged.
pub proof fn lemma_spring_at_rest(ps: Seq<Particle>, s: Spring)
    requires
        spring_wf(s, ps.len() as int),
        spring_dist(ps, s) == s.length.v(),
    ensures
        spring_applied(ps, s) == ps,
{
    let a = ps[s.a_id as int];
    let b = ps[s.b_id as int];
    let dx = fx_sub(a.position.x.v(), b.position.x.v());
    let dy = fx_sub(a.position.y.v(), b.position.y.v());
    let dist = norm(dx, dy);
    if dist != 0 {
        let fmag = fx_mul(s.k.v(), fx_sub(dist, s.length.v()));
        assert(fx_sub(dist, s.length.v()) == 0);
        assert(fmag == 0) by (nonlinear_arith)
            requires
                fmag == fx_mul(s.k.v(), 0),
        ;
        let ux = fx_div(dx, dist);
        let uy = fx_div(dy, dist);
        assert(fx_mul(ux, fx_neg(fmag)) == 0) by (nonlinear_arith)
            requires
                fmag == 0,
        ;
        assert(fx_mul(uy, fx_neg(fmag)) == 0) by (nonlinear_arith)
            requires
                fmag == 0,
        ;
        assert(fx_mul(ux, fmag) == 0) by (nonlinear_arith)
            requires
                fmag == 0,
        ;
        assert(fx_mul(uy, fmag) == 0) by (nonlinear_arith)
            requires
                fmag == 0,
        ;
        assert(accelerated(a, 0, 0) == a);
        assert(accelerated(b, 0, 0) == b);
        assert(spring_applied(ps, s) =~= ps);
    }
}

} // verus!
