//! The fitness function: mean horizontal displacement of a creature's
//! particles.

use crate::creature::Creature;
use crate::fixed::{fx_add, fx_div, sat, Fx, SCALE};
use crate::particle::Particle;
use vstd::prelude::*;

verus! {

/// Saturating sum of the raw x coordinates of the particles.
pub open spec fn sum_x(ps: Seq<Particle>) -> int
    decreases ps.len(),
{
    if ps.len() == 0 {
        0
    } else {
        fx_add(sum_x(ps.drop_last()), ps.last().position.x.v())
    }
}

/// Mean horizontal position of the creature's particles: the sum of their
/// x coordinates divided by the particle count.
pub open spec fn fitness_of(c: Creature) -> int {
    fx_div(sum_x(c.particles@), sat(c.particles@.len() as int * 1_000_000))
}

/// Map each creature to its mean horizontal displacement; the output
/// aligns positionally with the input.
pub fn fitness_distance(creatures: &Vec<Creature>) -> (r: Vec<Fx>)
    requires
        forall|i: int| 0 <= i < creatures@.len() ==> (#[trigger] creatures@[i]).particles@.len()
            <= i64::MAX,
    ensures
        r@.len() == creatures@.len(),
        forall|i: int| 0 <= i < creatures@.len() ==> (#[trigger] r@[i]).v() == fitness_of(
            creatures@[i],
        ),
{
    let mut r: Vec<Fx> = Vec::new();
    let n = creatures.len();
    for i in 0..n
        invariant
            n == creatures@.len(),
            r@.len() == i,
            forall|j: int| 0 <= j < creatures@.len() ==> (#[trigger] creatures@[j]).particles@.len()
                <= i64::MAX,
            forall|j: int| 0 <= j < i ==> (#[trigger] r@[j]).v() == fitness_of(creatures@[j]),
    {
        let creature = &creatures[i];
        let m = creature.particles.len();
        let mut total = Fx { raw: 0 };
        for k in 0..m
            invariant
                m == creature.particles@.len(),
                total.v() == sum_x(creature.particles@.take(k as int)),
        {
            total = total.add(creature.particles[k].position.x);
            proof {
                assert(creature.particles@.take(k as int + 1).drop_last() =~= creature.particles@
                    .take(k as int));
                assert(creature.particles@.take(k as int + 1).last() == creature.particles@[
                k as int]);
            }
        }
        proof {
            assert(creature.particles@.take(m as int) =~= creature.particles@);
        }
        r.push(total.div(Fx::from_int(m as i64)));
    }
    r
}

} // verus!
