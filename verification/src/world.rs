//! The world: a container of creatures under gravity with ground contact
//! and friction.

use crate::config::WorldConfig;
use crate::creature::{all_cells_applied, creature_wf, Creature};
use crate::fixed::{fx_mul, fx_neg, fx_sub, Fx};
use crate::particle::{accelerated, integrated, Particle};
use crate::vec2::Vec2;
use vstd::prelude::*;

verus! {

pub struct World {
    pub creatures: Vec<Creature>,
    pub ground_y: Fx,
    pub ground_friction: Fx,
    pub gravity: Fx,
}

/// Every creature of the world is well formed.
pub open spec fn world_wf(w: World) -> bool {
    forall|i: int| 0 <= i < w.creatures@.len() ==> creature_wf(#[trigger] w.creatures@[i])
}

/// One particle after the force pass: gravity accumulated, and if it sits
/// on or below the ground line, a horizontal friction impulse proportional
/// to its horizontal velocity is accumulated as well.
pub open spec fn gravity_frictioned(p: Particle, gravity: int, friction: int, ground: int) -> Particle {
    let p1 = accelerated(p, 0, gravity);
    if p1.position.y.v() >= ground {
        let vel = fx_sub(p1.position.x.v(), p1.old_position.x.v());
        accelerated(p1, fx_mul(fx_mul(vel, fx_neg(friction)), gravity), 0)
    } else {
        p1
    }
}

/// One particle after the clamp pass: its height saturated at the ground
/// line.
pub open spec fn ground_clamped(p: Particle, ground: int) -> Particle {
    if p.position.y.v() > ground {
        Particle { position: Vec2 { x: p.position.x, y: Fx { raw: ground as i64 } }, ..p }
    } else {
        p
    }
}

/// Relation between a creature and its state after one world substep: the
/// force pass runs over the pool, then the creature step on that pool, and
/// finally every particle is clamped to the ground line.
pub open spec fn creature_world_stepped(
    oldc: Creature,
    newc: Creature,
    dt: int,
    gravity: int,
    friction: int,
    ground: int,
) -> bool {
    &&& newc.size == oldc.size
    &&& newc.cells.len() == oldc.cells.len()
    &&& newc.particles.len() == oldc.particles.len()
    &&& forall|i: int|
        0 <= i < oldc.cells@.len() ==> crate::creature::cell_geometry_stepped(
            oldc.cells@[i],
            #[trigger] newc.cells@[i],
        )
    &&& forall|i: int|
        0 <= i < oldc.cells@.len() ==> (#[trigger] newc.cells@[i]).charge_model
            == crate::creature::stepped_model(oldc.cells@, dt, i)
    &&& newc.particles@ == all_cells_applied(
        oldc.particles@.map_values(|p: Particle| gravity_frictioned(p, gravity, friction, ground)),
        oldc.cells@,
    ).map_values(|p: Particle| integrated(p, dt)).map_values(
        |p: Particle| ground_clamped(p, ground),
    )
}

/// Every particle of the creature sits at or above the ground line.
pub open spec fn creature_above_ground(c: Creature, ground: int) -> bool {
    forall|k: int|
        0 <= k < c.particles@.len() ==> (#[trigger] c.particles@[k]).position.y.v() <= ground
}

/// Relation between a world and its state after one `update(dt)` substep.
pub open spec fn world_step_rel(w0: World, w1: World, dt: int) -> bool {
    &&& w1.creatures.len() == w0.creatures.len()
    &&& w1.ground_y == w0.ground_y
    &&& w1.ground_friction == w0.ground_friction
    &&& w1.gravity == w0.gravity
    &&& forall|i: int|
        0 <= i < w0.creatures@.len() ==> creature_world_stepped(
            w0.creatures@[i],
            #[trigger] w1.creatures@[i],
            dt,
            w0.gravity.v(),
            w0.ground_friction.v(),
            w0.ground_y.v(),
        )
}

/// Accumulate gravity into every particle of the pool, and a horizontal
/// friction impulse into every particle in ground contact (on or below
/// the line: the clamp pass parks contacting particles exactly on it).
fn force_pass(creature: &mut Creature, gravity: Fx, friction: Fx, ground_y: Fx)
    ensures
        final(creature).particles@ == old(creature).particles@.map_values(
            |p: Particle| gravity_frictioned(p, gravity.v(), friction.v(), ground_y.v()),
        ),
        final(creature).cells == old(creature).cells,
        final(creature).size == old(creature).size,
{
    let ghost orig_ps = creature.particles@;
    let n = creature.particles.len();
    for k in 0..n
        invariant
            n == orig_ps.len(),
            creature.particles.len() == n,
            creature.cells == old(creature).cells,
            creature.size == old(creature).size,
            forall|j: int| k <= j < n ==> creature.particles@[j] == orig_ps[j],
            forall|j: int|
                0 <= j < k ==> #[trigger] creature.particles@[j] == gravity_frictioned(
                    orig_ps[j],
                    gravity.v(),
                    friction.v(),
                    ground_y.v(),
                ),
    {
        creature.particles[k].accelerate(Vec2 { x: Fx { raw: 0 }, y: gravity });
        let p = creature.particles[k];
        if p.position.y.raw >= ground_y.raw {
            let velocity = p.position.x.sub(p.old_position.x);
            creature.particles[k].accelerate(
                Vec2 { x: velocity.mul(friction.neg()).mul(gravity), y: Fx { raw: 0 } },
            );
        }
    }
    proof {
        assert(creature.particles@ =~= orig_ps.map_values(
            |p: Particle| gravity_frictioned(p, gravity.v(), friction.v(), ground_y.v()),
        ));
    }
}

/// Clamp every particle of the pool to the ground line.  When this pass
/// returns, no particle sits below it.
pub fn clamp_pass(creature: &mut Creature, ground_y: Fx)
    ensures
        final(creature).particles@ == old(creature).particles@.map_values(
            |p: Particle| ground_clamped(p, ground_y.v()),
        ),
        final(creature).cells == old(creature).cells,
        final(creature).size == old(creature).size,
        forall|k: int|
            0 <= k < final(creature).particles@.len()
                ==> (#[trigger] final(creature).particles@[k]).position.y.v() <= ground_y.v(),
{
    let ghost orig_ps = creature.particles@;
    let n = creature.particles.len();
    for k in 0..n
        invariant
            n == orig_ps.len(),
            creature.particles.len() == n,
            creature.cells == old(creature).cells,
            creature.size == old(creature).size,
            forall|j: int| k <= j < n ==> creature.particles@[j] == orig_ps[j],
            forall|j: int|
                0 <= j < k ==> #[trigger] creature.particles@[j] == ground_clamped(
                    orig_ps[j],
                    ground_y.v(),
                ),
            forall|j: int|
                0 <= j < k ==> (#[trigger] creature.particles@[j]).position.y.v() <= ground_y.v(),
    {
        let p = creature.particles[k];
        if p.position.y.raw > ground_y.raw {
            let mut q = p;
            q.position.y = ground_y;
            creature.particles.set(k, q);
        }
    }
    proof {
        assert(creature.particles@ =~= orig_ps.map_values(
            |p: Particle| ground_clamped(p, ground_y.v()),
        ));
    }
}

impl World {
    /// One world substep of `dt`: for each creature, accumulate gravity
    /// and ground friction over its pool, run the creature's own step, and
    /// clamp every particle to the ground line, so that when `update`
    /// returns no particle of any creature sits below it.
    pub fn update(&mut self, dt: Fx)
        requires
            world_wf(*old(self)),
        ensures
            world_step_rel(*old(self), *final(self), dt.v()),
            world_wf(*final(self)),
            forall|i: int|
                0 <= i < final(self).creatures@.len() ==> creature_above_ground(
                    #[trigger] final(self).creatures@[i],
                    final(self).ground_y.v(),
                ),
    {
        let ghost orig = *self;
        let n = self.creatures.len();
        for i in 0..n
            invariant
                world_wf(orig),
                n == orig.creatures@.len(),
                self.creatures.len() == n,
                self.ground_y == orig.ground_y,
                self.ground_friction == orig.ground_friction,
                self.gravity == orig.gravity,
                forall|j: int| i <= j < n ==> self.creatures@[j] == orig.creatures@[j],
                forall|j: int|
                    0 <= j < i ==> creature_world_stepped(
                        orig.creatures@[j],
                        #[trigger] self.creatures@[j],
                        dt.v(),
                        orig.gravity.v(),
                        orig.ground_friction.v(),
                        orig.ground_y.v(),
                    ),
                forall|j: int| 0 <= j < i ==> creature_wf(#[trigger] self.creatures@[j]),
                forall|j: int|
                    0 <= j < i ==> creature_above_ground(
                        #[trigger] self.creatures@[j],
                        orig.ground_y.v(),
                    ),
        {
            let gravity = self.gravity;
            let friction = self.ground_friction;
            let ground_y = self.ground_y;
            let ghost before = self.creatures@[i as int];
            force_pass(&mut self.creatures[i], gravity, friction, ground_y);
            proof {
                assert(before == orig.creatures@[i as int]);
                assert(creature_wf(before));
                assert(self.creatures@[i as int].particles@.len() == before.particles@.len());
                assert(creature_wf(self.creatures@[i as int]));
            }
            self.creatures[i].update(dt);
            let ghost mid = self.creatures@[i as int];
            clamp_pass(&mut self.creatures[i], ground_y);
            proof {
                assert(creature_wf(mid));
                assert(self.creatures@[i as int].particles@.len() == mid.particles@.len());
                assert(creature_wf(self.creatures@[i as int]));
            }
        }
    }

    pub fn add_creature(&mut self, creature: Creature)
        ensures
            final(self).creatures@ == old(self).creatures@.push(creature),
            final(self).ground_y == old(self).ground_y,
            final(self).ground_friction == old(self).ground_friction,
            final(self).gravity == old(self).gravity,
    {
        self.creatures.push(creature);
    }

    pub fn reset(&mut self)
        ensures
            final(self).creatures@.len() == 0,
            final(self).ground_y == old(self).ground_y,
            final(self).ground_friction == old(self).ground_friction,
            final(self).gravity == old(self).gravity,
    {
        self.creatures.clear();
    }

    pub fn from_config(config: WorldConfig) -> (r: World)
        ensures
            r.creatures@.len() == 0,
            r.ground_y == config.ground_y,
            r.ground_friction == config.ground_friction,
            r.gravity == config.gravity,
    {
        World {
            creatures: Vec::new(),
            ground_y: config.ground_y,
            ground_friction: config.ground_friction,
            gravity: config.gravity,
        }
    }
}

} // verus!
