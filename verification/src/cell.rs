//! One quad of the creature grid: four particle indices, six springs, one
//! charge model and the cell's DNA.

use crate::charge::{model_charge, ActionPotential, ChargeModel, Pulse};
use crate::config::CreatureConfig;
use crate::dna::CellDna;
use crate::fixed::{fx_add, fx_mul, Fx, SCALE};
use crate::particle::Particle;
use crate::spring::{spring_applied, spring_wf, Spring};
use vstd::prelude::*;

verus! {

pub struct Cell {
    pub dna: CellDna,
    pub springs: Vec<Spring>,
    pub charge_model: ChargeModel,
    /// `(row, col)` of the cell within the creature grid.
    pub pos: (usize, usize),
}

/// The cell owns exactly 6 springs, all addressing the particle pool.
pub open spec fn cell_wf(c: Cell, n_particles: int) -> bool {
    c.springs.len() == 6 && (forall|i: int|
        0 <= i < c.springs@.len() ==> spring_wf(#[trigger] c.springs@[i], n_particles))
}

/// The particle pool after the springs have been applied in order.
pub open spec fn springs_applied(ps: Seq<Particle>, springs: Seq<Spring>) -> Seq<Particle>
    decreases springs.len(),
{
    if springs.len() == 0 {
        ps
    } else {
        springs_applied(spring_applied(ps, springs[0]), springs.drop_first())
    }
}

pub proof fn lemma_springs_applied_push(ps: Seq<Particle>, ss: Seq<Spring>, s: Spring)
    ensures
        springs_applied(ps, ss.push(s)) == spring_applied(springs_applied(ps, ss), s),
    decreases ss.len(),
{
    reveal_with_fuel(springs_applied, 3);
    if ss.len() == 0 {
        assert(ss.push(s)[0] == s);
        assert(ss.push(s).drop_first() =~= Seq::<Spring>::empty());
    } else {
        assert(ss.push(s)[0] == ss[0]);
        assert(ss.push(s).drop_first() =~= ss.drop_first().push(s));
        lemma_springs_applied_push(spring_applied(ps, ss[0]), ss.drop_first(), s);
    }
}

pub proof fn lemma_springs_applied_len(ps: Seq<Particle>, ss: Seq<Spring>)
    requires
        forall|i: int| 0 <= i < ss.len() ==> spring_wf(#[trigger] ss[i], ps.len() as int),
    ensures
        springs_applied(ps, ss).len() == ps.len(),
    decreases ss.len(),
{
    if ss.len() > 0 {
        crate::spring::lemma_spring_applied_len(ps, ss[0]);
        assert(forall|i: int|
            0 <= i < ss.drop_first().len() ==> #[trigger] ss.drop_first()[i] == ss[i + 1]);
        lemma_springs_applied_len(spring_applied(ps, ss[0]), ss.drop_first());
    }
}

/// The cell's spring rest-length multiplier: `1 + charge * reactivity`.
pub open spec fn cell_len_mult(c: Cell) -> int {
    fx_add(SCALE as int, fx_mul(model_charge(c.charge_model), c.dna.reactivity.v()))
}

/// A spring with its rest length retargeted to `start_length * mult`; a
/// negative product saturates at zero to avoid inversion.
pub open spec fn retargeted(s: Spring, mult: int) -> Spring {
    let l = fx_mul(s.start_length.v(), mult);
    Spring {
        length: Fx {
            raw: if l < 0 {
                0
            } else {
                l as i64
            },
        },
        ..s
    }
}

/// All six springs of the cell, retargeted by the cell's multiplier.
pub open spec fn retargeted_springs(c: Cell) -> Seq<Spring> {
    c.springs@.map_values(|s: Spring| retargeted(s, cell_len_mult(c)))
}

impl Cell {
    /// Retarget each spring's rest length by the current charge, then
    /// apply every spring to the particle pool.
    pub fn update(&mut self, particles: &mut Vec<Particle>, dt: Fx)
        requires
            cell_wf(*old(self), old(particles).len() as int),
        ensures
            final(particles)@ == springs_applied(old(particles)@, retargeted_springs(*old(self))),
            final(particles).len() == old(particles).len(),
            final(self).springs@ == retargeted_springs(*old(self)),
            final(self).dna == old(self).dna,
            final(self).charge_model == old(self).charge_model,
            final(self).pos == old(self).pos,
    {
        let ghost orig = *self;
        let ghost orig_ps = particles@;
        let ghost rs = retargeted_springs(orig);
        let charge = self.charge_model.get_charge();
        let len_mult = Fx { raw: SCALE }.add(charge.mul(self.dna.reactivity));
        let n = self.springs.len();
        for i in 0..n
            invariant
                n == 6,
                self.springs.len() == 6,
                cell_wf(orig, orig_ps.len() as int),
                len_mult.v() == cell_len_mult(orig),
                rs == retargeted_springs(orig),
                particles@ == springs_applied(orig_ps, rs.take(i as int)),
                particles.len() == orig_ps.len(),
                forall|j: int| i <= j < 6 ==> self.springs@[j] == orig.springs@[j],
                forall|j: int| 0 <= j < i ==> self.springs@[j] == rs[j],
                self.dna == orig.dna,
                self.charge_model == orig.charge_model,
                self.pos == orig.pos,
        {
            let s = self.springs[i];
            let new_len = s.start_length.mul(len_mult);
            let new_len = if new_len.raw < 0 {
                Fx { raw: 0 }
            } else {
                new_len
            };
            let retuned = Spring { length: new_len, ..s };
            self.springs.set(i, retuned);
            proof {
                assert(s == orig.springs@[i as int]);
                assert(retuned == rs[i as int]);
                assert(spring_wf(orig.springs@[i as int], orig_ps.len() as int));
                assert(spring_wf(retuned, orig_ps.len() as int));
                assert(forall|j: int|
                    0 <= j < rs.take(i as int).len() ==> #[trigger] rs.take(i as int)[j] == rs[j]
                        && rs[j] == retargeted(orig.springs@[j], cell_len_mult(orig)));
                assert(forall|j: int|
                    0 <= j < rs.take(i as int).len() ==> spring_wf(
                        #[trigger] rs.take(i as int)[j],
                        orig_ps.len() as int,
                    ));
                lemma_springs_applied_len(orig_ps, rs.take(i as int));
            }
            let sp = self.springs[i];
            sp.apply(particles);
            proof {
                lemma_springs_applied_push(orig_ps, rs.take(i as int), rs[i as int]);
                assert(rs.take(i as int).push(rs[i as int]) =~= rs.take(i as int + 1));
            }
        }
        proof {
            assert(rs.take(6) =~= rs);
            assert(self.springs@ =~= retargeted_springs(orig));
        }
    }

    /// Build the six springs of a quad (4 edges, 2 diagonals) from the four
    /// vertex indices, and pick the charge model: a pulse when the DNA
    /// charge rate exceeds the configured pulse threshold, an action
    /// potential otherwise.
    pub fn new(
        cell_ids: [usize; 4],
        options: CreatureConfig,
        dna: CellDna,
        pos: (usize, usize),
    ) -> (r: Cell)
        ensures
            r.dna == dna,
            r.pos == pos,
            r.springs.len() == 6,
            r.springs@[0] == edge_spring(cell_ids@[0], cell_ids@[1], dna, options),
            r.springs@[1] == edge_spring(cell_ids@[1], cell_ids@[2], dna, options),
            r.springs@[2] == edge_spring(cell_ids@[2], cell_ids@[3], dna, options),
            r.springs@[3] == edge_spring(cell_ids@[3], cell_ids@[0], dna, options),
            r.springs@[4] == diagonal_spring(cell_ids@[0], cell_ids@[2], dna, options),
            r.springs@[5] == diagonal_spring(cell_ids@[3], cell_ids@[1], dna, options),
            r.charge_model == initial_model(dna, options),
    {
        let diagonal = options.cell_size.mul(options.cell_size).mul(Fx { raw: 2 * SCALE }).sqrt();
        let mut springs: Vec<Spring> = Vec::new();
        springs.push(
            Spring {
                a_id: cell_ids[0],
                b_id: cell_ids[1],
                k: dna.toughness,
                length: options.cell_size,
                start_length: options.cell_size,
            },
        );
        springs.push(
            Spring {
                a_id: cell_ids[1],
                b_id: cell_ids[2],
                k: dna.toughness,
                length: options.cell_size,
                start_length: options.cell_size,
            },
        );
        springs.push(
            Spring {
                a_id: cell_ids[2],
                b_id: cell_ids[3],
                k: dna.toughness,
                length: options.cell_size,
                start_length: options.cell_size,
            },
        );
        springs.push(
            Spring {
                a_id: cell_ids[3],
                b_id: cell_ids[0],
                k: dna.toughness,
                length: options.cell_size,
                start_length: options.cell_size,
            },
        );
        springs.push(
            Spring {
                a_id: cell_ids[0],
                b_id: cell_ids[2],
                k: dna.toughness,
                length: diagonal,
                start_length: diagonal,
            },
        );
        springs.push(
            Spring {
                a_id: cell_ids[3],
                b_id: cell_ids[1],
                k: dna.toughness,
                length: diagonal,
                start_length: diagonal,
            },
        );

        let charge_model = if dna.charge_rate.raw > options.pulse_threshold.raw {
            ChargeModel::Pulse(
                Pulse::new(
                    dna.charge_rate.mul(Fx { raw: SCALE / 2 }),
                    options.charge_threshold,
                    options.discharge_threshold,
                ),
            )
        } else {
            ChargeModel::ActionPotential(
                ActionPotential::new(
                    options.discharge_threshold,
                    options.charge_accel,
                    dna.conductivity,
                ),
            )
        };

        Cell { dna, springs, charge_model, pos }
    }
}

/// An edge spring of a quad: rest length `cell_size`, stiffness from the
/// DNA toughness.
pub open spec fn edge_spring(a: usize, b: usize, dna: CellDna, options: CreatureConfig) -> Spring {
    Spring {
        a_id: a,
        b_id: b,
        k: dna.toughness,
        length: options.cell_size,
        start_length: options.cell_size,
    }
}

/// The raw rest length of a quad's diagonal: `sqrt(cell_size^2 * 2)`.
pub open spec fn diagonal_len(options: CreatureConfig) -> int {
    crate::fixed::fx_sqrt(fx_mul(fx_mul(options.cell_size.v(), options.cell_size.v()), 2_000_000))
}

/// A diagonal spring of a quad.
pub open spec fn diagonal_spring(a: usize, b: usize, dna: CellDna, options: CreatureConfig) -> Spring {
    Spring {
        a_id: a,
        b_id: b,
        k: dna.toughness,
        length: Fx { raw: diagonal_len(options) as i64 },
        start_length: Fx { raw: diagonal_len(options) as i64 },
    }
}

/// The charge model a cell starts with: a pulse running at half the DNA
/// charge rate when that rate exceeds the pulse threshold, an action
/// potential otherwise.
pub open spec fn initial_model(dna: CellDna, options: CreatureConfig) -> ChargeModel {
    if dna.charge_rate.v() > options.pulse_threshold.v() {
        ChargeModel::Pulse(
            Pulse {
                charge_rate: Fx { raw: fx_mul(dna.charge_rate.v(), (SCALE as int) / 2) as i64 },
                charge: Fx { raw: 0 },
                threshold: options.charge_threshold,
                reset_threshold: options.discharge_threshold,
            },
        )
    } else {
        ChargeModel::ActionPotential(
            ActionPotential {
                charge: Fx { raw: 0 },
                old_charge: Fx { raw: 0 },
                acceleration: Fx { raw: 0 },
                max_acceleration: options.charge_accel,
                active: false,
                threshold: options.discharge_threshold,
                rest_charge: Fx { raw: 0 },
                conductivity: dna.conductivity,
            },
        )
    }
}

} // verus!
