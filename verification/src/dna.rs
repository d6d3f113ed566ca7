//! Genetic representation: per-cell DNA records, random generation within
//! configured ranges, and the single-field mutation operator.

use crate::config::{mutation_config_wf, range_wf, MutationConfig, MutationRange};
use crate::fixed::{fx_clamp, fx_mul, lemma_fx_mul_unit_bound, Fx, SCALE};
use crate::rng;
use vstd::prelude::*;

verus! {

/// Five scalars steering one cell: stimulus conductivity, spring-length
/// reactivity, spring stiffness, activity level, and the charge rate that
/// also selects the charge model.
#[derive(Clone, Copy, PartialEq, Eq, Structural, Debug)]
pub struct CellDna {
    pub conductivity: Fx,
    pub reactivity: Fx,
    pub toughness: Fx,
    pub active: Fx,
    pub charge_rate: Fx,
}

/// One cell record per grid square, in row-major order.
pub type CreatureDna = Vec<CellDna>;

/// `x` lies within the range.
pub open spec fn in_range(x: int, r: MutationRange) -> bool {
    r.min.v() <= x <= r.max.v()
}

/// Every field of the cell lies within its configured range.
pub open spec fn cell_dna_in_ranges(c: CellDna, config: MutationConfig) -> bool {
    in_range(c.conductivity.v(), config.conductivity) && in_range(
        c.reactivity.v(),
        config.reactivity,
    ) && in_range(c.toughness.v(), config.toughness) && in_range(c.active.v(), config.active)
        && in_range(c.charge_rate.v(), config.charge_rate)
}

/// Every cell of the DNA has all fields within their configured ranges.
pub open spec fn dna_in_ranges(d: Seq<CellDna>, config: MutationConfig) -> bool {
    forall|i: int| 0 <= i < d.len() ==> cell_dna_in_ranges(#[trigger] d[i], config)
}

fn generate_field(range: MutationRange) -> (r: Fx)
    requires
        range_wf(range),
    ensures
        in_range(r.v(), range),
{
    let u = rng::rand_unit();
    let d = range.max.sub(range.min);
    let t = u.mul(d);
    proof {
        lemma_fx_mul_unit_bound(u.v(), d.v());
    }
    range.min.add(t)
}

/// Produce `length` cell records, each field drawn independently and
/// uniformly from its configured range.
pub fn generate_dna(length: usize, config: MutationConfig) -> (r: CreatureDna)
    requires
        mutation_config_wf(config),
    ensures
        r@.len() == length,
        dna_in_ranges(r@, config),
{
    let mut dna: CreatureDna = Vec::new();
    for i in 0..length
        invariant
            dna@.len() == i,
            dna_in_ranges(dna@, config),
            mutation_config_wf(config),
    {
        dna.push(
            CellDna {
                conductivity: generate_field(config.conductivity),
                reactivity: generate_field(config.reactivity),
                toughness: generate_field(config.toughness),
                active: generate_field(config.active),
                charge_rate: generate_field(config.charge_rate),
            },
        );
    }
    dna
}

/// One field value after mutation: scaled by the multiplier, then clamped
/// into its configured range.
pub open spec fn mutated_field(value: int, multiplier: int, r: MutationRange) -> int {
    fx_clamp(fx_mul(value, multiplier), r.min.v(), r.max.v())
}

fn apply_mutation(value: Fx, multiplier: Fx, range: MutationRange) -> (r: Fx)
    requires
        range_wf(range),
    ensures
        r.v() == mutated_field(value.v(), multiplier.v(), range),
{
    value.mul(multiplier).clamp(range.min, range.max)
}

/// The cell after overwriting one field (1 reactivity, 2 toughness,
/// 3 active, 4 charge rate, anything else conductivity) with its mutated
/// value.
pub open spec fn cell_mutated(
    cell: CellDna,
    field: int,
    multiplier: int,
    config: MutationConfig,
) -> CellDna {
    if field == 1 {
        CellDna {
            reactivity: Fx {
                raw: mutated_field(cell.reactivity.v(), multiplier, config.reactivity) as i64,
            },
            ..cell
        }
    } else if field == 2 {
        CellDna {
            toughness: Fx {
                raw: mutated_field(cell.toughness.v(), multiplier, config.toughness) as i64,
            },
            ..cell
        }
    } else if field == 3 {
        CellDna {
            active: Fx { raw: mutated_field(cell.active.v(), multiplier, config.active) as i64 },
            ..cell
        }
    } else if field == 4 {
        CellDna {
            charge_rate: Fx {
                raw: mutated_field(cell.charge_rate.v(), multiplier, config.charge_rate) as i64,
            },
            ..cell
        }
    } else {
        CellDna {
            conductivity: Fx {
                raw: mutated_field(cell.conductivity.v(), multiplier, config.conductivity) as i64,
            },
            ..cell
        }
    }
}

fn mutate_cell(cell: &mut CellDna, field: i64, multiplier: Fx, config: MutationConfig)
    requires
        mutation_config_wf(config),
    ensures
        *final(cell) == cell_mutated(*old(cell), field as int, multiplier.v(), config),
{
    if field == 1 {
        cell.reactivity = apply_mutation(cell.reactivity, multiplier, config.reactivity);
    } else if field == 2 {
        cell.toughness = apply_mutation(cell.toughness, multiplier, config.toughness);
    } else if field == 3 {
        cell.active = apply_mutation(cell.active, multiplier, config.active);
    } else if field == 4 {
        cell.charge_rate = apply_mutation(cell.charge_rate, multiplier, config.charge_rate);
    } else {
        cell.conductivity = apply_mutation(cell.conductivity, multiplier, config.conductivity);
    }
}

/// `r` and `d` agree everywhere except possibly at index `k`.
pub open spec fn unchanged_except(r: Seq<CellDna>, d: Seq<CellDna>, k: int) -> bool {
    forall|i: int| 0 <= i < d.len() && i != k ==> r[i] == #[trigger] d[i]
}

/// `child` is `parent` with one field overwritten by a mutated value.
pub open spec fn is_cell_mutation(parent: CellDna, child: CellDna, config: MutationConfig) -> bool {
    exists|field: int, multiplier: int|
        0 <= field < 5 && child == cell_mutated(parent, field, multiplier, config)
}

proof fn lemma_cell_mutation_in_ranges(
    parent: CellDna,
    field: int,
    multiplier: int,
    config: MutationConfig,
)
    requires
        mutation_config_wf(config),
        cell_dna_in_ranges(parent, config),
    ensures
        cell_dna_in_ranges(cell_mutated(parent, field, multiplier, config), config),
{
}

/// `r` is a possible mutation of `d`: the same length, at most one cell
/// changed, a changed cell differing in one mutated field, and every field
/// still within its configured range whenever `d`'s fields were.
pub open spec fn is_mutation_of(d: Seq<CellDna>, r: Seq<CellDna>, config: MutationConfig) -> bool {
    &&& r.len() == d.len()
    &&& forall|i: int|
        0 <= i < d.len() ==> #[trigger] r[i] == d[i] || is_cell_mutation(d[i], r[i], config)
    &&& exists|k: int| #[trigger] unchanged_except(r, d, k)
    &&& (dna_in_ranges(d, config) ==> dna_in_ranges(r, config))
}

/// With probability `1 - chance`, overwrite one random field of one random
/// cell by `value * m` clamped into its configured range, where `m` is a
/// signed multiplier of magnitude at most `strength`; otherwise return an
/// unchanged copy.  At most one cell changes per call, and DNA whose
/// fields lie within their configured ranges stays within them.
pub fn mutate_dna(dna: &CreatureDna, config: MutationConfig) -> (r: CreatureDna)
    requires
        mutation_config_wf(config),
        0 < dna@.len() <= i64::MAX,
    ensures
        is_mutation_of(dna@, r@, config),
{
    let mut new_dna: CreatureDna = Vec::new();
    let n = dna.len();
    for i in 0..n
        invariant
            new_dna@.len() == i,
            n == dna@.len(),
            forall|j: int| 0 <= j < i ==> #[trigger] new_dna@[j] == dna@[j],
    {
        new_dna.push(dna[i]);
    }

    let chance_roll = rng::rand_unit();
    if chance_roll.raw > config.chance.raw {
        let id = rng::rand_below(n as i64) as usize;
        let field = rng::rand_below(5);
        let u = rng::rand_unit();
        let multiplier = u.mul(Fx { raw: 2 * SCALE }).sub(Fx { raw: SCALE }).mul(config.strength);

        let mut cell = new_dna[id];
        mutate_cell(&mut cell, field, multiplier, config);
        new_dna.set(id, cell);
        proof {
            assert(unchanged_except(new_dna@, dna@, id as int));
            if dna_in_ranges(dna@, config) {
                lemma_cell_mutation_in_ranges(
                    dna@[id as int],
                    field as int,
                    multiplier.v(),
                    config,
                );
                assert(forall|i: int|
                    0 <= i < new_dna@.len() ==> cell_dna_in_ranges(#[trigger] new_dna@[i], config));
            }
        }
    } else {
        proof {
            assert(unchanged_except(new_dna@, dna@, 0));
        }
    }
    new_dna
}

} // verus!
