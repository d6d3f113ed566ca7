//! The generational evolution pipeline: population generation, batched
//! simulation, fitness-based selection and asexual reproduction.

use crate::config::{mutation_config_wf, MutationConfig, SimulationConfig};
use crate::creature::{is_new_creature, Creature};
use crate::dna::{
    dna_in_ranges, generate_dna, is_mutation_of, mutate_dna, CellDna, CreatureDna,
};
use crate::fitness::{fitness_distance, fitness_of};
use crate::fixed::{fx_div, fx_mul, mag, sat, tdiv, Fx, SCALE};
use crate::rng;
use crate::world::{world_step_rel, world_wf, World};
use vstd::prelude::*;

verus! {

/// One simulated creature's outcome: its DNA and its fitness.
pub type CreatureResult = (CreatureDna, Fx);

/// The cell records of each DNA of the sequence.
pub open spec fn views_of(s: Seq<CreatureDna>) -> Seq<Seq<CellDna>> {
    s.map_values(|d: CreatureDna| d@)
}

/// The DNA sequences of exactly one cell record per grid square, in
/// order; anything shorter or longer is creature-invalid and filtered out.
pub open spec fn fitting(s: Seq<Seq<CellDna>>, needed: int) -> Seq<Seq<CellDna>>
    decreases s.len(),
{
    if s.len() == 0 {
        Seq::empty()
    } else {
        let rest = fitting(s.drop_first(), needed);
        if s[0].len() == needed {
            seq![s[0]] + rest
        } else {
            rest
        }
    }
}

pub proof fn lemma_fitting_push(s: Seq<Seq<CellDna>>, x: Seq<CellDna>, needed: int)
    ensures
        fitting(s.push(x), needed) == (if x.len() == needed {
            fitting(s, needed).push(x)
        } else {
            fitting(s, needed)
        }),
    decreases s.len(),
{
    reveal_with_fuel(fitting, 3);
    if s.len() == 0 {
        assert(s.push(x)[0] == x);
        assert(s.push(x).drop_first() =~= Seq::<Seq<CellDna>>::empty());
        if x.len() == needed {
            assert(seq![x] + Seq::<Seq<CellDna>>::empty() =~= fitting(s, needed).push(x));
        }
    } else {
        assert(s.push(x)[0] == s[0]);
        assert(s.push(x).drop_first() =~= s.drop_first().push(x));
        lemma_fitting_push(s.drop_first(), x, needed);
        if s[0].len() == needed {
            if x.len() == needed {
                assert(seq![s[0]] + fitting(s.drop_first(), needed).push(x) =~= (seq![s[0]]
                    + fitting(s.drop_first(), needed)).push(x));
            }
        }
    }
}

/// Every DNA of the sequence fits, so none is filtered out.
pub proof fn lemma_fitting_all(s: Seq<Seq<CellDna>>, needed: int)
    requires
        forall|i: int| 0 <= i < s.len() ==> (#[trigger] s[i]).len() == needed,
    ensures
        fitting(s, needed) == s,
    decreases s.len(),
{
    if s.len() > 0 {
        assert(forall|i: int|
            0 <= i < s.drop_first().len() ==> #[trigger] s.drop_first()[i] == s[i + 1]);
        lemma_fitting_all(s.drop_first(), needed);
        assert(seq![s[0]] + s.drop_first() =~= s);
    }
}

/// `w` is a world freshly loaded from the fitting DNA of `all`: the
/// configured ground and gravity, and one new creature per fitting DNA.
pub open spec fn initial_world_rel(
    w: World,
    config: SimulationConfig,
    all: Seq<Seq<CellDna>>,
) -> bool {
    let needed = (config.creature_config.size * config.creature_config.size) as int;
    &&& w.ground_y == config.world_config.ground_y
    &&& w.ground_friction == config.world_config.ground_friction
    &&& w.gravity == config.world_config.gravity
    &&& w.creatures@.len() == fitting(all, needed).len()
    &&& forall|k: int|
        0 <= k < w.creatures@.len() ==> is_new_creature(
            #[trigger] w.creatures@[k],
            fitting(all, needed)[k],
            config.creature_config,
        )
}

/// The raw substep duration: `timestep / sub_steps`.
pub open spec fn sim_dt(config: SimulationConfig) -> int {
    fx_div(config.timestep.v(), sat(config.sub_steps * 1_000_000))
}

/// How many substeps a simulation runs: `sim_time / dt`, truncated.
pub open spec fn sim_steps(config: SimulationConfig) -> int {
    tdiv(fx_div(config.sim_time.v(), sim_dt(config)), 1_000_000)
}

/// `w1` is reachable from `w0` by `n` world substeps of `dt`.
pub open spec fn world_steps_rel(w0: World, w1: World, n: int, dt: int) -> bool
    decreases n,
{
    if n <= 0 {
        w1 == w0
    } else {
        exists|mid: World| #[trigger]
            world_step_rel(w0, mid, dt) && world_steps_rel(mid, w1, n - 1, dt)
    }
}

proof fn lemma_world_steps_snoc(w0: World, w1: World, w2: World, n: int, dt: int)
    requires
        0 <= n,
        world_steps_rel(w0, w1, n, dt),
        world_step_rel(w1, w2, dt),
    ensures
        world_steps_rel(w0, w2, n + 1, dt),
    decreases n,
{
    if n == 0 {
        assert(world_step_rel(w0, w2, dt) && world_steps_rel(w2, w2, 0, dt));
    } else {
        let mid = choose|mid: World| #[trigger]
            world_step_rel(w0, mid, dt) && world_steps_rel(mid, w1, n - 1, dt);
        lemma_world_steps_snoc(mid, w1, w2, n - 1, dt);
        assert(world_step_rel(w0, mid, dt) && world_steps_rel(mid, w2, n, dt));
    }
}

/// Bound on the middle-biased random removal index: with `t` the signed
/// unit offset drawn for the removal and `len` the current list length,
/// `|t * len|` truncated to whole units stays within the lower half of the
/// list (at most `len / 2`, strictly below `len`).
proof fn lemma_mid_index(t: int, len: int)
    requires
        -500_000 <= t <= 500_000,
        1 <= len <= 0x8000_0000,
    ensures
        mag(tdiv(fx_mul(t, len * 1_000_000), 1_000_000)) <= len / 2,
        mag(tdiv(fx_mul(t, len * 1_000_000), 1_000_000)) < len,
{
    let lenr = len * 1_000_000;
    let x = t * lenr;
    assert(mag(x) == mag(t) * lenr && mag(t) * lenr <= 500_000 * lenr && 500_000 * lenr
        == 1_000_000 * (500_000 * len)) by (nonlinear_arith)
        requires
            x == t * lenr,
            mag(t) <= 500_000,
            lenr == len * 1_000_000,
            0 <= lenr,
    ;
    vstd::arithmetic::div_mod::lemma_fundamental_div_mod_converse(
        1_000_000 * (500_000 * len),
        1_000_000,
        500_000 * len,
        0,
    );
    vstd::arithmetic::div_mod::lemma_div_is_ordered(mag(x), 1_000_000 * (500_000 * len), 1_000_000);
    let q1 = tdiv(x, 1_000_000);
    assert(mag(q1) <= 500_000 * len);
    let mv = sat(q1);
    assert(mag(mv) <= 500_000 * len);
    assert(500_000 * len == 1_000_000 * (len / 2) + 500_000 * (len % 2) && 0 <= 500_000 * (len % 2)
        < 1_000_000);
    vstd::arithmetic::div_mod::lemma_fundamental_div_mod_converse(
        500_000 * len,
        1_000_000,
        len / 2,
        500_000 * (len % 2),
    );
    vstd::arithmetic::div_mod::lemma_div_is_ordered(mag(mv), 500_000 * len, 1_000_000);
    assert(mag(tdiv(mv, 1_000_000)) == mag(mv) / 1_000_000);
    assert(fx_mul(t, lenr) == mv);
}

/// Swapping two entries of a sequence does not change its multiset.
proof fn lemma_swap_to_multiset<T>(s: Seq<T>, s2: Seq<T>, i: int, j: int)
    requires
        0 <= i < j < s.len(),
        s2.len() == s.len(),
        s2[i] == s[j],
        s2[j] == s[i],
        forall|k: int| 0 <= k < s.len() && k != i && k != j ==> s2[k] == #[trigger] s[k],
    ensures
        s2.to_multiset() == s.to_multiset(),
{
    broadcast use vstd::multiset::group_multiset_axioms;

    let a = s.take(i);
    let x = seq![s[i]];
    let b = s.subrange(i + 1, j);
    let y = seq![s[j]];
    let c = s.skip(j + 1);
    assert(s =~= a + (x + (b + (y + c))));
    assert(s2 =~= a + (y + (b + (x + c))));
    vstd::seq_lib::lemma_multiset_commutative(a, x + (b + (y + c)));
    vstd::seq_lib::lemma_multiset_commutative(x, b + (y + c));
    vstd::seq_lib::lemma_multiset_commutative(b, y + c);
    vstd::seq_lib::lemma_multiset_commutative(y, c);
    vstd::seq_lib::lemma_multiset_commutative(a, y + (b + (x + c)));
    vstd::seq_lib::lemma_multiset_commutative(y, b + (x + c));
    vstd::seq_lib::lemma_multiset_commutative(b, x + c);
    vstd::seq_lib::lemma_multiset_commutative(x, c);
    assert(s2.to_multiset() =~= s.to_multiset());
}

/// `d` is (a copy of) the DNA of one of the results.
pub open spec fn one_of(d: Seq<CellDna>, results: Seq<CreatureResult>) -> bool {
    exists|j: int| 0 <= j < results.len() && d == (#[trigger] results[j]).0@
}

/// Every DNA of the result is (a copy of) one of the DNA of `results`.
pub open spec fn drawn_from(r: Seq<CreatureDna>, results: Seq<CreatureResult>) -> bool {
    forall|i: int| 0 <= i < r.len() ==> one_of((#[trigger] r[i])@, results)
}

/// The cell records of each result's DNA, fitnesses dropped.
pub open spec fn dna_views(s: Seq<CreatureResult>) -> Seq<Seq<CellDna>> {
    s.map_values(|p: CreatureResult| p.0@)
}

/// The pair `(d, f)` occurs among the results.
pub open spec fn appears(d: Seq<CellDna>, f: Fx, s: Seq<CreatureResult>) -> bool {
    exists|k: int| 0 <= k < s.len() && (#[trigger] s[k]).0@ == d && s[k].1 == f
}

/// The results are in ascending fitness order.
pub open spec fn sorted_by_fitness(s: Seq<CreatureResult>) -> bool {
    forall|a: int, b: int|
        0 <= a < b < s.len() ==> (#[trigger] s[a]).1.v() <= (#[trigger] s[b]).1.v()
}

/// Some maximum-fitness result's DNA occurs among the survivors.
pub open spec fn keeps_a_fittest(r: Seq<CreatureDna>, results: Seq<CreatureResult>) -> bool {
    exists|j: int|
        #![trigger results[j]]
        0 <= j < results.len() && (forall|l: int|
            0 <= l < results.len() ==> (#[trigger] results[l]).1.v() <= results[j].1.v()) && (
        exists|i: int| 0 <= i < r.len() && (#[trigger] r[i])@ == results[j].0@)
}

/// Sort the results ascending by fitness, then remove `len / 2` entries
/// at pseudo-random positions in the lower half of the order, keeping the
/// rest: a crude truncation-with-noise selector biased toward the
/// high-fitness tail.  Exactly `len - len / 2` DNA survive; they are a
/// sub-multiset of the input DNA, and from four results up a
/// maximum-fitness DNA always survives.
pub fn select_fittest(results: &Vec<CreatureResult>) -> (r: Vec<CreatureDna>)
    requires
        results@.len() <= 0x8000_0000,
    ensures
        r@.len() == results@.len() - results@.len() / 2,
        drawn_from(r@, results@),
        views_of(r@).to_multiset().subset_of(dna_views(results@).to_multiset()),
        results@.len() >= 4 ==> keeps_a_fittest(r@, results@),
{
    let mut sorted: Vec<CreatureResult> = Vec::new();
    let n = results.len();
    for i in 0..n
        invariant
            n == results@.len(),
            sorted@.len() == i,
            forall|k: int|
                0 <= k < i ==> (#[trigger] sorted@[k]).0@ == results@[k].0@ && sorted@[k].1
                    == results@[k].1,
    {
        sorted.push((copy_dna(&results[i].0), results[i].1));
    }
    let ghost md0 = dna_views(results@).to_multiset();
    proof {
        assert(dna_views(sorted@) =~= dna_views(results@));
        assert forall|k: int| 0 <= k < n implies appears(
            (#[trigger] sorted@[k]).0@,
            sorted@[k].1,
            results@,
        ) by {
            assert(results@[k].0@ == sorted@[k].0@ && results@[k].1 == sorted@[k].1);
        }
        assert forall|l: int| 0 <= l < n implies appears(
            (#[trigger] results@[l]).0@,
            results@[l].1,
            sorted@,
        ) by {
            assert(sorted@[l].0@ == results@[l].0@ && sorted@[l].1 == results@[l].1);
        }
    }

    if n > 1 {
        for i in 1..n
            invariant
                n == results@.len(),
                1 <= i <= n,
                sorted@.len() == n,
                dna_views(sorted@).to_multiset() == md0,
                forall|k: int|
                    0 <= k < n ==> appears((#[trigger] sorted@[k]).0@, sorted@[k].1, results@),
                forall|l: int|
                    0 <= l < n ==> appears((#[trigger] results@[l]).0@, results@[l].1, sorted@),
                sorted_by_fitness(sorted@.take(i as int)),
            decreases n - i,
        {
            proof {
                assert forall|a: int, b: int| 0 <= a < b < i implies (
                #[trigger] sorted@[a]).1.v() <= (#[trigger] sorted@[b]).1.v() by {
                    assert(sorted@.take(i as int)[a] == sorted@[a]);
                    assert(sorted@.take(i as int)[b] == sorted@[b]);
                }
            }
            let mut j = i;
            while j > 0 && sorted[j - 1].1.raw > sorted[j].1.raw
                invariant
                    0 <= j <= i < n,
                    n == results@.len(),
                    sorted@.len() == n,
                    dna_views(sorted@).to_multiset() == md0,
                    forall|k: int|
                        0 <= k < n ==> appears((#[trigger] sorted@[k]).0@, sorted@[k].1, results@),
                    forall|l: int|
                        0 <= l < n ==> appears((#[trigger] results@[l]).0@, results@[l].1, sorted@),
                    forall|a: int, b: int|
                        0 <= a < b <= i && a != j && b != j ==> (#[trigger] sorted@[a]).1.v() <= (
                        #[trigger] sorted@[b]).1.v(),
                    forall|b: int|
                        j < b <= i ==> sorted@[j as int].1.v() <= (#[trigger] sorted@[b]).1.v(),
                decreases j,
            {
                let ghost before = sorted@;
                let x = (copy_dna(&sorted[j - 1].0), sorted[j - 1].1);
                let y = (copy_dna(&sorted[j].0), sorted[j].1);
                sorted.set(j - 1, y);
                sorted.set(j, x);
                proof {
                    assert(x.0@ == before[j - 1].0@ && x.1 == before[j - 1].1);
                    assert(y.0@ == before[j as int].0@ && y.1 == before[j as int].1);
                    assert(dna_views(sorted@) =~= dna_views(before).update(
                        j - 1,
                        dna_views(before)[j as int],
                    ).update(j as int, dna_views(before)[j - 1]));
                    lemma_swap_to_multiset(dna_views(before), dna_views(sorted@), j - 1, j as int);
                    assert forall|k: int| 0 <= k < n implies appears(
                        (#[trigger] sorted@[k]).0@,
                        sorted@[k].1,
                        results@,
                    ) by {
                        if k == j - 1 {
                            assert(appears(before[j as int].0@, before[j as int].1, results@));
                        } else if k == j {
                            assert(appears(before[j - 1].0@, before[j - 1].1, results@));
                        } else {
                            assert(appears(before[k].0@, before[k].1, results@));
                        }
                    }
                    assert forall|l: int| 0 <= l < n implies appears(
                        (#[trigger] results@[l]).0@,
                        results@[l].1,
                        sorted@,
                    ) by {
                        let k = choose|k: int|
                            0 <= k < before.len() && (#[trigger] before[k]).0@ == results@[l].0@
                                && before[k].1 == results@[l].1;
                        if k == j - 1 {
                            assert(sorted@[j as int].0@ == results@[l].0@ && sorted@[j as int].1
                                == results@[l].1);
                        } else if k == j {
                            assert(sorted@[j - 1].0@ == results@[l].0@ && sorted@[j - 1].1
                                == results@[l].1);
                        } else {
                            assert(sorted@[k].0@ == results@[l].0@ && sorted@[k].1
                                == results@[l].1);
                        }
                    }
                    assert forall|a: int, b: int|
                        0 <= a < b <= i && a != j - 1 && b != j - 1 implies (
                    #[trigger] sorted@[a]).1.v() <= (#[trigger] sorted@[b]).1.v() by {
                        if b == j {
                            if a < j - 1 {
                                assert(before[a].1.v() <= before[j - 1].1.v());
                            }
                        } else if a == j {
                            assert(before[j - 1].1.v() <= before[b].1.v());
                        } else {
                            assert(before[a].1.v() <= before[b].1.v());
                        }
                    }
                    assert forall|b: int| j - 1 < b <= i implies sorted@[j - 1].1.v() <= (
                    #[trigger] sorted@[b]).1.v() by {
                        if b == j {
                            assert(before[j as int].1.v() <= before[j - 1].1.v());
                        } else {
                            assert(before[j as int].1.v() <= before[b].1.v());
                        }
                    }
                }
                j = j - 1;
            }
            proof {
                assert forall|a: int, b: int| 0 <= a < b <= i implies (
                #[trigger] sorted@[a]).1.v() <= (#[trigger] sorted@[b]).1.v() by {
                    if j == 0 {
                        if a == 0 && a == j {
                            assert(sorted@[j as int].1.v() <= sorted@[b].1.v());
                        }
                    } else {
                        if b == j {
                            if a < j - 1 {
                                assert(sorted@[a].1.v() <= sorted@[j - 1].1.v());
                            }
                            assert(sorted@[j - 1].1.v() <= sorted@[j as int].1.v());
                        } else if a == j {
                            assert(sorted@[j as int].1.v() <= sorted@[b].1.v());
                        }
                    }
                }
                assert(forall|a: int|
                    0 <= a < i + 1 ==> (#[trigger] sorted@.take(i as int + 1)[a]) == sorted@[a]);
                assert(sorted_by_fitness(sorted@.take(i as int + 1)));
            }
        }
    }
    proof {
        assert(sorted@.take(n as int) =~= sorted@);
        assert(sorted_by_fitness(sorted@));
    }

    let ghost top_d: Seq<CellDna> = if n >= 1 {
        sorted@[n - 1].0@
    } else {
        Seq::empty()
    };
    let ghost top_f: Fx = if n >= 1 {
        sorted@[n - 1].1
    } else {
        Fx { raw: 0 }
    };
    proof {
        if n >= 1 {
            assert forall|l: int| 0 <= l < n implies (#[trigger] results@[l]).1.v()
                <= top_f.v() by {
                let k = choose|k: int|
                    0 <= k < sorted@.len() && (#[trigger] sorted@[k]).0@ == results@[l].0@
                        && sorted@[k].1 == results@[l].1;
                if k < n - 1 {
                    assert(sorted@[k].1.v() <= sorted@[n - 1].1.v());
                }
            }
            assert(appears(top_d, top_f, results@));
        }
    }

    let remove_count = n / 2;
    for c in 0..remove_count
        invariant
            n == results@.len(),
            n <= 0x8000_0000,
            remove_count == n / 2,
            sorted@.len() == n - c,
            dna_views(sorted@).to_multiset().subset_of(md0),
            forall|k: int|
                0 <= k < sorted@.len() ==> appears(
                    (#[trigger] sorted@[k]).0@,
                    sorted@[k].1,
                    results@,
                ),
            n >= 4 ==> sorted@.len() >= 2 && sorted@[sorted@.len() - 1].0@ == top_d
                && sorted@[sorted@.len() - 1].1 == top_f,
    {
        let cur = sorted.len();
        let u = rng::rand_unit();
        let t = u.sub(Fx { raw: 500_000 });
        let lenf = Fx::from_int(cur as i64);
        let m = t.mul(lenf);
        let tu = m.trunc_units();
        proof {
            assert(lenf.v() == cur as int * (SCALE as int));
            lemma_mid_index(t.v(), cur as int);
            assert(mag(tu as int) <= cur as int / 2 && mag(tu as int) < cur);
        }
        let idx = if tu < 0 {
            (-tu) as usize
        } else {
            tu as usize
        };
        let ghost before = sorted@;
        sorted.remove(idx);
        proof {
            broadcast use vstd::seq_lib::group_to_multiset_ensures;
            broadcast use vstd::multiset::group_multiset_axioms;

            assert(dna_views(sorted@) =~= dna_views(before).remove(idx as int));
            assert(dna_views(before).remove(idx as int).to_multiset() =~= dna_views(
                before,
            ).to_multiset().remove(dna_views(before)[idx as int]));
            assert forall|v: Seq<CellDna>| true implies #[trigger] dna_views(
                sorted@,
            ).to_multiset().count(v) <= md0.count(v) by {
                assert(dna_views(before).to_multiset().count(v) <= md0.count(v));
            }
            assert forall|k: int| 0 <= k < sorted@.len() implies appears(
                (#[trigger] sorted@[k]).0@,
                sorted@[k].1,
                results@,
            ) by {
                if k < idx {
                    assert(sorted@[k] == before[k]);
                } else {
                    assert(sorted@[k] == before[k + 1]);
                }
            }
            if n >= 4 {
                assert(cur >= 3);
                assert(idx < cur - 1);
                assert(sorted@[sorted@.len() - 1] == before[before.len() - 1]);
            }
        }
    }

    let mut r: Vec<CreatureDna> = Vec::new();
    let keep = sorted.len();
    for k in 0..keep
        invariant
            keep == sorted@.len(),
            r@.len() == k,
            forall|kk: int| 0 <= kk < k ==> (#[trigger] r@[kk])@ == sorted@[kk].0@,
    {
        r.push(copy_dna(&sorted[k].0));
    }
    proof {
        assert(views_of(r@) =~= dna_views(sorted@));
        assert forall|i: int| 0 <= i < r@.len() implies one_of((#[trigger] r@[i])@, results@) by {
            assert(appears(sorted@[i].0@, sorted@[i].1, results@));
            let jj = choose|jj: int|
                0 <= jj < results@.len() && (#[trigger] results@[jj]).0@ == sorted@[i].0@
                    && results@[jj].1 == sorted@[i].1;
            assert(r@[i]@ == results@[jj].0@);
        }
        if n >= 4 {
            let jj = choose|jj: int|
                0 <= jj < results@.len() && (#[trigger] results@[jj]).0@ == top_d
                    && results@[jj].1 == top_f;
            assert(r@[keep - 1]@ == sorted@[keep - 1].0@);
            assert(r@[keep - 1]@ == results@[jj].0@);
            assert(forall|l: int|
                0 <= l < results@.len() ==> (#[trigger] results@[l]).1.v() <= results@[jj].1.v());
            assert(keeps_a_fittest(r@, results@));
        }
    }
    r
}

/// Each survivor produces two offspring, each an independent mutation of
/// the parent; survivor `i`'s offspring sit at `2*i` and `2*i + 1`.
pub fn reproduce(config: MutationConfig, initial: &Vec<CreatureDna>) -> (r: Vec<CreatureDna>)
    requires
        mutation_config_wf(config),
        forall|i: int| 0 <= i < initial@.len() ==> 0 < (#[trigger] initial@[i])@.len() <= i64::MAX,
        initial@.len() <= usize::MAX / 2,
    ensures
        r@.len() == 2 * initial@.len(),
        forall|i: int|
            0 <= i < r@.len() ==> is_mutation_of(initial@[i / 2]@, (#[trigger] r@[i])@, config),
{
    let mut r: Vec<CreatureDna> = Vec::new();
    let n = initial.len();
    for i in 0..n
        invariant
            n == initial@.len(),
            r@.len() == 2 * i,
            mutation_config_wf(config),
            forall|j: int|
                0 <= j < initial@.len() ==> 0 < (#[trigger] initial@[j])@.len() <= i64::MAX,
            forall|j: int|
                0 <= j < r@.len() ==> is_mutation_of(initial@[j / 2]@, (#[trigger] r@[j])@, config),
    {
        r.push(mutate_dna(&initial[i], config));
        r.push(mutate_dna(&initial[i], config));
        proof {
            assert((2 * i as int) / 2 == i as int && (2 * i as int + 1) / 2 == i as int);
        }
    }
    r
}

/// The initial population: `creature_count` random DNA of `size * size`
/// cell records each.
pub fn generate_population(config: SimulationConfig) -> (r: Vec<CreatureDna>)
    requires
        mutation_config_wf(config.mutation_config),
        config.creature_config.size * config.creature_config.size <= usize::MAX,
    ensures
        r@.len() == config.creature_count,
        forall|i: int|
            0 <= i < r@.len() ==> (#[trigger] r@[i])@.len() == config.creature_config.size
                * config.creature_config.size,
        forall|i: int|
            0 <= i < r@.len() ==> dna_in_ranges((#[trigger] r@[i])@, config.mutation_config),
{
    let mut r: Vec<CreatureDna> = Vec::new();
    let count = config.creature_count;
    let length = config.creature_config.size * config.creature_config.size;
    for i in 0..count
        invariant
            r@.len() == i,
            length == config.creature_config.size * config.creature_config.size,
            mutation_config_wf(config.mutation_config),
            forall|j: int| 0 <= j < r@.len() ==> (#[trigger] r@[j])@.len() == length,
            forall|j: int|
                0 <= j < r@.len() ==> dna_in_ranges((#[trigger] r@[j])@, config.mutation_config),
    {
        r.push(generate_dna(length, config.mutation_config));
    }
    r
}

/// `d` is (a copy of) one of the population's DNA.
pub open spec fn from_population(d: Seq<CellDna>, dna: Seq<CreatureDna>) -> bool {
    exists|j: int| 0 <= j < dna.len() && d == (#[trigger] dna[j])@
}

/// Partition the population into `threads` contiguous batches of
/// `len / threads` DNA (the remainder past `threads * batch` is dropped),
/// run each batch, and concatenate the results in batch order: the
/// results align positionally with the fitting DNA of the partitioned
/// population.
#[verifier::rlimit(60)]
pub fn simulate_generation(dna: &Vec<CreatureDna>, config: SimulationConfig) -> (r: Vec<
    CreatureResult,
>)
    requires
        0 < config.threads,
        (config.creature_config.size + 1) * (config.creature_config.size + 1) <= usize::MAX,
        (config.creature_config.size + 1) * (config.creature_config.size + 1) <= i64::MAX,
        config.sub_steps <= i64::MAX,
    ensures
        ({
            let needed = (config.creature_config.size * config.creature_config.size) as int;
            let batch = dna@.len() as int / config.threads as int;
            &&& r@.len() == fitting(
                views_of(dna@.take(batch * config.threads)),
                needed,
            ).len()
            &&& forall|k: int|
                0 <= k < r@.len() ==> (#[trigger] r@[k]).0@ == fitting(
                    views_of(dna@.take(batch * config.threads)),
                    needed,
                )[k]
            &&& forall|k: int| 0 <= k < r@.len() ==> from_population((#[trigger] r@[k]).0@, dna@)
        }),
{
    let threads = config.threads;
    let batch = dna.len() / threads;
    let ghost needed = (config.creature_config.size * config.creature_config.size) as int;
    let mut r: Vec<CreatureResult> = Vec::new();
    proof {
        vstd::arithmetic::div_mod::lemma_fundamental_div_mod(dna@.len() as int, threads as int);
        vstd::arithmetic::div_mod::lemma_mod_bound(dna@.len() as int, threads as int);
        assert(0 * (batch as int) == 0) by (nonlinear_arith);
        assert(views_of(dna@.take(0)) =~= Seq::<Seq<CellDna>>::empty());
    }
    for t in 0..threads
        invariant
            threads == config.threads,
            batch == dna@.len() as int / threads as int,
            dna@.len() <= usize::MAX,
            (threads as int) * (batch as int) <= dna@.len(),
            (config.creature_config.size + 1) * (config.creature_config.size + 1) <= usize::MAX,
            (config.creature_config.size + 1) * (config.creature_config.size + 1) <= i64::MAX,
            config.sub_steps <= i64::MAX,
            needed == (config.creature_config.size * config.creature_config.size) as int,
            r@.len() == fitting(views_of(dna@.take(t as int * (batch as int))), needed).len(),
            forall|k: int|
                0 <= k < r@.len() ==> (#[trigger] r@[k]).0@ == fitting(
                    views_of(dna@.take(t as int * (batch as int))),
                    needed,
                )[k],
            forall|k: int| 0 <= k < r@.len() ==> from_population((#[trigger] r@[k]).0@, dna@),
    {
        proof {
            assert((t + 1) * (batch as int) == t * (batch as int) + batch && 0 <= t * (
            batch as int) && (t + 1) * (batch as int) <= (threads as int) * (batch as int)) by (nonlinear_arith)
                requires
                    0 <= t < threads,
                    0 <= batch,
            ;
            assert(t as int * (batch as int) + (batch as int) <= dna@.len());
            assert(0 <= t as int * (batch as int));
        }
        let lo = t * batch;
        let hi = lo + batch;
        let mut slice: Vec<CreatureDna> = Vec::new();
        for k in lo..hi
            invariant
                lo == t as int * (batch as int),
                lo <= hi <= dna@.len(),
                slice@.len() == k - lo,
                forall|j: int| 0 <= j < slice@.len() ==> (#[trigger] slice@[j])@ == dna@[lo + j]@,
        {
            slice.push(copy_dna(&dna[k]));
        }
        let results = run_batch(config, &slice);
        let ghost prefix = views_of(dna@.take(lo as int));
        let ghost slice_views = views_of(slice@);
        proof {
            assert(views_of(dna@.take(hi as int)) =~= prefix + slice_views);
            lemma_fitting_concat(prefix, slice_views, needed);
        }
        let m = results.len();
        let ghost r_before = r@;
        for q in 0..m
            invariant
                m == results@.len(),
                r@.len() == r_before.len() + q,
                forall|j: int|
                    0 <= j < r_before.len() ==> (#[trigger] r@[j]).0@ == r_before[j].0@ && r@[j].1
                        == r_before[j].1,
                forall|j: int|
                    r_before.len() <= j < r@.len() ==> (#[trigger] r@[j]).0@ == results@[j
                        - r_before.len()].0@ && r@[j].1 == results@[j - r_before.len()].1,
        {
            let pair = (copy_dna(&results[q].0), results[q].1);
            r.push(pair);
            proof {
                assert(r@[r_before.len() + q as int].0@ == results@[q as int].0@);
            }
        }
        proof {
            assert forall|k: int| 0 <= k < r@.len() implies (#[trigger] r@[k]).0@ == fitting(
                views_of(dna@.take(hi as int)),
                needed,
            )[k] by {
                if k < r_before.len() {
                    assert(r@[k].0@ == r_before[k].0@);
                    assert(fitting(views_of(dna@.take(hi as int)), needed)[k] == fitting(
                        prefix,
                        needed,
                    )[k]);
                } else {
                    let kk = k - r_before.len();
                    assert(r@[k].0@ == results@[kk].0@);
                    assert(results@[kk].0@ == fitting(slice_views, needed)[kk]);
                    assert(fitting(views_of(dna@.take(hi as int)), needed)[k] == fitting(
                        slice_views,
                        needed,
                    )[kk]);
                }
            }
            assert forall|k: int| 0 <= k < r@.len() implies from_population(
                (#[trigger] r@[k]).0@,
                dna@,
            ) by {
                if k >= r_before.len() {
                    let kk = k - r_before.len();
                    assert(r@[k].0@ == results@[kk].0@);
                    assert(results@[kk].0@ == fitting(slice_views, needed)[kk]);
                    lemma_fitting_from(slice_views, needed, kk);
                    let sj = choose|sj: int|
                        0 <= sj < slice_views.len() && fitting(slice_views, needed)[kk]
                            == #[trigger] slice_views[sj];
                    assert(slice_views[sj] == slice@[sj]@);
                    assert(slice@[sj]@ == dna@[lo + sj]@);
                    assert(from_population(r@[k].0@, dna@));
                } else {
                    assert(r@[k].0@ == r_before[k].0@);
                }
            }
        }
    }
    proof {
        let neededx = (config.creature_config.size * config.creature_config.size) as int;
        let batchx = dna@.len() as int / config.threads as int;
        assert(batchx == batch as int);
        assert(r@.len() == fitting(
            views_of(dna@.take(batchx * config.threads as int)),
            neededx,
        ).len());
        assert(forall|k: int|
            0 <= k < r@.len() ==> (#[trigger] r@[k]).0@ == fitting(
                views_of(dna@.take(batchx * config.threads as int)),
                neededx,
            )[k]);
        assert(forall|k: int| 0 <= k < r@.len() ==> from_population((#[trigger] r@[k]).0@, dna@));
    }
    r
}

/// Every entry of the fitting subsequence is an entry of the sequence
/// it was filtered from.
proof fn lemma_fitting_from(s: Seq<Seq<CellDna>>, needed: int, k: int)
    requires
        0 <= k < fitting(s, needed).len(),
    ensures
        exists|j: int| 0 <= j < s.len() && fitting(s, needed)[k] == #[trigger] s[j],
    decreases s.len(),
{
    if s.len() > 0 {
        let rest = fitting(s.drop_first(), needed);
        if s[0].len() == needed {
            if k == 0 {
                assert(fitting(s, needed)[0] == s[0]);
            } else {
                lemma_fitting_from(s.drop_first(), needed, k - 1);
                let j = choose|j: int|
                    0 <= j < s.drop_first().len() && rest[k - 1] == #[trigger] s.drop_first()[j];
                assert(fitting(s, needed)[k] == rest[k - 1]);
                assert(s.drop_first()[j] == s[j + 1]);
            }
        } else {
            lemma_fitting_from(s.drop_first(), needed, k);
            let j = choose|j: int|
                0 <= j < s.drop_first().len() && rest[k] == #[trigger] s.drop_first()[j];
            assert(s.drop_first()[j] == s[j + 1]);
        }
    }
}

/// Filtering a concatenation filters each part: the fitting subsequence of
/// `a + b` is the two fitting subsequences concatenated.
proof fn lemma_fitting_concat(a: Seq<Seq<CellDna>>, b: Seq<Seq<CellDna>>, needed: int)
    ensures
        fitting(a + b, needed) == fitting(a, needed) + fitting(b, needed),
    decreases b.len(),
{
    if b.len() == 0 {
        assert(a + b =~= a);
        assert(fitting(a, needed) + fitting(b, needed) =~= fitting(a, needed));
    } else {
        assert(a + b =~= a.push(b[0]) + b.drop_first());
        lemma_fitting_push(a, b[0], needed);
        lemma_fitting_concat(a.push(b[0]), b.drop_first(), needed);
        reveal_with_fuel(fitting, 2);
        if b[0].len() == needed {
            assert(fitting(a, needed).push(b[0]) + fitting(b.drop_first(), needed) =~= fitting(
                a,
                needed,
            ) + (seq![b[0]] + fitting(b.drop_first(), needed)));
            assert(fitting(b, needed) == seq![b[0]] + fitting(b.drop_first(), needed));
        } else {
            assert(fitting(b, needed) == fitting(b.drop_first(), needed));
        }
    }
}

/// Generation round-trip: a population of `count` DNA, every one of
/// exactly the grid's length, split over `threads` dividing `count`
/// evenly, yields exactly `count` results.
pub proof fn lemma_generation_roundtrip(dna: Seq<CreatureDna>, config: SimulationConfig)
    requires
        0 < config.threads,
        dna.len() as int % config.threads as int == 0,
        forall|i: int|
            0 <= i < dna.len() ==> (#[trigger] dna[i])@.len() == config.creature_config.size
                * config.creature_config.size,
    ensures
        ({
            let needed = (config.creature_config.size * config.creature_config.size) as int;
            let batch = dna.len() as int / config.threads as int;
            fitting(views_of(dna.take(batch * config.threads)), needed).len() == dna.len()
        }),
{
    let needed = (config.creature_config.size * config.creature_config.size) as int;
    let batch = dna.len() as int / config.threads as int;
    vstd::arithmetic::div_mod::lemma_fundamental_div_mod(dna.len() as int, config.threads as int);
    assert(batch * config.threads == dna.len());
    assert(dna.take(batch * config.threads) =~= dna);
    assert(forall|i: int|
        0 <= i < views_of(dna).len() ==> (#[trigger] views_of(dna)[i]).len() == needed);
    lemma_fitting_all(views_of(dna), needed);
}

/// An exact copy of a DNA record.
fn copy_dna(d: &CreatureDna) -> (r: CreatureDna)
    ensures
        r@ == d@,
{
    let mut r: CreatureDna = Vec::new();
    let n = d.len();
    for i in 0..n
        invariant
            n == d@.len(),
            r@ =~= d@.take(i as int),
    {
        r.push(d[i]);
    }
    proof {
        assert(d@.take(n as int) =~= d@);
    }
    r
}

/// Run one batch the way a simulator worker does: build a world holding
/// one creature per fitting DNA (creature-invalid DNA, whose length is not
/// exactly `size * size`, is skipped and omitted from the results),
/// advance it `sim_time / dt` substeps of `dt = timestep / sub_steps`, and
/// pair each fitting DNA with its creature's fitness.
pub fn run_batch(config: SimulationConfig, all_dna: &Vec<CreatureDna>) -> (r: Vec<CreatureResult>)
    requires
        (config.creature_config.size + 1) * (config.creature_config.size + 1) <= usize::MAX,
        (config.creature_config.size + 1) * (config.creature_config.size + 1) <= i64::MAX,
        config.sub_steps <= i64::MAX,
    ensures
        ({
            let needed = (config.creature_config.size * config.creature_config.size) as int;
            let kept = fitting(views_of(all_dna@), needed);
            &&& r@.len() == kept.len()
            &&& forall|k: int| 0 <= k < r@.len() ==> (#[trigger] r@[k]).0@ == kept[k]
            &&& exists|w0: World, wn: World|
                {
                    &&& #[trigger] initial_world_rel(w0, config, views_of(all_dna@))
                    &&& #[trigger] world_steps_rel(w0, wn, sim_steps(config), sim_dt(config))
                    &&& wn.creatures@.len() == r@.len()
                    &&& forall|k: int|
                        0 <= k < r@.len() ==> (#[trigger] r@[k]).1.v() == fitness_of(
                            wn.creatures@[k],
                        )
                }
        }),
{
    let size = config.creature_config.size;
    proof {
        assert(size * size <= (size + 1) * (size + 1)) by (nonlinear_arith);
    }
    let needed = size * size;
    let mut world = World::from_config(config.world_config);
    let mut kept: Vec<CreatureDna> = Vec::new();
    let n = all_dna.len();
    for i in 0..n
        invariant
            n == all_dna@.len(),
            needed == size * size,
            size == config.creature_config.size,
            (size + 1) * (size + 1) <= usize::MAX,
            (size + 1) * (size + 1) <= i64::MAX,
            world.ground_y == config.world_config.ground_y,
            world.ground_friction == config.world_config.ground_friction,
            world.gravity == config.world_config.gravity,
            world.creatures@.len() == kept@.len(),
            kept@.len() == fitting(views_of(all_dna@.take(i as int)), needed as int).len(),
            forall|k: int|
                0 <= k < kept@.len() ==> (#[trigger] kept@[k])@ == fitting(
                    views_of(all_dna@.take(i as int)),
                    needed as int,
                )[k],
            forall|k: int|
                0 <= k < world.creatures@.len() ==> is_new_creature(
                    #[trigger] world.creatures@[k],
                    fitting(views_of(all_dna@.take(i as int)), needed as int)[k],
                    config.creature_config,
                ),
            world_wf(world),
    {
        let ghost prev = views_of(all_dna@.take(i as int));
        proof {
            assert(views_of(all_dna@.take(i as int + 1)) =~= prev.push(all_dna@[i as int]@));
            lemma_fitting_push(prev, all_dna@[i as int]@, needed as int);
        }
        if all_dna[i].len() == needed {
            let d = copy_dna(&all_dna[i]);
            let d2 = copy_dna(&all_dna[i]);
            let creature = Creature::new(config.creature_config, d2);
            match creature {
                Some(c) => {
                    world.add_creature(c);
                    kept.push(d);
                },
                None => {
                    proof {
                        assert(false);
                    }
                },
            }
        }
    }
    proof {
        assert(all_dna@.take(n as int) =~= all_dna@);
    }

    let ghost w0v = world;
    let dt = config.timestep.div(Fx::from_int(config.sub_steps as i64));
    let total_steps = config.sim_time.div(dt).trunc_units();
    proof {
        assert(dt.v() == sim_dt(config));
        assert(total_steps as int == sim_steps(config));
        assert(world_steps_rel(w0v, world, 0, dt.v()));
    }
    let mut step: i64 = 0;
    while step < total_steps
        invariant
            0 <= step,
            step <= total_steps || (total_steps < 0 && step == 0),
            world_wf(world),
            world_steps_rel(w0v, world, step as int, dt.v()),
            world.creatures@.len() == w0v.creatures@.len(),
            forall|k: int|
                0 <= k < world.creatures@.len()
                    ==> (#[trigger] world.creatures@[k]).particles@.len()
                    == w0v.creatures@[k].particles@.len(),
        decreases total_steps - step,
    {
        let ghost before = world;
        world.update(dt);
        proof {
            lemma_world_steps_snoc(w0v, before, world, step as int, dt.v());
        }
        step = step + 1;
    }

    proof {
        assert forall|k: int| 0 <= k < world.creatures@.len() implies (
        #[trigger] world.creatures@[k]).particles@.len() <= i64::MAX by {
            assert(is_new_creature(
                w0v.creatures@[k],
                fitting(views_of(all_dna@), needed as int)[k],
                config.creature_config,
            ));
        }
    }
    let fitnesses = fitness_distance(&world.creatures);

    let mut r: Vec<CreatureResult> = Vec::new();
    let m = kept.len();
    for k in 0..m
        invariant
            m == kept@.len(),
            fitnesses@.len() == m,
            r@.len() == k,
            forall|j: int| 0 <= j < k ==> (#[trigger] r@[j]).0@ == kept@[j]@,
            forall|j: int| 0 <= j < k ==> (#[trigger] r@[j]).1 == fitnesses@[j],
    {
        r.push((copy_dna(&kept[k]), fitnesses[k]));
    }
    proof {
        let needed_i = (config.creature_config.size * config.creature_config.size) as int;
        let keptv = fitting(views_of(all_dna@), needed_i);
        assert(initial_world_rel(w0v, config, views_of(all_dna@)));
        assert(world_steps_rel(w0v, world, sim_steps(config), sim_dt(config)) || sim_steps(config)
            < 0);
        if sim_steps(config) < 0 {
            assert(world_steps_rel(w0v, world, sim_steps(config), sim_dt(config)));
        }
    }
    r
}

} // verus!
