//! A creature: a `size x size` grid of cells sharing one pool of
//! `(size+1) x (size+1)` particles, with per-step cell updates, single-hop
//! discharge propagation between grid neighbors, and particle integration.

use crate::cell::{
    cell_wf, initial_model, lemma_springs_applied_len, lemma_springs_applied_push,
    retargeted_springs, springs_applied, Cell,
};
use crate::charge::{model_charged, model_discharge, model_updated, ChargeModel};
use crate::config::CreatureConfig;
use crate::dna::{CellDna, CreatureDna};
use crate::fixed::{fx_add, fx_mul, sat, Fx, SCALE};
use crate::particle::{integrated, Particle};
use crate::spring::{spring_wf, Spring};
use crate::vec2::Vec2;
use vstd::prelude::*;

verus! {

pub struct Creature {
    pub particles: Vec<Particle>,
    pub cells: Vec<Cell>,
    /// Grid edge length in cells.
    pub size: usize,
}

/// The creature invariant: `(size+1)^2` particles, `size^2` cells in
/// row-major order, every cell well formed against the particle pool, and
/// every cell's stored position matching its index.
pub open spec fn creature_wf(c: Creature) -> bool {
    &&& c.particles.len() == (c.size + 1) * (c.size + 1)
    &&& c.cells.len() == c.size * c.size
    &&& forall|i: int|
        0 <= i < c.cells@.len() ==> cell_wf(#[trigger] c.cells@[i], c.particles.len() as int)
    &&& forall|i: int|
        0 <= i < c.cells@.len() ==> (#[trigger] c.cells@[i].pos).0 == i / (c.size as int)
            && c.cells@[i].pos.1 == i % (c.size as int)
}

/// The particle pool after every cell's retargeted springs have been
/// applied, in cell order.
pub open spec fn all_cells_applied(ps: Seq<Particle>, cells: Seq<Cell>) -> Seq<Particle>
    decreases cells.len(),
{
    if cells.len() == 0 {
        ps
    } else {
        all_cells_applied(springs_applied(ps, retargeted_springs(cells[0])), cells.drop_first())
    }
}

pub proof fn lemma_all_cells_applied_push(ps: Seq<Particle>, cells: Seq<Cell>, c: Cell)
    ensures
        all_cells_applied(ps, cells.push(c)) == springs_applied(
            all_cells_applied(ps, cells),
            retargeted_springs(c),
        ),
    decreases cells.len(),
{
    reveal_with_fuel(all_cells_applied, 3);
    if cells.len() == 0 {
        assert(cells.push(c)[0] == c);
        assert(cells.push(c).drop_first() =~= Seq::<Cell>::empty());
    } else {
        assert(cells.push(c)[0] == cells[0]);
        assert(cells.push(c).drop_first() =~= cells.drop_first().push(c));
        lemma_all_cells_applied_push(
            springs_applied(ps, retargeted_springs(cells[0])),
            cells.drop_first(),
            c,
        );
    }
}

pub proof fn lemma_all_cells_applied_len(ps: Seq<Particle>, cells: Seq<Cell>)
    requires
        forall|i: int| 0 <= i < cells.len() ==> cell_wf(#[trigger] cells[i], ps.len() as int),
    ensures
        all_cells_applied(ps, cells).len() == ps.len(),
    decreases cells.len(),
{
    if cells.len() > 0 {
        let rs = retargeted_springs(cells[0]);
        assert(forall|i: int|
            0 <= i < rs.len() ==> #[trigger] rs[i] == crate::cell::retargeted(
                cells[0].springs@[i],
                crate::cell::cell_len_mult(cells[0]),
            ) && spring_wf(rs[i], ps.len() as int));
        lemma_springs_applied_len(ps, rs);
        assert(forall|i: int|
            0 <= i < cells.drop_first().len() ==> #[trigger] cells.drop_first()[i] == cells[i + 1]);
        lemma_all_cells_applied_len(springs_applied(ps, rs), cells.drop_first());
    }
}

/// `b` is one of the four von-Neumann grid neighbors of `a`.
pub open spec fn is_neighbor(a: (usize, usize), b: (usize, usize)) -> bool {
    (a.0 == b.0 && (b.1 == a.1 + 1 || a.1 == b.1 + 1)) || (a.1 == b.1 && (b.0 == a.0 + 1 || a.0
        == b.0 + 1))
}

/// After every model has advanced by `dt`, cell `i` receives a stimulus
/// exactly when some cell with positive discharge is a grid neighbor of
/// `i`.  Collection happens strictly before delivery, so a discharge can
/// travel at most one cell per step.
pub open spec fn stimulated(cells: Seq<Cell>, dt: int, i: int) -> bool {
    exists|j: int|
        0 <= j < cells.len() && model_discharge(
            model_updated(#[trigger] cells[j].charge_model, dt),
        ) > 0 && is_neighbor(cells[j].pos, cells[i].pos)
}

/// The charge model of cell `i` after one creature step: advanced by `dt`,
/// then stimulated once if any discharging neighbor exists.
pub open spec fn stepped_model(cells: Seq<Cell>, dt: int, i: int) -> ChargeModel {
    let m = model_updated(cells[i].charge_model, dt);
    if stimulated(cells, dt, i) {
        model_charged(m)
    } else {
        m
    }
}

/// The geometry part of one cell step: DNA and position kept, springs
/// retargeted by the pre-step charge.
pub open spec fn cell_geometry_stepped(oldcell: Cell, newcell: Cell) -> bool {
    newcell.dna == oldcell.dna && newcell.pos == oldcell.pos && newcell.springs@
        == retargeted_springs(oldcell)
}

/// Full relation between a creature and its state after `update(dt)`:
/// cell geometry stepped, charge models advanced and stimulated, and every
/// particle Verlet-integrated after all spring forces accumulated.
pub open spec fn creature_stepped(oldc: Creature, newc: Creature, dt: int) -> bool {
    &&& newc.size == oldc.size
    &&& newc.cells.len() == oldc.cells.len()
    &&& newc.particles.len() == oldc.particles.len()
    &&& forall|i: int|
        0 <= i < oldc.cells@.len() ==> cell_geometry_stepped(
            oldc.cells@[i],
            #[trigger] newc.cells@[i],
        )
    &&& forall|i: int|
        0 <= i < oldc.cells@.len() ==> (#[trigger] newc.cells@[i]).charge_model == stepped_model(
            oldc.cells@,
            dt,
            i,
        )
    &&& newc.particles@ == all_cells_applied(oldc.particles@, oldc.cells@).map_values(
        |p: Particle| integrated(p, dt),
    )
}

/// An event's position belongs to a cell whose advanced model discharges.
pub open spec fn event_matches(cells: Seq<Cell>, dt: int, ev: (usize, usize, Fx)) -> bool {
    exists|j: int|
        0 <= j < cells.len() && (#[trigger] cells[j].pos) == (ev.0, ev.1) && model_discharge(
            model_updated(cells[j].charge_model, dt),
        ) > 0
}

/// Some event in the list sits at `pos`.
pub open spec fn has_event_at(events: Seq<(usize, usize, Fx)>, pos: (usize, usize)) -> bool {
    exists|k: int| 0 <= k < events.len() && ((#[trigger] events[k]).0, events[k].1) == pos
}

/// Some event in the list neighbors `pos`.
pub open spec fn event_neighbors(events: Seq<(usize, usize, Fx)>, pos: (usize, usize)) -> bool {
    exists|k: int| 0 <= k < events.len() && is_neighbor(((#[trigger] events[k]).0, events[k].1), pos)
}

/// The particle initially at grid vertex `(row, col)`: at rest at
/// `(col * cell_size + 10, row * cell_size)`.
pub open spec fn grid_particle(row: int, col: int, options: CreatureConfig) -> Particle {
    let p = Vec2 {
        x: Fx {
            raw: fx_add(fx_mul(sat(col * 1_000_000), options.cell_size.v()), 10_000_000) as i64,
        },
        y: Fx { raw: fx_mul(sat(row * 1_000_000), options.cell_size.v()) as i64 },
    };
    Particle {
        position: p,
        old_position: p,
        acceleration: Vec2 { x: Fx { raw: 0 }, y: Fx { raw: 0 } },
        mass: options.node_mass,
        damping: options.node_damping,
    }
}

/// A spring of a quad: endpoints `(a, b)`, stiffness from the DNA
/// toughness, rest length `len`.
pub open spec fn quad_spring(s: Spring, a: int, b: int, len: Fx, dna: CellDna) -> bool {
    s.a_id == a && s.b_id == b && s.k == dna.toughness && s.length == len && s.start_length == len
}

/// Cell `i` of a fresh creature: DNA record `i`, position
/// `(i/size, i%size)`, six springs over the quad's shared vertices, and
/// the initial charge model.
pub open spec fn is_new_cell(c: Cell, i: int, dna: Seq<CellDna>, options: CreatureConfig) -> bool {
    let size = options.size as int;
    let side = size + 1;
    let row = i / size;
    let col = i % size;
    let id0 = row * side + col;
    let id1 = row * side + col + 1;
    let id2 = (row + 1) * side + col + 1;
    let id3 = (row + 1) * side + col;
    let edge = options.cell_size;
    let diag = Fx { raw: crate::cell::diagonal_len(options) as i64 };
    &&& c.dna == dna[i]
    &&& c.pos.0 == row
    &&& c.pos.1 == col
    &&& c.charge_model == initial_model(dna[i], options)
    &&& c.springs.len() == 6
    &&& quad_spring(c.springs@[0], id0, id1, edge, dna[i])
    &&& quad_spring(c.springs@[1], id1, id2, edge, dna[i])
    &&& quad_spring(c.springs@[2], id2, id3, edge, dna[i])
    &&& quad_spring(c.springs@[3], id3, id0, edge, dna[i])
    &&& quad_spring(c.springs@[4], id0, id2, diag, dna[i])
    &&& quad_spring(c.springs@[5], id3, id1, diag, dna[i])
}

/// A freshly built creature: particles at their grid vertices, one new
/// cell per grid square.
pub open spec fn is_new_creature(c: Creature, dna: Seq<CellDna>, options: CreatureConfig) -> bool {
    &&& c.size == options.size
    &&& c.particles.len() == (options.size + 1) * (options.size + 1)
    &&& c.cells.len() == options.size * options.size
    &&& forall|k: int|
        0 <= k < c.particles@.len() ==> #[trigger] c.particles@[k] == grid_particle(
            k / (options.size + 1) as int,
            k % (options.size + 1) as int,
            options,
        )
    &&& forall|i: int|
        0 <= i < c.cells@.len() ==> is_new_cell(#[trigger] c.cells@[i], i, dna, options)
}

/// Bounds of the row-major decomposition of an index below `size * size`.
proof fn lemma_grid_index(i: int, size: int)
    requires
        0 <= i,
        0 < size,
        i < size * size,
    ensures
        0 <= i / size < size,
        0 <= i % size < size,
        size * (i / size) + i % size == i,
{
    vstd::arithmetic::div_mod::lemma_fundamental_div_mod(i, size);
    vstd::arithmetic::div_mod::lemma_mod_bound(i, size);
    let q = i / size;
    if q >= size {
        assert(size * q >= size * size) by (nonlinear_arith)
            requires
                q >= size,
                size > 0,
        ;
    }
    if q < 0 {
        assert(size * q <= -size) by (nonlinear_arith)
            requires
                q <= -1,
                size > 0,
        ;
    }
}

impl Creature {
    /// Row-major index of the grid vertex or cell at `(row, col)`.
    pub fn get_cell_id(row: usize, col: usize, side_length: usize) -> (r: usize)
        requires
            row * side_length + col <= usize::MAX,
        ensures
            r == row * side_length + col,
    {
        row * side_length + col
    }

    /// Build a creature from its configuration and DNA: `(size+1)^2`
    /// particles at the grid vertices and `size^2` cells in row-major
    /// order.  Fails exactly when the DNA does not hold one cell record
    /// per grid square: such DNA is creature-invalid and callers skip it.
    pub fn new(options: CreatureConfig, dna: CreatureDna) -> (r: Option<Creature>)
        requires
            (options.size + 1) * (options.size + 1) <= usize::MAX,
        ensures
            match r {
                Some(c) => dna@.len() == options.size * options.size && creature_wf(c)
                    && is_new_creature(c, dna@, options),
                None => dna@.len() != options.size * options.size,
            },
    {
        let size = options.size;
        proof {
            assert(size + 1 <= (size + 1) * (size + 1) && size * size <= (size + 1) * (size + 1)
                && size + 1 <= 0x1_0000_0000) by (nonlinear_arith)
                requires
                    (size + 1) * (size + 1) <= usize::MAX,
                    usize::MAX < 0x1_0000_0000 * 0x1_0000_0000,
            ;
        }
        let side = size + 1;
        let n_cells = size * size;
        if dna.len() != n_cells {
            return None;
        }
        let n_particles = side * side;

        let mut particles: Vec<Particle> = Vec::new();
        for k in 0..n_particles
            invariant
                particles@.len() == k,
                side == options.size + 1,
                n_particles == side * side,
                side <= 0x1_0000_0000,
                forall|j: int|
                    0 <= j < k ==> #[trigger] particles@[j] == grid_particle(
                        j / (side as int),
                        j % (side as int),
                        options,
                    ),
        {
            proof {
                lemma_grid_index(k as int, side as int);
            }
            let row = k / side;
            let col = k % side;
            let x = Fx::from_int(col as i64).mul(options.cell_size).add(Fx { raw: 10_000_000 });
            let y = Fx::from_int(row as i64).mul(options.cell_size);
            let position = Vec2 { x, y };
            particles.push(
                Particle {
                    position,
                    old_position: position,
                    acceleration: Vec2::zero(),
                    mass: options.node_mass,
                    damping: options.node_damping,
                },
            );
        }

        let mut cells: Vec<Cell> = Vec::new();
        for i in 0..n_cells
            invariant
                cells@.len() == i,
                size == options.size,
                side == size + 1,
                n_cells == size * size,
                n_particles == side * side,
                n_particles == particles@.len(),
                side <= 0x1_0000_0000,
                (side as int) * (side as int) <= usize::MAX,
                dna@.len() == n_cells,
                forall|j: int|
                    0 <= j < i ==> is_new_cell(#[trigger] cells@[j], j, dna@, options),
                forall|j: int| 0 <= j < i ==> cell_wf(#[trigger] cells@[j], n_particles as int),
        {
            proof {
                assert(size > 0) by (nonlinear_arith)
                    requires
                        0 <= i < size * size,
                ;
                lemma_grid_index(i as int, size as int);
            }
            let row = i / size;
            let col = i % size;
            proof {
                assert((row + 1) * (side as int) == row * (side as int) + side
                    && row * (side as int) + side <= size * (side as int) && size * (side as int)
                    + side == (side as int) * (side as int)) by (nonlinear_arith)
                    requires
                        side == size + 1,
                        0 <= row < size,
                ;
            }
            let ids = [
                Creature::get_cell_id(row, col, side),
                Creature::get_cell_id(row, col + 1, side),
                Creature::get_cell_id(row + 1, col + 1, side),
                Creature::get_cell_id(row + 1, col, side),
            ];
            let cell = Cell::new(ids, options, dna[i], (row, col));
            cells.push(cell);
            proof {
                assert(cells@[i as int] == cell);
                assert(is_new_cell(cell, i as int, dna@, options));
                assert(cell_wf(cell, n_particles as int));
            }
        }

        proof {
            assert(size * size == (size as int) * (size as int));
        }
        Some(Creature { particles, cells, size })
    }
}

/// Discharge propagation is single-hop per step: stimuli are collected
/// before any is delivered, so within one step a cell is stimulated only
/// by the discharges its own grid neighbors produced when their models
/// advanced — never by a stimulus delivered in the same step.  A cell with
/// no discharging neighbor ends the step with exactly its advanced,
/// unstimulated model.
pub proof fn lemma_discharge_single_hop(oldc: Creature, newc: Creature, dt: int, i: int)
    requires
        creature_stepped(oldc, newc, dt),
        0 <= i < oldc.cells@.len(),
        !stimulated(oldc.cells@, dt, i),
    ensures
        newc.cells@[i].charge_model == model_updated(oldc.cells@[i].charge_model, dt),
{
}

/// The cell with its charge model stimulated once.
pub open spec fn charged_cell(c: Cell) -> Cell {
    Cell { charge_model: model_charged(c.charge_model), ..c }
}

proof fn lemma_event_neighbors_push(
    events: Seq<(usize, usize, Fx)>,
    ev: (usize, usize, Fx),
    pos: (usize, usize),
)
    ensures
        event_neighbors(events.push(ev), pos) == (event_neighbors(events, pos) || is_neighbor(
            (ev.0, ev.1),
            pos,
        )),
{
    if event_neighbors(events, pos) {
        let k = choose|k: int|
            0 <= k < events.len() && is_neighbor(((#[trigger] events[k]).0, events[k].1), pos);
        assert(events.push(ev)[k] == events[k]);
        assert(event_neighbors(events.push(ev), pos));
    }
    if is_neighbor((ev.0, ev.1), pos) {
        assert(events.push(ev)[events.len() as int] == ev);
        assert(event_neighbors(events.push(ev), pos));
    }
    if event_neighbors(events.push(ev), pos) {
        let k = choose|k: int|
            0 <= k < events.push(ev).len() && is_neighbor(
                ((#[trigger] events.push(ev)[k]).0, events.push(ev)[k].1),
                pos,
            );
        if k < events.len() {
            assert(events.push(ev)[k] == events[k]);
            assert(event_neighbors(events, pos));
        } else {
            assert(events.push(ev)[k] == ev);
        }
    }
}

/// Deliver one discharge event to the four von-Neumann neighbors of
/// `(row, col)` that exist on the grid.
fn deliver_event(cells: &mut Vec<Cell>, size: usize, row: usize, col: usize, amount: Fx)
    requires
        old(cells).len() == size * size,
        row < size,
        col < size,
        forall|i: int|
            0 <= i < old(cells)@.len() ==> (#[trigger] old(cells)@[i].pos).0 == i / (size as int)
                && old(cells)@[i].pos.1 == i % (size as int),
    ensures
        final(cells).len() == old(cells).len(),
        forall|i: int|
            0 <= i < old(cells)@.len() ==> #[trigger] final(cells)@[i] == (if is_neighbor(
                (row, col),
                old(cells)@[i].pos,
            ) {
                charged_cell(old(cells)@[i])
            } else {
                old(cells)@[i]
            }),
{
    let ghost orig = cells@;
    let ghost sz = size as int;
    proof {
        assert(row * sz + sz <= sz * sz && (row + 1) * sz == row * sz + sz && (row - 1) * sz == row
            * sz - sz) by (nonlinear_arith)
            requires
                0 <= row < sz,
        ;
        assert forall|i: int| 0 <= i < orig.len() implies sz * #[trigger] (i / sz) + (i % sz) == i
            && 0 <= i % sz < sz by {
            vstd::arithmetic::div_mod::lemma_fundamental_div_mod(i, sz);
            vstd::arithmetic::div_mod::lemma_mod_bound(i, sz);
        }
        assert forall|r: int, c: int|
            0 <= r < size && 0 <= c < size implies #[trigger] ((r * sz + c) / sz) == r && (r * sz
            + c) % sz == c by {
            vstd::arithmetic::div_mod::lemma_fundamental_div_mod_converse(r * sz + c, sz, r, c);
        }
    }
    if col + 1 < size {
        let idx = row * size + (col + 1);
        cells[idx].charge_model.charge(amount);
    }
    if col >= 1 {
        let idx = row * size + (col - 1);
        cells[idx].charge_model.charge(amount);
    }
    if row + 1 < size {
        proof {
            assert(row * sz + sz + col < sz * sz) by (nonlinear_arith)
                requires
                    0 <= row,
                    row + 1 < sz,
                    0 <= col < sz,
            ;
        }
        let idx = (row + 1) * size + col;
        cells[idx].charge_model.charge(amount);
    }
    if row >= 1 {
        let idx = (row - 1) * size + col;
        cells[idx].charge_model.charge(amount);
    }
    proof {
        assert forall|i: int| 0 <= i < orig.len() implies #[trigger] cells@[i] == (if is_neighbor(
            (row, col),
            orig[i].pos,
        ) {
            charged_cell(orig[i])
        } else {
            orig[i]
        }) by {
            vstd::arithmetic::div_mod::lemma_fundamental_div_mod(i, sz);
            vstd::arithmetic::div_mod::lemma_mod_bound(i, sz);
        }
    }
}

impl Creature {
    /// One creature step: update every cell's geometry and charge model,
    /// collect all discharges, deliver each to the grid neighbors of its
    /// cell (single-hop: stimuli collected this step are not re-examined),
    /// then integrate every particle.
    #[verifier::rlimit(60)]
    pub fn update(&mut self, dt: Fx)
        requires
            creature_wf(*old(self)),
        ensures
            creature_stepped(*old(self), *final(self), dt.v()),
            creature_wf(*final(self)),
    {
        let ghost orig = *self;
        let n_cells = self.cells.len();
        let mut discharges: Vec<(usize, usize, Fx)> = Vec::new();

        for i in 0..n_cells
            invariant
                creature_wf(orig),
                n_cells == orig.cells@.len(),
                self.size == orig.size,
                self.cells.len() == n_cells,
                self.particles.len() == orig.particles.len(),
                self.particles@ == all_cells_applied(orig.particles@, orig.cells@.take(i as int)),
                forall|j: int| i <= j < n_cells ==> self.cells@[j] == orig.cells@[j],
                forall|j: int|
                    0 <= j < i ==> cell_geometry_stepped(orig.cells@[j], #[trigger] self.cells@[j]),
                forall|j: int|
                    0 <= j < i ==> (#[trigger] self.cells@[j]).charge_model == model_updated(
                        orig.cells@[j].charge_model,
                        dt.v(),
                    ),
                forall|k: int|
                    0 <= k < discharges@.len() ==> event_matches(
                        orig.cells@,
                        dt.v(),
                        #[trigger] discharges@[k],
                    ),
                forall|j: int|
                    0 <= j < i && model_discharge(
                        model_updated(orig.cells@[j].charge_model, dt.v()),
                    ) > 0 ==> has_event_at(discharges@, (#[trigger] orig.cells@[j]).pos),
        {
            proof {
                assert(cell_wf(orig.cells@[i as int], orig.particles.len() as int));
            }
            self.cells[i].update(&mut self.particles, dt);
            self.cells[i].charge_model.update(dt);
            proof {
                lemma_all_cells_applied_push(
                    orig.particles@,
                    orig.cells@.take(i as int),
                    orig.cells@[i as int],
                );
                assert(orig.cells@.take(i as int).push(orig.cells@[i as int]) =~= orig.cells@.take(
                    i as int + 1,
                ));
            }
            let d = self.cells[i].charge_model.get_discharge();
            if d.raw > 0 {
                let p = self.cells[i].pos;
                let ghost before = discharges@;
                discharges.push((p.0, p.1, d));
                proof {
                    assert(discharges@[before.len() as int] == (p.0, p.1, d));
                    assert(event_matches(orig.cells@, dt.v(), (p.0, p.1, d)));
                    assert forall|j: int|
                        0 <= j < i + 1 && model_discharge(
                            model_updated(orig.cells@[j].charge_model, dt.v()),
                        ) > 0 implies has_event_at(
                        discharges@,
                        (#[trigger] orig.cells@[j]).pos,
                    ) by {
                        if j < i {
                            let k = choose|k: int|
                                0 <= k < before.len() && ((#[trigger] before[k]).0, before[k].1)
                                    == orig.cells@[j].pos;
                            assert(discharges@[k] == before[k]);
                        } else {
                            assert(((discharges@[before.len() as int]).0,
                            (discharges@[before.len() as int]).1) == orig.cells@[j].pos);
                        }
                    }
                }
            }
        }

        let ghost mid_cells = self.cells@;
        let ghost mid_ps = self.particles@;
        proof {
            assert(orig.cells@.take(n_cells as int) =~= orig.cells@);
        }

        let n_events = discharges.len();
        for e in 0..n_events
            invariant
                creature_wf(orig),
                n_cells == orig.cells@.len(),
                n_events == discharges@.len(),
                self.size == orig.size,
                self.cells.len() == n_cells,
                mid_cells.len() == n_cells,
                self.particles@ == mid_ps,
                forall|k: int|
                    0 <= k < discharges@.len() ==> event_matches(
                        orig.cells@,
                        dt.v(),
                        #[trigger] discharges@[k],
                    ),
                forall|j: int|
                    0 <= j < n_cells ==> (#[trigger] mid_cells[j]).pos == orig.cells@[j].pos,
                forall|i: int|
                    0 <= i < n_cells ==> #[trigger] self.cells@[i] == (if event_neighbors(
                        discharges@.take(e as int),
                        orig.cells@[i].pos,
                    ) {
                        charged_cell(mid_cells[i])
                    } else {
                        mid_cells[i]
                    }),
        {
            let ev = discharges[e];
            let ghost before_cells = self.cells@;
            proof {
                assert(event_matches(orig.cells@, dt.v(), ev));
                let j = choose|j: int|
                    0 <= j < orig.cells@.len() && (#[trigger] orig.cells@[j].pos) == (ev.0, ev.1)
                        && model_discharge(model_updated(orig.cells@[j].charge_model, dt.v())) > 0;
                assert(orig.size > 0) by (nonlinear_arith)
                    requires
                        0 <= j < orig.size * orig.size,
                ;
                lemma_grid_index(j, orig.size as int);
                assert(ev.0 < orig.size && ev.1 < orig.size);
                assert forall|i: int| 0 <= i < n_cells implies (#[trigger] self.cells@[i].pos).0
                    == i / (orig.size as int) && self.cells@[i].pos.1 == i % (orig.size as int) by {
                    assert(self.cells@[i].pos == orig.cells@[i].pos);
                }
            }
            deliver_event(&mut self.cells, self.size, ev.0, ev.1, ev.2);
            proof {
                assert(discharges@.take(e as int).push(ev) =~= discharges@.take(e as int + 1));
                assert forall|i: int| 0 <= i < n_cells implies #[trigger] self.cells@[i] == (
                if event_neighbors(discharges@.take(e as int + 1), orig.cells@[i].pos) {
                    charged_cell(mid_cells[i])
                } else {
                    mid_cells[i]
                }) by {
                    lemma_event_neighbors_push(
                        discharges@.take(e as int),
                        ev,
                        orig.cells@[i].pos,
                    );
                    crate::charge::lemma_model_charged_idempotent(mid_cells[i].charge_model);
                    assert(before_cells[i].pos == orig.cells@[i].pos);
                }
            }
        }

        proof {
            assert(discharges@.take(n_events as int) =~= discharges@);
        }

        let ghost post_cells = self.cells@;
        let n_particles = self.particles.len();
        for k in 0..n_particles
            invariant
                n_particles == mid_ps.len(),
                self.particles.len() == n_particles,
                self.cells@ == post_cells,
                self.size == orig.size,
                forall|j: int| k <= j < n_particles ==> self.particles@[j] == mid_ps[j],
                forall|j: int|
                    0 <= j < k ==> #[trigger] self.particles@[j] == integrated(mid_ps[j], dt.v()),
        {
            self.particles[k].integrate(dt);
        }

        proof {
            assert(self.particles@ =~= mid_ps.map_values(|p: Particle| integrated(p, dt.v())));
            assert forall|i: int| 0 <= i < n_cells implies (#[trigger] self.cells@[i]).charge_model
                == stepped_model(orig.cells@, dt.v(), i) && cell_geometry_stepped(
                orig.cells@[i],
                self.cells@[i],
            ) by {
                if event_neighbors(discharges@, orig.cells@[i].pos) {
                    let k = choose|k: int|
                        0 <= k < discharges@.len() && is_neighbor(
                            ((#[trigger] discharges@[k]).0, discharges@[k].1),
                            orig.cells@[i].pos,
                        );
                    assert(event_matches(orig.cells@, dt.v(), discharges@[k]));
                    let j = choose|j: int|
                        0 <= j < orig.cells@.len() && (#[trigger] orig.cells@[j].pos) == (
                        discharges@[k].0,
                        discharges@[k].1,
                        ) && model_discharge(model_updated(orig.cells@[j].charge_model, dt.v()))
                            > 0;
                    assert(stimulated(orig.cells@, dt.v(), i));
                }
                if stimulated(orig.cells@, dt.v(), i) {
                    let j = choose|j: int|
                        0 <= j < orig.cells@.len() && model_discharge(
                            model_updated(#[trigger] orig.cells@[j].charge_model, dt.v()),
                        ) > 0 && is_neighbor(orig.cells@[j].pos, orig.cells@[i].pos);
                    assert(has_event_at(discharges@, orig.cells@[j].pos));
                    let k = choose|k: int|
                        0 <= k < discharges@.len() && ((#[trigger] discharges@[k]).0,
                        discharges@[k].1) == orig.cells@[j].pos;
                    assert(event_neighbors(discharges@, orig.cells@[i].pos));
                }
            }
            assert forall|i: int| 0 <= i < n_cells implies cell_wf(
                #[trigger] self.cells@[i],
                self.particles.len() as int,
            ) by {
                assert(cell_wf(orig.cells@[i], orig.particles.len() as int));
                assert(self.cells@[i].springs@ == retargeted_springs(orig.cells@[i]));
                assert forall|s: int| 0 <= s < self.cells@[i].springs@.len() implies spring_wf(
                    #[trigger] self.cells@[i].springs@[s],
                    self.particles.len() as int,
                ) by {
                    assert(self.cells@[i].springs@[s] == crate::cell::retargeted(
                        orig.cells@[i].springs@[s],
                        crate::cell::cell_len_mult(orig.cells@[i]),
                    ));
                    assert(spring_wf(orig.cells@[i].springs@[s], orig.particles.len() as int));
                }
            }
        }
    }
}

} // verus!
