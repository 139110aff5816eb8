//! Proved laws of the automaton: the per-cell transition guarantees of a
//! step, and termination of the whole simulation within size * size steps.

use vstd::prelude::*;

use crate::automaton::{cell_step_ok, step_rel};
use crate::grid::{lemma_rm_idx, rm_idx, Cell, Grid};

verus! {

use vstd::arithmetic::div_mod::{
    lemma_div_pos_is_pos,
    lemma_fundamental_div_mod,
    lemma_mod_division_less_than_divisor,
    lemma_multiply_divide_lt,
};
use vstd::arithmetic::mul::{lemma_mul_is_commutative, lemma_mul_nonnegative};

/// A cell that can still change state: a tree or a burning cell.
pub open spec fn flammable(c: Cell) -> bool {
    c == Cell::Tree || c == Cell::Burning
}

/// How many cells of the sequence can still change state.
pub open spec fn fuel_of(cells: Seq<Cell>) -> nat
    decreases cells.len(),
{
    if cells.len() == 0 {
        0
    } else {
        fuel_of(cells.drop_last()) + (if flammable(cells.last()) {
            1nat
        } else {
            0nat
        })
    }
}

/// How many cells of the grid can still change state.
pub open spec fn fuel(g: Grid) -> nat {
    fuel_of(g.spec_cells())
}

/// No sequence holds more fuel than cells.
proof fn lemma_fuel_le_len(cells: Seq<Cell>)
    ensures
        fuel_of(cells) <= cells.len(),
    decreases cells.len(),
{
    if cells.len() > 0 {
        lemma_fuel_le_len(cells.drop_last());
    }
}

/// Fuel never grows under a pointwise transition that makes no cell flammable
/// that was not flammable before.
proof fn lemma_fuel_pointwise(s1: Seq<Cell>, s2: Seq<Cell>)
    requires
        s1.len() == s2.len(),
        forall|i: int| 0 <= i < s1.len() ==> (flammable(#[trigger] s2[i]) ==> flammable(s1[i])),
    ensures
        fuel_of(s2) <= fuel_of(s1),
    decreases s1.len(),
{
    if s1.len() > 0 {
        lemma_fuel_pointwise(s1.drop_last(), s2.drop_last());
    }
}

/// Fuel strictly shrinks when in addition some cell loses its flammability.
proof fn lemma_fuel_strict(s1: Seq<Cell>, s2: Seq<Cell>, k: int)
    requires
        s1.len() == s2.len(),
        forall|i: int| 0 <= i < s1.len() ==> (flammable(#[trigger] s2[i]) ==> flammable(s1[i])),
        0 <= k < s1.len(),
        flammable(s1[k]),
        !flammable(s2[k]),
    ensures
        fuel_of(s2) < fuel_of(s1),
    decreases s1.len(),
{
    if k == s1.len() - 1 {
        lemma_fuel_pointwise(s1.drop_last(), s2.drop_last());
    } else {
        lemma_fuel_strict(s1.drop_last(), s2.drop_last(), k);
    }
}

/// LAW: a step of a grid with at least one burning cell strictly consumes
/// fuel, whatever the random draws did. A burning cell always burns out, and
/// a cell can only ignite where a tree stood, so the count of cells that can
/// still change drops by at least one.
pub proof fn lemma_step_consumes_fuel(g1: Grid, g2: Grid)
    requires
        step_rel(g1, g2),
        g1.spec_has_burning(),
    ensures
        fuel(g2) < fuel(g1),
{
    let s = g1.spec_size();
    assert forall|i: int| 0 <= i < g1.spec_cells().len() implies (flammable(
        #[trigger] g2.spec_cells()[i],
    ) ==> flammable(g1.spec_cells()[i])) by {
        let r = i / s;
        let c = i % s;
        lemma_div_pos_is_pos(i, s);
        lemma_multiply_divide_lt(i, s, s);
        lemma_mod_division_less_than_divisor(i, s);
        lemma_fundamental_div_mod(i, s);
        lemma_mul_is_commutative(s, r);
        assert(rm_idx(r, c, s) == i);
        assert(cell_step_ok(g1.cell(r, c), g2.cell(r, c), g1.has_burning_neighbor(r, c)));
    }
    let (br, bc) = choose|br: int, bc: int|
        g1.in_bounds(br, bc) && g1.cell(br, bc) == Cell::Burning;
    lemma_rm_idx(br, bc, br, bc, s);
    let k = rm_idx(br, bc, s);
    assert(cell_step_ok(g1.cell(br, bc), g2.cell(br, bc), g1.has_burning_neighbor(br, bc)));
    assert(flammable(g1.spec_cells()[k]));
    assert(!flammable(g2.spec_cells()[k]));
    lemma_fuel_strict(g1.spec_cells(), g2.spec_cells(), k);
}

/// LAW: no grid holds more fuel than it has cells.
pub proof fn lemma_fuel_bounded(g: Grid)
    requires
        g.wf(),
    ensures
        fuel(g) <= g.spec_size() * g.spec_size(),
{
    lemma_fuel_le_len(g.spec_cells());
}

/// LAW: the simulation terminates. In a chain of successive step results in
/// which every grid before a step still has a burning cell, the number of
/// steps taken is at most the first grid's fuel, hence at most size * size.
pub proof fn lemma_fire_dies_out(gs: Seq<Grid>)
    requires
        gs.len() >= 1,
        forall|i: int| 0 <= i < gs.len() - 1 ==> step_rel(#[trigger] gs[i], gs[i + 1]),
        forall|i: int| 0 <= i < gs.len() - 1 ==> (#[trigger] gs[i]).spec_has_burning(),
    ensures
        gs.len() - 1 <= fuel(gs[0]),
        gs.len() - 1 <= gs[0].spec_size() * gs[0].spec_size(),
    decreases gs.len(),
{
    gs[0].lemma_size_nonneg();
    lemma_mul_nonnegative(gs[0].spec_size(), gs[0].spec_size());
    if gs.len() >= 2 {
        assert(step_rel(gs[0], gs[1]));
        lemma_step_consumes_fuel(gs[0], gs[1]);
        let tail = gs.subrange(1, gs.len() as int);
        assert forall|i: int| 0 <= i < tail.len() - 1 implies step_rel(
            #[trigger] tail[i],
            tail[i + 1],
        ) by {
            assert(step_rel(gs[i + 1], gs[i + 2]));
        }
        assert forall|i: int| 0 <= i < tail.len() - 1 implies (
        #[trigger] tail[i]).spec_has_burning() by {
            assert(gs[i + 1].spec_has_burning());
        }
        lemma_fire_dies_out(tail);
        assert(tail[0] == gs[1]);
        lemma_fuel_bounded(gs[0]);
    }
}

/// LAW: what one step does to each cell. Empty and burned cells never change;
/// a burning cell is burned after the step, unconditionally; a tree either
/// stands or is burning, never burned or empty at once; and a tree ignites
/// only when it had a burning 4-connected neighbor before the step.
pub proof fn lemma_cell_transitions(g1: Grid, g2: Grid, r: int, c: int)
    requires
        step_rel(g1, g2),
        g1.in_bounds(r, c),
    ensures
        g1.cell(r, c) == Cell::Empty ==> g2.cell(r, c) == Cell::Empty,
        g1.cell(r, c) == Cell::Burned ==> g2.cell(r, c) == Cell::Burned,
        g1.cell(r, c) == Cell::Burning ==> g2.cell(r, c) == Cell::Burned,
        g1.cell(r, c) == Cell::Tree ==> (g2.cell(r, c) == Cell::Tree || g2.cell(r, c)
            == Cell::Burning),
        g1.cell(r, c) == Cell::Tree && g2.cell(r, c) == Cell::Burning ==> g1.has_burning_neighbor(
            r,
            c,
        ),
{
    assert(cell_step_ok(g1.cell(r, c), g2.cell(r, c), g1.has_burning_neighbor(r, c)));
}

} // verus!
