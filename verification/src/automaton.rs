//! The fire automaton: seeding a grid, picking an ignition point, and the
//! one-step transition of the whole grid.

use vstd::prelude::*;

use crate::grid::{lemma_rm_idx, rm_idx, Cell, Grid};
use crate::prob::{FireError, Prob};
use crate::random::{bernoulli, uniform_below};

verus! {

/// The per-cell state machine of one step. `hot` says whether the cell had a
/// burning 4-connected neighbor before the step.
///
/// Empty and Burned are absorbing; Burning always burns out; a Tree either
/// stands or ignites, and ignites only from a burning neighbor.
pub open spec fn cell_step_ok(before: Cell, after: Cell, hot: bool) -> bool {
    match before {
        Cell::Empty => after == Cell::Empty,
        Cell::Tree => {
            &&& (after == Cell::Tree || after == Cell::Burning)
            &&& (after == Cell::Burning ==> hot)
        },
        Cell::Burning => after == Cell::Burned,
        Cell::Burned => after == Cell::Burned,
    }
}

/// What one step guarantees of every cell, independent of the random draws:
/// g2 is a possible successor grid of g1.
pub open spec fn step_rel(g1: Grid, g2: Grid) -> bool {
    &&& g1.wf()
    &&& g2.wf()
    &&& g2.spec_size() == g1.spec_size()
    &&& forall|r: int, c: int|
        g1.in_bounds(r, c) ==> cell_step_ok(
            #[trigger] g1.cell(r, c),
            g2.cell(r, c),
            g1.has_burning_neighbor(r, c),
        )
}

/// What the finished prefix of the new cell vector satisfies, cell by cell,
/// including the two guarantees that depend on the spread probability.
spec fn cell_result_ok(g: Grid, p: Prob, r: int, c: int, v: Cell) -> bool {
    &&& cell_step_ok(g.cell(r, c), v, g.has_burning_neighbor(r, c))
    &&& (p.is_never() && g.cell(r, c) == Cell::Tree ==> v == Cell::Tree)
    &&& (p.is_always() && g.cell(r, c) == Cell::Tree && g.has_burning_neighbor(r, c) ==> v
        == Cell::Burning)
}

/// The next state of the cell at (r, c), drawing one independent Bernoulli
/// trial per burning 4-connected neighbor when the cell holds a tree.
fn next_cell(g: &Grid, r: usize, c: usize, p: Prob, rng: &mut rand::rngs::StdRng) -> (v: Cell)
    requires
        g.wf(),
        g.in_bounds(r as int, c as int),
        p.valid(),
    ensures
        cell_result_ok(*g, p, r as int, c as int, v),
{
    let size = g.size();
    match g.cell_at(r, c) {
        Cell::Empty => Cell::Empty,
        Cell::Burned => Cell::Burned,
        Cell::Burning => Cell::Burned,
        Cell::Tree => {
            let mut ignited = false;
            if r + 1 < size && g.cell_at(r + 1, c) == Cell::Burning {
                let t = bernoulli(rng, p.num_val(), p.den_val());
                ignited = ignited || t;
            }
            if r > 0 && g.cell_at(r - 1, c) == Cell::Burning {
                let t = bernoulli(rng, p.num_val(), p.den_val());
                ignited = ignited || t;
            }
            if c > 0 && g.cell_at(r, c - 1) == Cell::Burning {
                let t = bernoulli(rng, p.num_val(), p.den_val());
                ignited = ignited || t;
            }
            if c + 1 < size && g.cell_at(r, c + 1) == Cell::Burning {
                let t = bernoulli(rng, p.num_val(), p.den_val());
                ignited = ignited || t;
            }
            if ignited {
                Cell::Burning
            } else {
                Cell::Tree
            }
        },
    }
}

/// Advance the whole grid by one step: every burning cell burns out, and each
/// tree next to a burning cell ignites with probability p, one independent
/// trial per burning neighbor. Reads only the old grid, so fire spreads by
/// exactly one ring of neighbors per step.
pub fn step(g: &Grid, p: Prob, rng: &mut rand::rngs::StdRng) -> (g2: Grid)
    requires
        g.wf(),
        p.valid(),
    ensures
        step_rel(*g, g2),
        p.is_never() ==> forall|r: int, c: int|
            g.in_bounds(r, c) && #[trigger] g.cell(r, c) == Cell::Tree ==> g2.cell(r, c)
                == Cell::Tree,
        p.is_always() ==> forall|r: int, c: int|
            g.in_bounds(r, c) && #[trigger] g.cell(r, c) == Cell::Tree && g.has_burning_neighbor(
                r,
                c,
            ) ==> g2.cell(r, c) == Cell::Burning,
{
    let size = g.size();
    let mut cells: Vec<Cell> = Vec::new();
    let mut r: usize = 0;
    while r < size
        invariant
            g.wf(),
            p.valid(),
            size as int == g.spec_size(),
            r <= size,
            cells@.len() == r * size,
            forall|r2: int, c2: int|
                0 <= r2 < r && 0 <= c2 < size ==> cell_result_ok(
                    *g,
                    p,
                    r2,
                    c2,
                    #[trigger] cells@[rm_idx(r2, c2, size as int)],
                ),
        decreases size - r,
    {
        let mut c: usize = 0;
        while c < size
            invariant
                g.wf(),
                p.valid(),
                size as int == g.spec_size(),
                r < size,
                c <= size,
                cells@.len() == r * size + c,
                forall|r2: int, c2: int|
                    0 <= r2 < r && 0 <= c2 < size ==> cell_result_ok(
                        *g,
                        p,
                        r2,
                        c2,
                        #[trigger] cells@[rm_idx(r2, c2, size as int)],
                    ),
                forall|c2: int|
                    0 <= c2 < c ==> cell_result_ok(
                        *g,
                        p,
                        r as int,
                        c2,
                        #[trigger] cells@[rm_idx(r as int, c2, size as int)],
                    ),
            decreases size - c,
        {
            let v = next_cell(g, r, c, p, rng);
            cells.push(v);
            proof {
                assert forall|r2: int, c2: int| 0 <= r2 < r && 0 <= c2 < size implies cell_result_ok(
                    *g,
                    p,
                    r2,
                    c2,
                    #[trigger] cells@[rm_idx(r2, c2, size as int)],
                ) by {
                    lemma_rm_idx(r2, c2, r as int, c as int, size as int);
                    assert(rm_idx(r2, c2, size as int) < r * size) by (nonlinear_arith)
                        requires
                            0 <= r2 < r as int,
                            0 <= c2 < size as int,
                    ;
                }
                assert forall|c2: int| 0 <= c2 <= c implies cell_result_ok(
                    *g,
                    p,
                    r as int,
                    c2,
                    #[trigger] cells@[rm_idx(r as int, c2, size as int)],
                ) by {
                    lemma_rm_idx(r as int, c2, r as int, c as int, size as int);
                }
            }
            c += 1;
        }
        proof {
            assert((r + 1) * size == r * size + size) by (nonlinear_arith);
        }
        r += 1;
    }
    let g2 = Grid::from_cells(size, cells);
    proof {
        assert forall|r2: int, c2: int| g.in_bounds(r2, c2) implies cell_result_ok(
            *g,
            p,
            r2,
            c2,
            g2.cell(r2, c2),
        ) by {
            lemma_rm_idx(r2, c2, r2, c2, size as int);
        }
    }
    g2
}

/// Draw a fresh grid of the given dimension: each cell independently holds a
/// tree with the given density, else stays empty. No cell starts burning or
/// burned. A dimension of zero is rejected as InvalidParameter.
pub fn new_random(size: usize, density: Prob, rng: &mut rand::rngs::StdRng) -> (res: Result<
    Grid,
    FireError,
>)
    requires
        density.valid(),
        size * size <= usize::MAX,
    ensures
        res is Ok <==> size > 0,
        res is Err ==> res == Err::<Grid, FireError>(FireError::InvalidParameter),
        res matches Ok(g) ==> {
            &&& g.wf()
            &&& g.spec_size() == size as int
            &&& forall|r: int, c: int|
                g.in_bounds(r, c) ==> (#[trigger] g.cell(r, c) == Cell::Tree || g.cell(r, c)
                    == Cell::Empty)
            &&& (density.is_never() ==> forall|r: int, c: int|
                g.in_bounds(r, c) ==> #[trigger] g.cell(r, c) == Cell::Empty)
            &&& (density.is_always() ==> forall|r: int, c: int|
                g.in_bounds(r, c) ==> #[trigger] g.cell(r, c) == Cell::Tree)
        },
{
    if size == 0 {
        return Err(FireError::InvalidParameter);
    }
    let n = size * size;
    let mut cells: Vec<Cell> = Vec::new();
    let mut i: usize = 0;
    while i < n
        invariant
            density.valid(),
            n == size * size,
            i <= n,
            cells@.len() == i,
            forall|j: int|
                0 <= j < i ==> (#[trigger] cells@[j] == Cell::Tree || cells@[j] == Cell::Empty),
            density.is_never() ==> forall|j: int| 0 <= j < i ==> #[trigger] cells@[j] == Cell::Empty,
            density.is_always() ==> forall|j: int| 0 <= j < i ==> #[trigger] cells@[j] == Cell::Tree,
        decreases n - i,
    {
        let t = bernoulli(rng, density.num_val(), density.den_val());
        if t {
            cells.push(Cell::Tree);
        } else {
            cells.push(Cell::Empty);
        }
        i += 1;
    }
    let g = Grid::from_cells(size, cells);
    proof {
        assert forall|r: int, c: int| g.in_bounds(r, c) implies 0 <= rm_idx(r, c, size as int) < n
            as int by {
            lemma_rm_idx(r, c, r, c, size as int);
        }
    }
    Ok(g)
}

/// Pick a random tree cell to set on fire: bounded random sampling first, then
/// an exhaustive scan, so the choice succeeds exactly when the grid holds at
/// least one tree and fails with NoFuelAvailable otherwise.
pub fn choose_ignition(g: &Grid, rng: &mut rand::rngs::StdRng) -> (res: Result<
    (usize, usize),
    FireError,
>)
    requires
        g.wf(),
        g.spec_size() > 0,
    ensures
        res is Ok <==> g.spec_has(Cell::Tree),
        res matches Ok(p) ==> g.in_bounds(p.0 as int, p.1 as int) && g.cell(p.0 as int, p.1 as int)
            == Cell::Tree,
        res is Err ==> res == Err::<(usize, usize), FireError>(FireError::NoFuelAvailable),
{
    let size = g.size();
    let cap = g.cell_count();
    let mut attempts: usize = 0;
    while attempts < cap
        invariant
            g.wf(),
            size as int == g.spec_size(),
            size > 0,
            attempts <= cap,
        decreases cap - attempts,
    {
        let rr = uniform_below(rng, size);
        let cc = uniform_below(rng, size);
        if g.cell_at(rr, cc) == Cell::Tree {
            proof {
                assert(g.in_bounds(rr as int, cc as int) && g.cell(rr as int, cc as int)
                    == Cell::Tree);
            }
            return Ok((rr, cc));
        }
        attempts += 1;
    }
    match g.find_cell(Cell::Tree) {
        Some(p) => {
            proof {
                assert(g.in_bounds(p.0 as int, p.1 as int) && g.cell(p.0 as int, p.1 as int)
                    == Cell::Tree);
            }
            Ok(p)
        },
        None => Err(FireError::NoFuelAvailable),
    }
}

/// Seed a whole simulation: draw a random grid, then ignite one random tree.
/// On success the grid has its dimension, at least one burning cell, and no
/// burned cell yet.
pub fn initialize(size: usize, density: Prob, rng: &mut rand::rngs::StdRng) -> (res: Result<
    Grid,
    FireError,
>)
    requires
        density.valid(),
        size * size <= usize::MAX,
    ensures
        res matches Ok(g) ==> {
            &&& g.wf()
            &&& g.spec_size() == size as int
            &&& g.spec_has_burning()
            &&& forall|r: int, c: int|
                g.in_bounds(r, c) ==> #[trigger] g.cell(r, c) != Cell::Burned
        },
        size == 0 ==> res == Err::<Grid, FireError>(FireError::InvalidParameter),
        size > 0 && density.is_always() ==> res is Ok,
        size > 0 && res is Err ==> res == Err::<Grid, FireError>(FireError::NoFuelAvailable),
{
    let mut g = match new_random(size, density, rng) {
        Ok(g0) => g0,
        Err(e) => {
            return Err(e);
        },
    };
    proof {
        if density.is_always() {
            assert(g.in_bounds(0, 0));
            assert(g.cell(0, 0) == Cell::Tree);
        }
    }
    let (r, c) = match choose_ignition(&g, rng) {
        Ok(p) => p,
        Err(e) => {
            return Err(e);
        },
    };
    let ghost g_before = g;
    g.ignite(r, c);
    proof {
        assert forall|r2: int, c2: int| g.in_bounds(r2, c2) implies #[trigger] g.cell(r2, c2)
            != Cell::Burned by {
            if r2 == r as int && c2 == c as int {
                assert(g.cell(r2, c2) == Cell::Burning);
            } else {
                assert(g.cell(r2, c2) == g_before.cell(r2, c2));
            }
        }
    }
    Ok(g)
}

} // verus!
