//! The grid data model: cell states and a square matrix of cells.

use vstd::prelude::*;

verus! {

/// The state of one cell of the grid.
#[derive(Clone, Copy, PartialEq, Eq, Structural, Debug)]
pub enum Cell {
    /// No fuel; never changes.
    Empty,
    /// Flammable; may catch fire from a burning neighbor.
    Tree,
    /// On fire; burns out on the next step.
    Burning,
    /// Burnt out; never changes again.
    Burned,
}

/// The flat index of (r, c) in a row-major square matrix of the given size.
pub open spec fn rm_idx(r: int, c: int, size: int) -> int {
    r * size + c
}

/// In-bounds coordinates address distinct flat indexes, all below size * size.
pub proof fn lemma_rm_idx(r1: int, c1: int, r2: int, c2: int, size: int)
    requires
        0 <= r1 < size,
        0 <= c1 < size,
        0 <= r2 < size,
        0 <= c2 < size,
    ensures
        0 <= rm_idx(r1, c1, size) < size * size,
        rm_idx(r1, c1, size) == rm_idx(r2, c2, size) ==> r1 == r2 && c1 == c2,
{
    assert(0 <= r1 * size + c1 < size * size) by (nonlinear_arith)
        requires
            0 <= r1 < size,
            0 <= c1 < size,
    ;
    assert(r1 * size + c1 == r2 * size + c2 ==> r1 == r2 && c1 == c2) by (nonlinear_arith)
        requires
            0 <= r1 < size,
            0 <= c1 < size,
            0 <= r2 < size,
            0 <= c2 < size,
    ;
}

/// A square grid of cells with a fixed dimension, stored in row-major order.
pub struct Grid {
    size: usize,
    cells: Vec<Cell>,
}

impl Grid {
    /// The dimension of the square grid.
    pub closed spec fn spec_size(&self) -> int {
        self.size as int
    }

    /// The cells in row-major order.
    pub closed spec fn spec_cells(&self) -> Seq<Cell> {
        self.cells@
    }

    /// A grid is well formed when it holds exactly size * size cells.
    pub open spec fn wf(&self) -> bool {
        self.spec_cells().len() == self.spec_size() * self.spec_size()
    }

    /// Whether (r, c) addresses a cell of the grid.
    pub open spec fn in_bounds(&self, r: int, c: int) -> bool {
        0 <= r < self.spec_size() && 0 <= c < self.spec_size()
    }

    /// The state of the cell at row r, column c.
    pub open spec fn cell(&self, r: int, c: int) -> Cell {
        self.spec_cells()[rm_idx(r, c, self.spec_size())]
    }

    /// Whether at least one cell is in the given state.
    pub open spec fn spec_has(&self, target: Cell) -> bool {
        exists|r: int, c: int| self.in_bounds(r, c) && self.cell(r, c) == target
    }

    /// Whether at least one cell is burning: the simulation runs while this holds.
    pub open spec fn spec_has_burning(&self) -> bool {
        self.spec_has(Cell::Burning)
    }

    /// Whether the cell at (r, c) has a 4-connected neighbor that is burning.
    pub open spec fn has_burning_neighbor(&self, r: int, c: int) -> bool {
        ||| (r + 1 < self.spec_size() && self.cell(r + 1, c) == Cell::Burning)
        ||| (r > 0 && self.cell(r - 1, c) == Cell::Burning)
        ||| (c > 0 && self.cell(r, c - 1) == Cell::Burning)
        ||| (c + 1 < self.spec_size() && self.cell(r, c + 1) == Cell::Burning)
    }

    /// Assemble a grid from its dimension and its cells in row-major order.
    pub(crate) fn from_cells(size: usize, cells: Vec<Cell>) -> (g: Grid)
        requires
            cells@.len() == size * size,
        ensures
            g.wf(),
            g.spec_size() == size as int,
            g.spec_cells() == cells@,
    {
        Grid { size, cells }
    }

    /// The dimension is never negative.
    pub proof fn lemma_size_nonneg(&self)
        ensures
            self.spec_size() >= 0,
    {
    }

    /// The dimension of the square grid.
    pub fn size(&self) -> (s: usize)
        ensures
            s as int == self.spec_size(),
    {
        self.size
    }

    /// How many cells the grid holds.
    pub fn cell_count(&self) -> (n: usize)
        requires
            self.wf(),
        ensures
            n as int == self.spec_size() * self.spec_size(),
    {
        self.cells.len()
    }

    /// Read the state of the cell at (r, c).
    pub fn cell_at(&self, r: usize, c: usize) -> (v: Cell)
        requires
            self.wf(),
            self.in_bounds(r as int, c as int),
        ensures
            v == self.cell(r as int, c as int),
    {
        proof {
            lemma_rm_idx(r as int, c as int, r as int, c as int, self.spec_size());
            vstd::std_specs::vec::axiom_spec_len(&self.cells);
        }
        self.cells[r * self.size + c]
    }

    /// Overwrite the state of the cell at (r, c), leaving every other cell as it was.
    pub(crate) fn set_cell(&mut self, r: usize, c: usize, v: Cell)
        requires
            old(self).wf(),
            old(self).in_bounds(r as int, c as int),
        ensures
            final(self).wf(),
            final(self).spec_size() == old(self).spec_size(),
            final(self).cell(r as int, c as int) == v,
            forall|r2: int, c2: int|
                old(self).in_bounds(r2, c2) && (r2 != r || c2 != c) ==> final(self).cell(r2, c2)
                    == old(self).cell(r2, c2),
    {
        proof {
            lemma_rm_idx(r as int, c as int, r as int, c as int, self.spec_size());
            vstd::std_specs::vec::axiom_spec_len(&self.cells);
        }
        let i = r * self.size + c;
        self.cells.set(i, v);
        proof {
            assert forall|r2: int, c2: int|
                old(self).in_bounds(r2, c2) && (r2 != r || c2 != c) implies final(self).cell(
                r2,
                c2,
            ) == old(self).cell(r2, c2) by {
                lemma_rm_idx(r2, c2, r as int, c as int, old(self).spec_size());
            }
        }
    }

    /// Set a tree on fire: the cell at (r, c) becomes Burning and every other
    /// cell keeps its state.
    pub fn ignite(&mut self, r: usize, c: usize)
        requires
            old(self).wf(),
            old(self).in_bounds(r as int, c as int),
            old(self).cell(r as int, c as int) == Cell::Tree,
        ensures
            final(self).wf(),
            final(self).spec_size() == old(self).spec_size(),
            final(self).cell(r as int, c as int) == Cell::Burning,
            forall|r2: int, c2: int|
                old(self).in_bounds(r2, c2) && (r2 != r || c2 != c) ==> final(self).cell(r2, c2)
                    == old(self).cell(r2, c2),
            final(self).spec_has_burning(),
    {
        self.set_cell(r, c, Cell::Burning);
        proof {
            assert(self.in_bounds(r as int, c as int) && self.cell(r as int, c as int)
                == Cell::Burning);
        }
    }

    /// Find some cell in the given state, or report that none exists.
    pub fn find_cell(&self, target: Cell) -> (found: Option<(usize, usize)>)
        requires
            self.wf(),
        ensures
            match found {
                Some(p) => self.in_bounds(p.0 as int, p.1 as int) && self.cell(
                    p.0 as int,
                    p.1 as int,
                ) == target,
                None => !self.spec_has(target),
            },
    {
        let size = self.size;
        let mut r: usize = 0;
        while r < size
            invariant
                self.wf(),
                size as int == self.spec_size(),
                r <= size,
                forall|r2: int, c2: int|
                    self.in_bounds(r2, c2) && r2 < r ==> self.cell(r2, c2) != target,
            decreases size - r,
        {
            let mut c: usize = 0;
            while c < size
                invariant
                    self.wf(),
                    size as int == self.spec_size(),
                    r < size,
                    c <= size,
                    forall|r2: int, c2: int|
                        self.in_bounds(r2, c2) && r2 < r ==> self.cell(r2, c2) != target,
                    forall|c2: int| 0 <= c2 < c ==> self.cell(r as int, c2) != target,
                decreases size - c,
            {
                if self.cell_at(r, c) == target {
                    return Some((r, c));
                }
                c += 1;
            }
            r += 1;
        }
        None
    }

    /// Whether at least one cell is burning.
    pub fn has_burning(&self) -> (b: bool)
        requires
            self.wf(),
        ensures
            b == self.spec_has_burning(),
    {
        self.find_cell(Cell::Burning).is_some()
    }

    /// Whether at least one cell holds a tree.
    pub fn has_tree(&self) -> (b: bool)
        requires
            self.wf(),
        ensures
            b == self.spec_has(Cell::Tree),
    {
        self.find_cell(Cell::Tree).is_some()
    }
}

/// The 4-connected in-bounds neighbors of (r, c), in the fixed order
/// down, up, left, right; out-of-bounds neighbors are omitted.
pub open spec fn spec_neighbors4(r: int, c: int, size: int) -> Seq<(usize, usize)> {
    let down: Seq<(usize, usize)> = if r + 1 < size {
        seq![(((r + 1) as usize), (c as usize))]
    } else {
        Seq::empty()
    };
    let up: Seq<(usize, usize)> = if r > 0 {
        seq![(((r - 1) as usize), (c as usize))]
    } else {
        Seq::empty()
    };
    let left: Seq<(usize, usize)> = if c > 0 {
        seq![((r as usize), ((c - 1) as usize))]
    } else {
        Seq::empty()
    };
    let right: Seq<(usize, usize)> = if c + 1 < size {
        seq![((r as usize), ((c + 1) as usize))]
    } else {
        Seq::empty()
    };
    down + up + left + right
}

/// The 4-connected neighbors of (r, c) that lie within a size-by-size grid,
/// in the fixed order down, up, left, right.
pub fn neighbors4(r: usize, c: usize, size: usize) -> (v: Vec<(usize, usize)>)
    requires
        r < size,
        c < size,
    ensures
        v@ == spec_neighbors4(r as int, c as int, size as int),
{
    let mut v: Vec<(usize, usize)> = Vec::new();
    if r + 1 < size {
        v.push((r + 1, c));
    }
    if r > 0 {
        v.push((r - 1, c));
    }
    if c > 0 {
        v.push((r, c - 1));
    }
    if c + 1 < size {
        v.push((r, c + 1));
    }
    proof {
        assert(v@ =~= spec_neighbors4(r as int, c as int, size as int));
    }
    v
}

} // verus!
