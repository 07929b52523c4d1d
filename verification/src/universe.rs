//! The executable cell field.

use crate::arith::{lemma_index_bound, lemma_index_split};
use crate::bitset::{bits, packs};
use crate::grid::{glyph, next_state, wrap, Grid, DEAD_GLYPH, LIVE_GLYPH};
use crate::theorems::{lemma_with_alive_none, lemma_with_alive_push, lemma_wrap};
use fixedbitset::FixedBitSet;
use vstd::arithmetic::div_mod::lemma_mod_add_multiples_vanish;
use vstd::prelude::*;

verus! {

/// A toroidal field of cells that evolves by the rules of the Game of Life.
/// Each cell takes one bit of storage.
pub struct Universe {
    width: u32,
    height: u32,
    cells: FixedBitSet,
}

impl View for Universe {
    type V = Grid;

    closed spec fn view(&self) -> Grid {
        Grid { width: self.width as nat, height: self.height as nat, cells: bits(self.cells) }
    }
}

/// The coordinate that lies `delta` places after `position` on a ring of
/// `length` places. One place before is `length - 1` places after.
fn wrap_forward(position: u32, delta: u32, length: u32) -> (wrapped: u32)
    requires
        position < length,
        delta == 1 || delta == length - 1,
    ensures
        wrapped < length,
        delta == 1 ==> wrapped == wrap(position as int, 1, length as nat),
        delta == length - 1 ==> wrapped == wrap(position as int, -1, length as nat),
{
    proof {
        lemma_mod_add_multiples_vanish(position as int + 1, length as int);
    }
    ((position as u64 + delta as u64) % (length as u64)) as u32
}

/// The state that a cell takes in the next generation: a live cell with fewer
/// than two live neighbors dies, one with two or three lives on, one with more
/// than three dies, and a dead cell with exactly three comes alive.
pub fn next_cell_state(alive: bool, live_neighbors: u8) -> (next: bool)
    ensures
        next == next_state(alive, live_neighbors as nat),
{
    match (alive, live_neighbors) {
        (true, x) if x < 2 => false,
        (true, 2) | (true, 3) => true,
        (true, x) if x > 3 => false,
        (false, 3) => true,
        (otherwise, _) => otherwise,
    }
}

impl Universe {
    /// The invariant of a universe: it stores exactly one cell for each pair
    /// of a row and a column, and their number fits the machine's word.
    pub open spec fn wf(&self) -> bool {
        self@.wf() && self@.cells.len() <= usize::MAX
    }

    /// A universe of the given dimensions in which the cell at position `i`
    /// is alive exactly if `i` is a multiple of 2 or of 7. Either dimension
    /// may be zero, which gives a universe without cells.
    pub fn new(width: u32, height: u32) -> (universe: Universe)
        requires
            width * height <= usize::MAX,
        ensures
            universe@ == Grid::seeded(width as nat, height as nat),
            universe.wf(),
    {
        assert(0 <= width * height) by (nonlinear_arith);
        let size: usize = width as usize * height as usize;
        let mut cells = FixedBitSet::with_capacity(size);
        let mut i: usize = 0;
        while i < size
            invariant
                i <= size,
                bits(cells).len() == size,
                forall|j: int| 0 <= j < i ==> bits(cells)[j] == (j % 2 == 0 || j % 7 == 0),
            decreases size - i,
        {
            cells.set(i, i % 2 == 0 || i % 7 == 0);
            i += 1;
        }
        assert(bits(cells) =~= Grid::seeded(width as nat, height as nat).cells);
        Universe { width, height, cells }
    }

    /// The number of cells.
    pub fn get_size(&self) -> (size: usize)
        requires
            self.wf(),
        ensures
            size == self@.width * self@.height,
            size == self@.cells.len(),
    {
        assert(0 <= self.width * self.height) by (nonlinear_arith);
        self.width as usize * self.height as usize
    }

    /// The position of cell `(row, column)` in the row-by-row storage.
    pub fn get_index(&self, row: u32, column: u32) -> (index: usize)
        requires
            self.wf(),
            self@.in_bounds(row as int, column as int),
        ensures
            index == self@.index(row as int, column as int),
            index < self@.cells.len(),
    {
        proof {
            lemma_index_bound(row as int, column as int, self.width as int, self.height as int);
        }
        row as usize * self.width as usize + column as usize
    }

    /// The state of cell `(row, column)`.
    pub fn is_alive(&self, row: u32, column: u32) -> (alive: bool)
        requires
            self.wf(),
            self@.in_bounds(row as int, column as int),
        ensures
            alive == self@.alive(row as int, column as int),
    {
        let index = self.get_index(row, column);
        self.cells.contains(index)
    }

    /// How many of the eight cells around `(row, column)` are alive. The
    /// cells beyond an edge are those at the opposite edge.
    pub fn live_neighbor_count(&self, row: u32, column: u32) -> (count: u8)
        requires
            self.wf(),
            self@.in_bounds(row as int, column as int),
        ensures
            count == self@.live_neighbors(row as int, column as int),
            count <= 8,
    {
        let north = wrap_forward(row, self.height - 1, self.height);
        let south = wrap_forward(row, 1, self.height);
        let west = wrap_forward(column, self.width - 1, self.width);
        let east = wrap_forward(column, 1, self.width);
        proof {
            lemma_wrap(row as int, self.height as nat);
            lemma_wrap(column as int, self.width as nat);
        }
        let mut count: u8 = 0;
        if self.is_alive(north, west) {
            count += 1;
        }
        if self.is_alive(north, column) {
            count += 1;
        }
        if self.is_alive(north, east) {
            count += 1;
        }
        if self.is_alive(row, west) {
            count += 1;
        }
        if self.is_alive(row, east) {
            count += 1;
        }
        if self.is_alive(south, west) {
            count += 1;
        }
        if self.is_alive(south, column) {
            count += 1;
        }
        if self.is_alive(south, east) {
            count += 1;
        }
        count
    }

    /// Replaces the universe by its next generation. Every cell's new state
    /// is computed from the current generation alone, and the dimensions stay
    /// as they are.
    pub fn tick(&mut self)
        requires
            old(self).wf(),
        ensures
            final(self)@ == old(self)@.step(),
            final(self)@.width == old(self)@.width,
            final(self)@.height == old(self)@.height,
            final(self).wf(),
    {
        let size = self.get_size();
        let mut next = FixedBitSet::with_capacity(size);
        let ghost current = self@;
        let mut row: u32 = 0;
        while row < self.height
            invariant
                *self == *old(self),
                self.wf(),
                current == self@,
                row <= self.height,
                bits(next).len() == size == current.cells.len(),
                forall|i: int|
                    0 <= i < row * self.width ==> bits(next)[i] == current.step().cells[i],
            decreases self.height - row,
        {
            let mut col: u32 = 0;
            while col < self.width
                invariant
                    *self == *old(self),
                    self.wf(),
                    current == self@,
                    row < self.height,
                    col <= self.width,
                    bits(next).len() == size == current.cells.len(),
                    forall|i: int|
                        0 <= i < row * self.width + col ==> bits(next)[i]
                            == current.step().cells[i],
                decreases self.width - col,
            {
                let idx = self.get_index(row, col);
                let cell = self.cells.contains(idx);
                let live_neighbors = self.live_neighbor_count(row, col);
                let next_cell = next_cell_state(cell, live_neighbors);
                proof {
                    lemma_index_split(row as int, col as int, self.width as int);
                }
                next.set(idx, next_cell);
                col += 1;
            }
            assert(row * self.width + self.width == (row + 1) * self.width) by (nonlinear_arith);
            row += 1;
        }
        proof {
            assert(self.height * self.width == self.width * self.height) by (nonlinear_arith);
            assert(bits(next) =~= current.step().cells);
        }
        self.cells = next;
    }

    /// Sets every cell from the draw at its position: the cell at position
    /// `i` becomes alive exactly if `draws[i]` is true. The caller makes one
    /// independent draw for each cell.
    pub fn randomize(&mut self, draws: &[bool])
        requires
            old(self).wf(),
            draws@.len() == old(self)@.cells.len(),
        ensures
            final(self)@ == old(self)@.with_cells(draws@),
            final(self).wf(),
    {
        let size = self.cells.len();
        let mut i: usize = 0;
        while i < size
            invariant
                i <= size == draws@.len(),
                self.width == old(self).width,
                self.height == old(self).height,
                bits(self.cells).len() == size,
                forall|j: int| 0 <= j < i ==> bits(self.cells)[j] == draws@[j],
            decreases size - i,
        {
            self.cells.set(i, draws[i]);
            i += 1;
        }
        assert(bits(self.cells) =~= draws@);
    }

    /// Sets every cell dead. The dimensions stay as they are.
    pub fn kill_cells(&mut self)
        requires
            old(self).wf(),
        ensures
            final(self)@ == Grid::dead(old(self)@.width, old(self)@.height),
            final(self).wf(),
    {
        let size = self.get_size();
        self.cells = FixedBitSet::with_capacity(size);
    }

    /// Gives the universe `width` columns and sets every cell dead: nothing
    /// of the earlier content is kept.
    pub fn set_width(&mut self, width: u32)
        requires
            width * old(self)@.height <= usize::MAX,
        ensures
            final(self)@ == Grid::dead(width as nat, old(self)@.height),
            final(self).wf(),
    {
        assert(0 <= width * self.height) by (nonlinear_arith);
        let cells = FixedBitSet::with_capacity(width as usize * self.height as usize);
        *self = Universe { width, height: self.height, cells };
    }

    /// Gives the universe `height` rows and sets every cell dead: nothing of
    /// the earlier content is kept.
    pub fn set_height(&mut self, height: u32)
        requires
            old(self)@.width * height <= usize::MAX,
        ensures
            final(self)@ == Grid::dead(old(self)@.width, height as nat),
            final(self).wf(),
    {
        assert(0 <= self.width * height) by (nonlinear_arith);
        let cells = FixedBitSet::with_capacity(self.width as usize * height as usize);
        *self = Universe { width: self.width, height, cells };
    }

    /// Inverts the state of cell `(row, column)`. No other cell changes.
    pub fn toggle_cell(&mut self, row: u32, column: u32)
        requires
            old(self).wf(),
            old(self)@.in_bounds(row as int, column as int),
        ensures
            final(self)@ == old(self)@.toggled(row as int, column as int),
            final(self).wf(),
    {
        let idx = self.get_index(row, column);
        self.cells.toggle(idx);
    }

    /// The blocks of 32 bits that store the cells, for a renderer to read:
    /// the cell at position `i` is bit `i % 32` of block `i / 32`.
    pub fn cells(&self) -> (blocks: &[u32])
        ensures
            packs(blocks@, self@.cells),
    {
        self.cells.as_slice()
    }

    /// The bit set that stores the cells.
    pub fn get_cells(&self) -> (cells: &FixedBitSet)
        ensures
            bits(*cells) == self@.cells,
    {
        &self.cells
    }

    /// Sets each of the cells that `cells` names, as `(row, column)`, alive.
    /// Every other cell stays as it is.
    pub fn set_cells(&mut self, cells: &[(u32, u32)])
        requires
            old(self).wf(),
            forall|k: int|
                0 <= k < cells@.len() ==> old(self)@.in_bounds(
                    (#[trigger] cells@[k]).0 as int,
                    cells@[k].1 as int,
                ),
        ensures
            final(self)@ == old(self)@.with_alive(cells@),
            final(self).wf(),
    {
        let ghost start = self@;
        proof {
            lemma_with_alive_none(start);
            assert(cells@.take(0) =~= Seq::empty());
        }
        let mut k: usize = 0;
        while k < cells.len()
            invariant
                k <= cells@.len(),
                self.wf(),
                start == old(self)@,
                forall|j: int|
                    0 <= j < cells@.len() ==> start.in_bounds(
                        (#[trigger] cells@[j]).0 as int,
                        cells@[j].1 as int,
                    ),
                self@ == start.with_alive(cells@.take(k as int)),
            decreases cells@.len() - k,
        {
            let (row, col) = cells[k];
            let idx = self.get_index(row, col);
            self.cells.set(idx, true);
            proof {
                assert(cells@.take(k + 1) =~= cells@.take(k as int).push(cells@[k as int]));
                lemma_with_alive_push(start, cells@.take(k as int), cells@[k as int]);
            }
            k += 1;
        }
        assert(cells@.take(cells@.len() as int) =~= cells@);
    }

    /// The universe as text: one line for each row, each line a glyph for
    /// each cell of the row and then a newline. The universe is not changed.
    pub fn render(&self) -> (text: String)
        requires
            self.wf(),
        ensures
            text@ == self@.text(),
    {
        let mut text = String::new();
        let mut row: u32 = 0;
        while row < self.height
            invariant
                self.wf(),
                row <= self.height,
                text@ == self@.rows_text(row as nat),
            decreases self.height - row,
        {
            let ghost above = text@;
            let mut col: u32 = 0;
            while col < self.width
                invariant
                    self.wf(),
                    row < self.height,
                    col <= self.width,
                    text@ == above + Seq::new(
                        col as nat,
                        |c: int| glyph(self@.alive(row as int, c)),
                    ),
                decreases self.width - col,
            {
                let symbol = if self.is_alive(row, col) {
                    LIVE_GLYPH
                } else {
                    DEAD_GLYPH
                };
                text.push(symbol);
                col += 1;
            }
            text.push('\n');
            assert(text@ == above + self@.row_text(row as int));
            row += 1;
        }
        text
    }

    /// The number of columns.
    pub fn width(&self) -> (width: u32)
        ensures
            width == self@.width,
    {
        self.width
    }

    /// The number of rows.
    pub fn height(&self) -> (height: u32)
        ensures
            height == self@.height,
    {
        self.height
    }
}

} // verus!
