//! The mathematical model of a cell field, and the transition rule on it.

use vstd::prelude::*;

verus! {

/// A field of `height` rows and `width` columns of cells, stored row by row.
/// Its left and right edges are joined, and so are its top and bottom edges.
pub struct Grid {
    pub width: nat,
    pub height: nat,
    pub cells: Seq<bool>,
}

/// The state that a cell takes in the next generation, given its state now
/// and the number of its neighbors that are alive now.
pub open spec fn next_state(alive: bool, live_neighbors: nat) -> bool {
    if alive && live_neighbors < 2 {
        false
    } else if alive && (live_neighbors == 2 || live_neighbors == 3) {
        true
    } else if alive && live_neighbors > 3 {
        false
    } else if !alive && live_neighbors == 3 {
        true
    } else {
        alive
    }
}

/// The coordinate that lies `offset` steps away from `position` on a ring of
/// `length` places, for an offset of at most one ring's length backwards.
pub open spec fn wrap(position: int, offset: int, length: nat) -> int {
    (position + offset + length) % (length as int)
}

/// The glyph of a live cell: a black square.
pub const LIVE_GLYPH: char = '\u{25FC}';

/// The glyph of a dead cell: a white square.
pub const DEAD_GLYPH: char = '\u{25FB}';

/// The glyph that stands for a cell in the rendered text.
pub open spec fn glyph(alive: bool) -> char {
    if alive {
        LIVE_GLYPH
    } else {
        DEAD_GLYPH
    }
}

/// The number of lines in `text`: the number of newlines that end them.
pub open spec fn line_count(text: Seq<char>) -> nat
    decreases text.len(),
{
    if text.len() == 0 {
        0
    } else {
        line_count(text.drop_last()) + if text.last() == '\n' {
            1nat
        } else {
            0nat
        }
    }
}

/// Whether `(row, col)` lies in the block of two rows and two columns whose
/// first cell is `(top, left)`, on a torus of the given dimensions: a block
/// that starts in the last row or column goes on in the first.
pub open spec fn in_block(width: nat, height: nat, top: int, left: int, row: int, col: int) -> bool {
    &&& row == top || row == wrap(top, 1, height)
    &&& col == left || col == wrap(left, 1, width)
}

/// One for a live cell, zero for a dead one.
pub open spec fn population(alive: bool) -> nat {
    if alive {
        1
    } else {
        0
    }
}

impl Grid {
    /// There is exactly one cell for each pair of a row and a column.
    pub open spec fn wf(self) -> bool {
        self.cells.len() == self.width * self.height
    }

    /// Whether `(row, col)` names a cell of the grid.
    pub open spec fn in_bounds(self, row: int, col: int) -> bool {
        0 <= row < self.height && 0 <= col < self.width
    }

    /// The position of cell `(row, col)` in `cells`.
    pub open spec fn index(self, row: int, col: int) -> int {
        row * self.width + col
    }

    /// The state of cell `(row, col)`.
    pub open spec fn alive(self, row: int, col: int) -> bool {
        self.cells[self.index(row, col)]
    }

    /// The state of the cell that lies `d_row` rows and `d_col` columns away
    /// from `(row, col)`, going around the torus.
    pub open spec fn alive_at_offset(self, row: int, col: int, d_row: int, d_col: int) -> bool {
        self.alive(wrap(row, d_row, self.height), wrap(col, d_col, self.width))
    }

    /// How many of the eight cells around `(row, col)` are alive.
    pub open spec fn live_neighbors(self, row: int, col: int) -> nat {
        population(self.alive_at_offset(row, col, -1, -1))
            + population(self.alive_at_offset(row, col, -1, 0))
            + population(self.alive_at_offset(row, col, -1, 1))
            + population(self.alive_at_offset(row, col, 0, -1))
            + population(self.alive_at_offset(row, col, 0, 1))
            + population(self.alive_at_offset(row, col, 1, -1))
            + population(self.alive_at_offset(row, col, 1, 0))
            + population(self.alive_at_offset(row, col, 1, 1))
    }

    /// The state of cell `(row, col)` in the next generation.
    pub open spec fn next_alive(self, row: int, col: int) -> bool {
        next_state(self.alive(row, col), self.live_neighbors(row, col))
    }

    /// The next generation: every cell takes the state that the rule gives it
    /// from the current generation.
    pub open spec fn step(self) -> Grid {
        Grid {
            width: self.width,
            height: self.height,
            cells: Seq::new(
                self.cells.len(),
                |i: int| self.next_alive(i / (self.width as int), i % (self.width as int)),
            ),
        }
    }

    /// The grid of the given dimensions in which every cell is dead.
    pub open spec fn dead(width: nat, height: nat) -> Grid {
        Grid { width, height, cells: Seq::new(width * height, |i: int| false) }
    }

    /// The grid of the given dimensions in which the cell at position `i` is
    /// alive exactly if `i` is a multiple of 2 or of 7.
    pub open spec fn seeded(width: nat, height: nat) -> Grid {
        Grid { width, height, cells: Seq::new(width * height, |i: int| i % 2 == 0 || i % 7 == 0) }
    }

    /// The grid of the given dimensions whose one live cell is `(row, col)`.
    pub open spec fn lone(width: nat, height: nat, row: int, col: int) -> Grid {
        Grid {
            width,
            height,
            cells: Seq::new(
                width * height,
                |i: int| i / (width as int) == row && i % (width as int) == col,
            ),
        }
    }

    /// The grid of the given dimensions whose live cells are those of the
    /// block of two rows and two columns that starts at `(top, left)`.
    pub open spec fn block(width: nat, height: nat, top: int, left: int) -> Grid {
        Grid {
            width,
            height,
            cells: Seq::new(
                width * height,
                |i: int| in_block(width, height, top, left, i / (width as int), i % (width as int)),
            ),
        }
    }

    /// This grid with the state of cell `(row, col)` inverted.
    pub open spec fn toggled(self, row: int, col: int) -> Grid {
        Grid {
            width: self.width,
            height: self.height,
            cells: self.cells.update(self.index(row, col), !self.alive(row, col)),
        }
    }

    /// Whether one of `coords` names the cell at position `i`.
    pub open spec fn names(self, coords: Seq<(u32, u32)>, i: int) -> bool {
        exists|k: int|
            0 <= k < coords.len() && #[trigger] self.index(coords[k].0 as int, coords[k].1 as int)
                == i
    }

    /// This grid with the cells that `coords` names alive, and every other
    /// cell as it was.
    pub open spec fn with_alive(self, coords: Seq<(u32, u32)>) -> Grid {
        Grid {
            width: self.width,
            height: self.height,
            cells: Seq::new(self.cells.len(), |i: int| self.cells[i] || self.names(coords, i)),
        }
    }

    /// This grid with its cells replaced by `cells`.
    pub open spec fn with_cells(self, cells: Seq<bool>) -> Grid {
        Grid { width: self.width, height: self.height, cells }
    }

    /// The position in the text of the glyph of cell `(row, col)`; with the
    /// grid's width for `col`, that of the newline that ends the row.
    pub open spec fn text_index(self, row: int, col: int) -> int {
        row * (self.width + 1) + col
    }

    /// The text of one row: a glyph for each cell, then a newline.
    pub open spec fn row_text(self, row: int) -> Seq<char> {
        Seq::new(self.width, |col: int| glyph(self.alive(row, col))).push('\n')
    }

    /// The text of the first `rows` rows, one after the other.
    pub open spec fn rows_text(self, rows: nat) -> Seq<char>
        decreases rows,
    {
        if rows == 0 {
            Seq::empty()
        } else {
            self.rows_text((rows - 1) as nat) + self.row_text(rows - 1)
        }
    }

    /// The text of the whole grid.
    pub open spec fn text(self) -> Seq<char> {
        self.rows_text(self.height)
    }
}

} // verus!
