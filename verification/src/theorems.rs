//! Laws of the model: what holds of every grid, proved from the definitions
//! that the contracts of the executable universe are stated over.

use crate::arith::{lemma_index_bound, lemma_index_join, lemma_index_split};
use crate::grid::{glyph, in_block, line_count, next_state, wrap, Grid};
use vstd::arithmetic::div_mod::{
    lemma_mod_add_multiples_vanish, lemma_mod_self_0, lemma_small_mod,
};
use vstd::prelude::*;

verus! {

/// Going around a ring of `length` places: an offset of zero stays in
/// place, one step forward moves to the next place and from the last place
/// to the first, one step back moves to the place before and from the first
/// place to the last.
pub proof fn lemma_wrap(position: int, length: nat)
    requires
        0 <= position < length,
    ensures
        wrap(position, 0, length) == position,
        wrap(position, 1, length) == if position == length - 1 {
            0
        } else {
            position + 1
        },
        wrap(position, -1, length) == if position == 0 {
            length - 1
        } else {
            position - 1
        },
{
    let n = length as int;
    lemma_mod_add_multiples_vanish(position, n);
    lemma_mod_add_multiples_vanish(position + 1, n);
    lemma_small_mod(position as nat, length);
    if position + 1 < n {
        lemma_small_mod((position + 1) as nat, length);
    } else {
        lemma_mod_self_0(n);
    }
    if position > 0 {
        lemma_mod_add_multiples_vanish(position - 1, n);
        lemma_small_mod((position - 1) as nat, length);
    } else {
        lemma_small_mod((n - 1) as nat, length);
    }
}

/// A cell has at most eight live neighbors.
pub proof fn lemma_live_neighbors_bound(grid: Grid, row: int, col: int)
    ensures
        grid.live_neighbors(row, col) <= 8,
{
}

/// The rule in closed form: a cell is alive in the next generation exactly if
/// it has three live neighbors, or is alive and has two.
pub proof fn lemma_next_state_closed_form(alive: bool, live_neighbors: nat)
    ensures
        next_state(alive, live_neighbors) == (live_neighbors == 3 || (alive && live_neighbors
            == 2)),
{
}

/// The next generation has the dimensions of the current one, and one cell
/// for each pair of a row and a column if the current one has.
pub proof fn lemma_step_keeps_dimensions(grid: Grid)
    ensures
        grid.step().width == grid.width,
        grid.step().height == grid.height,
        grid.step().cells.len() == grid.cells.len(),
        grid.wf() ==> grid.step().wf(),
{
}

/// In the next generation each cell has the state that the rule gives it
/// from its own state and its live neighbors in the current generation.
pub proof fn lemma_step_cell(grid: Grid, row: int, col: int)
    requires
        grid.wf(),
        grid.in_bounds(row, col),
    ensures
        grid.step().alive(row, col) == next_state(
            grid.alive(row, col),
            grid.live_neighbors(row, col),
        ),
{
    lemma_index_bound(row, col, grid.width as int, grid.height as int);
    lemma_index_split(row, col, grid.width as int);
}

/// Birth: a dead cell with exactly three live neighbors is alive in the next
/// generation.
pub proof fn lemma_birth(grid: Grid, row: int, col: int)
    requires
        grid.wf(),
        grid.in_bounds(row, col),
        !grid.alive(row, col),
        grid.live_neighbors(row, col) == 3,
    ensures
        grid.step().alive(row, col),
{
    lemma_step_cell(grid, row, col);
}

/// Underpopulation: a live cell with fewer than two live neighbors, and so
/// one with none, is dead in the next generation.
pub proof fn lemma_underpopulation(grid: Grid, row: int, col: int)
    requires
        grid.wf(),
        grid.in_bounds(row, col),
        grid.alive(row, col),
        grid.live_neighbors(row, col) < 2,
    ensures
        !grid.step().alive(row, col),
{
    lemma_step_cell(grid, row, col);
}

/// Stasis: a live cell with two or three live neighbors is alive in the next
/// generation.
pub proof fn lemma_stasis(grid: Grid, row: int, col: int)
    requires
        grid.wf(),
        grid.in_bounds(row, col),
        grid.alive(row, col),
        grid.live_neighbors(row, col) == 2 || grid.live_neighbors(row, col) == 3,
    ensures
        grid.step().alive(row, col),
{
    lemma_step_cell(grid, row, col);
}

/// Overpopulation: a live cell with more than three live neighbors is dead
/// in the next generation.
pub proof fn lemma_overpopulation(grid: Grid, row: int, col: int)
    requires
        grid.wf(),
        grid.in_bounds(row, col),
        grid.alive(row, col),
        grid.live_neighbors(row, col) > 3,
    ensures
        !grid.step().alive(row, col),
{
    lemma_step_cell(grid, row, col);
}

/// A dead cell stays dead unless it has exactly three live neighbors.
pub proof fn lemma_stays_dead(grid: Grid, row: int, col: int)
    requires
        grid.wf(),
        grid.in_bounds(row, col),
        !grid.alive(row, col),
        grid.live_neighbors(row, col) != 3,
    ensures
        !grid.step().alive(row, col),
{
    lemma_step_cell(grid, row, col);
}

/// A grid in which the rule leaves every cell as it is, is its own next
/// generation.
pub proof fn lemma_still_life(grid: Grid)
    requires
        grid.wf(),
        forall|row: int, col: int|
            grid.in_bounds(row, col) ==> #[trigger] grid.next_alive(row, col) == grid.alive(
                row,
                col,
            ),
    ensures
        grid.step() == grid,
{
    assert forall|i: int| 0 <= i < grid.cells.len() implies grid.step().cells[i]
        == grid.cells[i] by {
        lemma_index_join(i, grid.width as int, grid.height as int);
        let row = i / (grid.width as int);
        let col = i % (grid.width as int);
        assert(grid.in_bounds(row, col));
        assert(grid.next_alive(row, col) == grid.alive(row, col));
    }
    assert(grid.step().cells =~= grid.cells);
}

/// In a block grid, the live cells are those of the block.
pub proof fn lemma_block_cells(width: nat, height: nat, top: int, left: int, row: int, col: int)
    requires
        0 <= row < height,
        0 <= col < width,
    ensures
        Grid::block(width, height, top, left).alive(row, col) == in_block(
            width,
            height,
            top,
            left,
            row,
            col,
        ),
{
    lemma_index_bound(row, col, width as int, height as int);
    lemma_index_split(row, col, width as int);
}

/// A block of two by two live cells on a grid of at least three rows and
/// three columns, with every other cell dead, is its own next generation,
/// wherever the block lies and also where it reaches across an edge.
pub proof fn lemma_block_is_still_life(width: nat, height: nat, top: int, left: int)
    requires
        width >= 3,
        height >= 3,
        0 <= top < height,
        0 <= left < width,
    ensures
        Grid::block(width, height, top, left).step() == Grid::block(width, height, top, left),
{
    let grid = Grid::block(width, height, top, left);
    lemma_wrap(top, height);
    lemma_wrap(left, width);
    assert forall|row: int, col: int| grid.in_bounds(row, col) implies #[trigger] grid.next_alive(
        row,
        col,
    ) == grid.alive(row, col) by {
        lemma_wrap(row, height);
        lemma_wrap(col, width);
        let north = wrap(row, -1, height);
        let south = wrap(row, 1, height);
        let west = wrap(col, -1, width);
        let east = wrap(col, 1, width);
        lemma_block_cells(width, height, top, left, north, west);
        lemma_block_cells(width, height, top, left, north, col);
        lemma_block_cells(width, height, top, left, north, east);
        lemma_block_cells(width, height, top, left, row, west);
        lemma_block_cells(width, height, top, left, row, col);
        lemma_block_cells(width, height, top, left, row, east);
        lemma_block_cells(width, height, top, left, south, west);
        lemma_block_cells(width, height, top, left, south, col);
        lemma_block_cells(width, height, top, left, south, east);
    }
    lemma_still_life(grid);
}

/// In a grid with one live cell, that cell is alive and no other.
pub proof fn lemma_lone_cells(width: nat, height: nat, row: int, col: int, r: int, c: int)
    requires
        0 <= r < height,
        0 <= c < width,
    ensures
        Grid::lone(width, height, row, col).alive(r, c) == (r == row && c == col),
{
    lemma_index_bound(r, c, width as int, height as int);
    lemma_index_split(r, c, width as int);
}

/// A live cell without any live cell around it dies: on a grid of at least
/// two rows and two columns, the next generation of a grid with one live
/// cell has none.
pub proof fn lemma_lone_cell_dies(width: nat, height: nat, row: int, col: int)
    requires
        width >= 2,
        height >= 2,
        0 <= row < height,
        0 <= col < width,
    ensures
        Grid::lone(width, height, row, col).live_neighbors(row, col) == 0,
        Grid::lone(width, height, row, col).step() == Grid::dead(width, height),
{
    let grid = Grid::lone(width, height, row, col);
    assert forall|i: int| 0 <= i < grid.cells.len() implies !grid.step().cells[i] by {
        lemma_index_join(i, width as int, height as int);
        let r = i / (width as int);
        let c = i % (width as int);
        lemma_lone_neighbors(width, height, row, col, r, c);
    }
    assert(grid.step().cells =~= Grid::dead(width, height).cells);
    lemma_lone_neighbors(width, height, row, col, row, col);
}

/// Around a lone live cell: the states of the nine cells at and around
/// `(r, c)` in a grid whose one live cell is `(row, col)`, and that the rule
/// leaves `(r, c)` dead.
proof fn lemma_lone_neighbors(width: nat, height: nat, row: int, col: int, r: int, c: int)
    requires
        width >= 2,
        height >= 2,
        0 <= row < height,
        0 <= col < width,
        0 <= r < height,
        0 <= c < width,
    ensures
        !Grid::lone(width, height, row, col).next_alive(r, c),
        r == row && c == col ==> Grid::lone(width, height, row, col).live_neighbors(r, c) == 0,
        width >= 3 && height >= 3 && (r != row || c != col) && (r == row || r == wrap(row, 1, height)
            || r == wrap(row, -1, height)) && (c == col || c == wrap(col, 1, width) || c == wrap(
            col,
            -1,
            width,
        )) ==> Grid::lone(width, height, row, col).live_neighbors(r, c) == 1,
{
    lemma_wrap(row, height);
    lemma_wrap(col, width);
    lemma_wrap(r, height);
    lemma_wrap(c, width);
    let north = wrap(r, -1, height);
    let south = wrap(r, 1, height);
    let west = wrap(c, -1, width);
    let east = wrap(c, 1, width);
    lemma_lone_cells(width, height, row, col, north, west);
    lemma_lone_cells(width, height, row, col, north, c);
    lemma_lone_cells(width, height, row, col, north, east);
    lemma_lone_cells(width, height, row, col, r, west);
    lemma_lone_cells(width, height, row, col, r, c);
    lemma_lone_cells(width, height, row, col, r, east);
    lemma_lone_cells(width, height, row, col, south, west);
    lemma_lone_cells(width, height, row, col, south, c);
    lemma_lone_cells(width, height, row, col, south, east);
}

/// Neighbors are counted across the edges: on a grid of at least three rows
/// and three columns whose one live cell is the first cell of the first row,
/// the last cell of the last row has exactly one live neighbor, and so have
/// the last cell of the first row and the first cell of the last row.
pub proof fn lemma_corner_counts_across_edges(width: nat, height: nat)
    requires
        width >= 3,
        height >= 3,
    ensures
        Grid::lone(width, height, 0, 0).live_neighbors(height - 1, width - 1) == 1,
        Grid::lone(width, height, 0, 0).live_neighbors(0, width - 1) == 1,
        Grid::lone(width, height, 0, 0).live_neighbors(height - 1, 0) == 1,
{
    lemma_wrap(0, height);
    lemma_wrap(0, width);
    lemma_lone_neighbors(width, height, 0, 0, height - 1, width - 1);
    lemma_lone_neighbors(width, height, 0, 0, 0, width - 1);
    lemma_lone_neighbors(width, height, 0, 0, height - 1, 0);
}

/// The edges are joined: the cell diagonally beyond the last row and the
/// last column is the cell in the first row and the first column, the cell
/// beyond the last column is the one in the first column of the same row,
/// and the cell beyond the last row is the one in the first row of the same
/// column. So a live cell in the corner counts for the opposite corner.
pub proof fn lemma_edges_are_joined(grid: Grid, row: int, col: int)
    requires
        grid.wf(),
        grid.in_bounds(row, col),
    ensures
        grid.alive_at_offset(grid.height - 1, grid.width - 1, 1, 1) == grid.alive(0, 0),
        grid.alive_at_offset(row, grid.width - 1, 0, 1) == grid.alive(row, 0),
        grid.alive_at_offset(grid.height - 1, col, 1, 0) == grid.alive(0, col),
        grid.alive_at_offset(0, 0, -1, -1) == grid.alive(grid.height - 1, grid.width - 1),
        grid.alive(0, 0) ==> grid.live_neighbors(grid.height - 1, grid.width - 1) >= 1,
{
    lemma_wrap(grid.height - 1, grid.height);
    lemma_wrap(grid.width - 1, grid.width);
    lemma_wrap(0, grid.height);
    lemma_wrap(0, grid.width);
    lemma_wrap(row, grid.height);
    lemma_wrap(col, grid.width);
}

/// The grid without live cells has the dimensions it was made with, one cell
/// for each pair of a row and a column, and all of them dead.
pub proof fn lemma_dead_grid(width: nat, height: nat)
    ensures
        Grid::dead(width, height).width == width,
        Grid::dead(width, height).height == height,
        Grid::dead(width, height).wf(),
        forall|row: int, col: int|
            Grid::dead(width, height).in_bounds(row, col) ==> !#[trigger] Grid::dead(
                width,
                height,
            ).alive(row, col),
{
    let grid = Grid::dead(width, height);
    assert forall|row: int, col: int| grid.in_bounds(row, col) implies !#[trigger] grid.alive(
        row,
        col,
    ) by {
        lemma_index_bound(row, col, width as int, height as int);
    }
}

/// Toggling inverts the one cell and leaves every other cell and the
/// dimensions as they were.
pub proof fn lemma_toggle_changes_one_cell(grid: Grid, row: int, col: int, r: int, c: int)
    requires
        grid.wf(),
        grid.in_bounds(row, col),
        grid.in_bounds(r, c),
    ensures
        grid.toggled(row, col).wf(),
        grid.toggled(row, col).width == grid.width,
        grid.toggled(row, col).height == grid.height,
        grid.toggled(row, col).alive(r, c) == if r == row && c == col {
            !grid.alive(r, c)
        } else {
            grid.alive(r, c)
        },
{
    lemma_index_bound(row, col, grid.width as int, grid.height as int);
    lemma_index_bound(r, c, grid.width as int, grid.height as int);
    lemma_index_split(row, col, grid.width as int);
    lemma_index_split(r, c, grid.width as int);
}

/// Toggling the same cell twice gives back the grid as it was.
pub proof fn lemma_toggle_twice(grid: Grid, row: int, col: int)
    requires
        grid.wf(),
        grid.in_bounds(row, col),
    ensures
        grid.toggled(row, col).toggled(row, col) == grid,
{
    lemma_index_bound(row, col, grid.width as int, grid.height as int);
    assert(grid.toggled(row, col).toggled(row, col).cells =~= grid.cells);
}

/// The lines of two texts, one after the other, are those of the first and
/// those of the second.
pub proof fn lemma_line_count_add(first: Seq<char>, second: Seq<char>)
    ensures
        line_count(first + second) == line_count(first) + line_count(second),
    decreases second.len(),
{
    if second.len() == 0 {
        assert(first + second =~= first);
    } else {
        lemma_line_count_add(first, second.drop_last());
        assert((first + second).drop_last() =~= first + second.drop_last());
    }
}

/// A text without a newline has no line.
pub proof fn lemma_line_count_none(text: Seq<char>)
    requires
        forall|i: int| 0 <= i < text.len() ==> text[i] != '\n',
    ensures
        line_count(text) == 0,
    decreases text.len(),
{
    if text.len() > 0 {
        lemma_line_count_none(text.drop_last());
    }
}

/// The text of a row is one line: a glyph for each cell of the row, none of
/// them a newline, and then the newline.
pub proof fn lemma_row_text_shape(grid: Grid, row: int)
    ensures
        grid.row_text(row).len() == grid.width + 1,
        grid.row_text(row)[grid.width as int] == '\n',
        forall|col: int|
            0 <= col < grid.width ==> #[trigger] grid.row_text(row)[col] == glyph(
                grid.alive(row, col),
            ) && grid.row_text(row)[col] != '\n',
        line_count(grid.row_text(row)) == 1,
{
    let glyphs = Seq::new(grid.width, |col: int| glyph(grid.alive(row, col)));
    lemma_line_count_none(glyphs);
    assert(grid.row_text(row).drop_last() =~= glyphs);
}

/// The text of the first `rows` rows has `rows` lines of equal length, and
/// line `row` is the text of row `row`.
pub proof fn lemma_rows_text_shape(grid: Grid, rows: nat)
    ensures
        grid.rows_text(rows).len() == rows * (grid.width + 1),
        line_count(grid.rows_text(rows)) == rows,
        forall|row: int, col: int|
            0 <= row < rows && 0 <= col <= grid.width ==> grid.rows_text(rows)[#[trigger] grid.text_index(
                row,
                col,
            )] == grid.row_text(row)[col],
    decreases rows,
{
    let line = grid.width + 1;
    if rows == 0 {
        assert(rows * line == 0) by (nonlinear_arith)
            requires
                rows == 0,
        ;
    } else {
        let above = (rows - 1) as nat;
        lemma_rows_text_shape(grid, above);
        lemma_row_text_shape(grid, rows - 1);
        lemma_line_count_add(grid.rows_text(above), grid.row_text(rows - 1));
        assert(rows * line == above * line + line) by (nonlinear_arith)
            requires
                rows == above + 1,
        ;
        assert forall|row: int, col: int|
            0 <= row < rows && 0 <= col <= grid.width implies grid.rows_text(rows)[#[trigger] grid.text_index(
            row,
            col,
        )] == grid.row_text(row)[col] by {
            lemma_index_bound(row, col, line as int, rows as int);
            if row < above {
                lemma_index_bound(row, col, line as int, above as int);
            } else {
                assert(row * line == above * line) by (nonlinear_arith)
                    requires
                        row == above,
                ;
            }
        }
    }
}

/// The rendered text has one line for each row, and each line has one glyph
/// for each cell of its row, in order, followed by the newline that ends it.
pub proof fn lemma_text_shape(grid: Grid)
    ensures
        line_count(grid.text()) == grid.height,
        grid.text().len() == grid.height * (grid.width + 1),
        forall|row: int, col: int|
            grid.in_bounds(row, col) ==> grid.text()[#[trigger] grid.text_index(row, col)]
                == glyph(grid.alive(row, col)),
        forall|row: int|
            0 <= row < grid.height ==> grid.text()[#[trigger] grid.text_index(
                row,
                grid.width as int,
            )] == '\n',
{
    lemma_rows_text_shape(grid, grid.height);
    assert forall|row: int, col: int| grid.in_bounds(row, col) implies grid.text()[#[trigger] grid.text_index(
        row,
        col,
    )] == glyph(grid.alive(row, col)) by {
        lemma_row_text_shape(grid, row);
    }
    assert forall|row: int| 0 <= row < grid.height implies grid.text()[#[trigger] grid.text_index(
        row,
        grid.width as int,
    )] == '\n' by {
        lemma_row_text_shape(grid, row);
    }
}

/// Marking no cell alive leaves a grid as it is.
pub proof fn lemma_with_alive_none(grid: Grid)
    ensures
        grid.with_alive(Seq::empty()) == grid,
{
    assert(grid.with_alive(Seq::empty()).cells =~= grid.cells);
}

/// Marking one more cell alive writes that one cell and no other.
pub proof fn lemma_with_alive_push(grid: Grid, coords: Seq<(u32, u32)>, coord: (u32, u32))
    requires
        grid.wf(),
        grid.in_bounds(coord.0 as int, coord.1 as int),
    ensures
        grid.with_alive(coords.push(coord)).cells == grid.with_alive(coords).cells.update(
            grid.index(coord.0 as int, coord.1 as int),
            true,
        ),
{
    let more = coords.push(coord);
    let target = grid.index(coord.0 as int, coord.1 as int);
    lemma_index_bound(coord.0 as int, coord.1 as int, grid.width as int, grid.height as int);
    assert forall|i: int| 0 <= i < grid.cells.len() implies (grid.names(more, i) <==> grid.names(
        coords,
        i,
    ) || i == target) by {
        if grid.names(coords, i) {
            let k = choose|k: int|
                0 <= k < coords.len() && #[trigger] grid.index(
                    coords[k].0 as int,
                    coords[k].1 as int,
                ) == i;
            assert(grid.index(more[k].0 as int, more[k].1 as int) == i);
        }
        if i == target {
            let k = coords.len() as int;
            assert(grid.index(more[k].0 as int, more[k].1 as int) == i);
        }
        if grid.names(more, i) && i != target {
            let k = choose|k: int|
                0 <= k < more.len() && #[trigger] grid.index(more[k].0 as int, more[k].1 as int)
                    == i;
            assert(grid.index(coords[k].0 as int, coords[k].1 as int) == i);
        }
    }
    assert(grid.with_alive(more).cells =~= grid.with_alive(coords).cells.update(target, true));
}

/// After marking, a cell is alive exactly if it was alive before or is one
/// of the cells named.
pub proof fn lemma_with_alive_cell(grid: Grid, coords: Seq<(u32, u32)>, row: u32, col: u32)
    requires
        grid.wf(),
        grid.in_bounds(row as int, col as int),
        forall|k: int|
            0 <= k < coords.len() ==> grid.in_bounds(
                (#[trigger] coords[k]).0 as int,
                coords[k].1 as int,
            ),
    ensures
        grid.with_alive(coords).wf(),
        grid.with_alive(coords).width == grid.width,
        grid.with_alive(coords).height == grid.height,
        grid.with_alive(coords).alive(row as int, col as int) == (grid.alive(row as int, col as int)
            || coords.contains((row, col))),
{
    let i = grid.index(row as int, col as int);
    lemma_index_bound(row as int, col as int, grid.width as int, grid.height as int);
    lemma_index_split(row as int, col as int, grid.width as int);
    if coords.contains((row, col)) {
        let k = choose|k: int| 0 <= k < coords.len() && coords[k] == (row, col);
        assert(grid.index(coords[k].0 as int, coords[k].1 as int) == i);
    }
    if grid.names(coords, i) {
        let k = choose|k: int|
            0 <= k < coords.len() && #[trigger] grid.index(coords[k].0 as int, coords[k].1 as int)
                == i;
        lemma_index_split(coords[k].0 as int, coords[k].1 as int, grid.width as int);
        assert(coords[k] == (row, col));
    }
}

/// The seeded grid has the dimensions it was made with and one cell for each
/// pair of a row and a column; cell `(row, col)` is alive exactly if its
/// position, counted row by row, is a multiple of 2 or of 7.
pub proof fn lemma_seeded_grid(width: nat, height: nat, row: int, col: int)
    requires
        0 <= row < height,
        0 <= col < width,
    ensures
        Grid::seeded(width, height).wf(),
        Grid::seeded(width, height).width == width,
        Grid::seeded(width, height).height == height,
        Grid::seeded(width, height).alive(row, col) == ((row * width + col) % 2 == 0 || (row
            * width + col) % 7 == 0),
{
    lemma_index_bound(row, col, width as int, height as int);
}

} // verus!
