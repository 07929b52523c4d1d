//! Facts about row-major positions that the index arithmetic rests on.

use vstd::arithmetic::div_mod::lemma_fundamental_div_mod_converse;
use vstd::prelude::*;

verus! {

/// A cell inside a field of `width` by `height` has a position below
/// `width * height`.
pub proof fn lemma_index_bound(row: int, col: int, width: int, height: int)
    requires
        0 <= row < height,
        0 <= col < width,
    ensures
        0 <= row * width + col < width * height,
        row * width + col < (row + 1) * width <= width * height,
{
    assert(0 <= row * width) by (nonlinear_arith)
        requires
            0 <= row,
            0 <= width,
    ;
    assert((row + 1) * width == row * width + width) by (nonlinear_arith);
    assert((row + 1) * width <= width * height) by (nonlinear_arith)
        requires
            row + 1 <= height,
            0 <= width,
    ;
}

/// A position determines its row and its column.
pub proof fn lemma_index_split(row: int, col: int, width: int)
    requires
        0 <= col < width,
    ensures
        (row * width + col) / width == row,
        (row * width + col) % width == col,
{
    assert(row * width + col == width * row + col) by (nonlinear_arith);
    lemma_fundamental_div_mod_converse(row * width + col, width, row, col);
}

/// Every position below `width * height` is that of a cell inside the field.
pub proof fn lemma_index_join(i: int, width: int, height: int)
    requires
        0 <= i < width * height,
        0 <= height,
        0 <= width,
    ensures
        0 < width,
        0 <= i / width < height,
        0 <= i % width < width,
        (i / width) * width + i % width == i,
{
    assert(width != 0) by (nonlinear_arith)
        requires
            0 <= i < width * height,
    ;
    assert(i == width * (i / width) + i % width && 0 <= i % width < width) by (nonlinear_arith)
        requires
            0 < width,
    ;
    assert(0 <= i / width < height) by (nonlinear_arith)
        requires
            0 < width,
            0 <= i < width * height,
            i == width * (i / width) + i % width,
            0 <= i % width < width,
    ;
    assert((i / width) * width == width * (i / width)) by (nonlinear_arith);
}

} // verus!
