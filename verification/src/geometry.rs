//! Coordinate arithmetic of a rectangular grid stored row by row.
use vstd::prelude::*;

verus! {

/// Smallest side length a grid may have: a 4x4 pattern must fit in it.
pub const MIN_SIDE: usize = 4;

/// Largest number of cells of a grid.
pub const MAX_CELLS: usize = 0x7fff_ffff;

/// The dimensions a grid may have.
pub open spec fn valid_dims(width: usize, height: usize) -> bool {
    &&& MIN_SIDE <= width
    &&& MIN_SIDE <= height
    &&& width * height <= MAX_CELLS
}

/// Whether `(row, col)` names a cell of a `width` x `height` grid.
pub open spec fn in_bounds(width: usize, height: usize, row: int, col: int) -> bool {
    0 <= row < height && 0 <= col < width
}

/// The position of cell `(row, col)` in row-major storage.
pub open spec fn cell_index(width: usize, row: int, col: int) -> int {
    row * width + col
}

/// The row of the cell stored at `index`.
pub open spec fn row_at(width: usize, index: int) -> int {
    index / (width as int)
}

/// The column of the cell stored at `index`.
pub open spec fn col_at(width: usize, index: int) -> int {
    index % (width as int)
}

/// What `index_of` returns: the index of an in-bounds cell, nothing otherwise.
pub open spec fn spec_index_of(width: usize, height: usize, row: int, col: int) -> Option<usize> {
    if in_bounds(width, height, row, col) {
        Some(cell_index(width, row, col) as usize)
    } else {
        None
    }
}

/// Neither side of a valid grid exceeds a quarter of the largest cell count.
pub proof fn lemma_dims_bounds(width: usize, height: usize)
    requires
        valid_dims(width, height),
    ensures
        4 * width <= MAX_CELLS,
        4 * height <= MAX_CELLS,
        width <= width * height,
        height <= width * height,
{
    assert(4 * width <= width * height && 4 * height <= width * height) by (nonlinear_arith)
        requires
            4 <= width,
            4 <= height,
    ;
}

/// An in-bounds cell has an index below the number of cells.
pub proof fn lemma_index_in_range(width: usize, height: usize, row: int, col: int)
    requires
        in_bounds(width, height, row, col),
    ensures
        0 <= cell_index(width, row, col) < width * height,
{
    assert(row * width + col < width * height) by (nonlinear_arith)
        requires
            0 <= row < height,
            0 <= col < width,
    ;
}

/// Row and column are recovered from the index of an in-bounds cell.
pub proof fn lemma_index_round_trip(width: usize, height: usize, row: int, col: int)
    requires
        in_bounds(width, height, row, col),
    ensures
        row_at(width, cell_index(width, row, col)) == row,
        col_at(width, cell_index(width, row, col)) == col,
{
    let w = width as int;
    vstd::arithmetic::div_mod::lemma_fundamental_div_mod_converse(row * w + col, w, row, col);
}

/// Every index below the number of cells is the index of its own row and column,
/// and these are in bounds.
pub proof fn lemma_position_round_trip(width: usize, height: usize, index: int)
    requires
        0 < width,
        0 <= index < width * height,
    ensures
        in_bounds(width, height, row_at(width, index), col_at(width, index)),
        cell_index(width, row_at(width, index), col_at(width, index)) == index,
{
    let w = width as int;
    let h = height as int;
    vstd::arithmetic::div_mod::lemma_fundamental_div_mod(index, w);
    assert(index / w < h) by (nonlinear_arith)
        requires
            0 < w,
            0 <= index < w * h,
            index == w * (index / w) + index % w,
            0 <= index % w < w,
    ;
}

/// `index_of` is one-to-one on the cells of the grid and onto the indices
/// `0 .. width * height`.
pub proof fn lemma_index_of_bijection(width: usize, height: usize)
    requires
        valid_dims(width, height),
    ensures
        forall|row: int, col: int|
            in_bounds(width, height, row, col) ==> 0 <= #[trigger] cell_index(width, row, col)
                < width * height,
        forall|r1: int, c1: int, r2: int, c2: int|
            in_bounds(width, height, r1, c1) && in_bounds(width, height, r2, c2)
                && #[trigger] cell_index(width, r1, c1) == #[trigger] cell_index(width, r2, c2)
                ==> r1 == r2 && c1 == c2,
        forall|index: int|
            0 <= index < width * height ==> in_bounds(
                width,
                height,
                #[trigger] row_at(width, index),
                col_at(width, index),
            ) && cell_index(width, row_at(width, index), col_at(width, index)) == index,
{
    assert forall|row: int, col: int| in_bounds(width, height, row, col) implies 0
        <= #[trigger] cell_index(width, row, col) < width * height by {
        lemma_index_in_range(width, height, row, col);
    }
    assert forall|r1: int, c1: int, r2: int, c2: int|
        in_bounds(width, height, r1, c1) && in_bounds(width, height, r2, c2)
            && #[trigger] cell_index(width, r1, c1) == #[trigger] cell_index(
            width,
            r2,
            c2,
        ) implies r1 == r2 && c1 == c2 by {
        lemma_index_round_trip(width, height, r1, c1);
        lemma_index_round_trip(width, height, r2, c2);
    }
    assert forall|index: int| 0 <= index < width * height implies in_bounds(
        width,
        height,
        #[trigger] row_at(width, index),
        col_at(width, index),
    ) && cell_index(width, row_at(width, index), col_at(width, index)) == index by {
        lemma_position_round_trip(width, height, index);
    }
}

/// The index of cell `(row, col)`, if the grid has such a cell. Every conversion
/// from coordinates to an index goes through this function.
pub fn index_of(width: usize, height: usize, row: i32, col: i32) -> (result: Option<usize>)
    requires
        valid_dims(width, height),
    ensures
        result == spec_index_of(width, height, row as int, col as int),
        result is Some <==> in_bounds(width, height, row as int, col as int),
        result is Some ==> result.unwrap() < width * height,
        result is Some ==> result.unwrap() == cell_index(width, row as int, col as int),
{
    if row >= 0 && col >= 0 && (row as usize) < height && (col as usize) < width {
        proof {
            lemma_index_in_range(width, height, row as int, col as int);
        }
        Some(row as usize * width + col as usize)
    } else {
        None
    }
}

/// The row of the cell stored at `index`.
pub fn row_of(width: usize, height: usize, index: usize) -> (row: usize)
    requires
        valid_dims(width, height),
        index < width * height,
    ensures
        row == row_at(width, index as int),
        row < height,
{
    proof {
        lemma_position_round_trip(width, height, index as int);
    }
    index / width
}

/// The column of the cell stored at `index`.
pub fn col_of(width: usize, height: usize, index: usize) -> (col: usize)
    requires
        valid_dims(width, height),
        index < width * height,
    ensures
        col == col_at(width, index as int),
        col < width,
{
    index % width
}

} // verus!
