//! A piece in play: its shape, rotation state and anchor, and the grid cells
//! that its pattern covers from there.
use vstd::prelude::*;
use crate::geometry::{
    cell_index, col_at, in_bounds, index_of, lemma_dims_bounds, lemma_index_in_range,
    lemma_index_round_trip, row_at, valid_dims,
};
use crate::shapes::{
    is_piece_pattern, lemma_pattern_cells, lemma_set_cells_prefix, lemma_shapes_are_pieces,
    local_col, local_row, rotation_patterns, set_cells, spec_next_rotation, spec_pattern,
    Pattern, ROTATION_COUNT, SHAPE_COUNT,
};

verus! {

/// The grid row of the pattern's `k`-th set cell, the pattern's top row at `anchor_row`.
pub open spec fn placed_row(pattern: Pattern, anchor_row: int, k: int) -> int {
    anchor_row + local_row(pattern, k)
}

/// The grid column of the pattern's `k`-th set cell, the pattern's left column at `anchor_col`.
pub open spec fn placed_col(pattern: Pattern, anchor_col: int, k: int) -> int {
    anchor_col + local_col(pattern, k)
}

/// Whether all four set cells of the pattern, anchored at `(anchor_row, anchor_col)`,
/// are cells of the grid.
pub open spec fn pattern_fits(
    width: usize,
    height: usize,
    pattern: Pattern,
    anchor_row: int,
    anchor_col: int,
) -> bool {
    forall|k: int|
        0 <= k < 4 ==> in_bounds(
            width,
            height,
            #[trigger] placed_row(pattern, anchor_row, k),
            placed_col(pattern, anchor_col, k),
        )
}

/// The grid index of the pattern's `k`-th set cell.
pub open spec fn placed_index(
    width: usize,
    pattern: Pattern,
    anchor_row: int,
    anchor_col: int,
    k: int,
) -> int {
    cell_index(width, placed_row(pattern, anchor_row, k), placed_col(pattern, anchor_col, k))
}

/// The four grid indices that the anchored pattern covers, in row-major order
/// of the pattern.
pub open spec fn placement(width: usize, pattern: Pattern, anchor_row: int, anchor_col: int) -> Seq<
    usize,
> {
    Seq::new(4, |k: int| placed_index(width, pattern, anchor_row, anchor_col, k) as usize)
}

/// The column at which a new piece is anchored.
pub open spec fn spawn_col(width: usize) -> int {
    width / 2 - 2
}

/// A piece as the rules see it: shape, rotation state and anchor.
pub struct PieceView {
    /// Which of the seven shapes.
    pub shape: u8,
    /// The rotation state, 0 to 3.
    pub rotation: u8,
    /// The grid row of the pattern's top row.
    pub row: int,
    /// The grid column of the pattern's left column.
    pub col: int,
}

impl PieceView {
    /// The pattern of the piece in its rotation state.
    pub open spec fn pattern(self) -> Pattern {
        spec_pattern(self.shape, self.rotation)
    }

    /// Shape and rotation state are valid and the pattern fits at the anchor.
    pub open spec fn wf(self, width: usize, height: usize) -> bool {
        &&& self.shape < SHAPE_COUNT
        &&& self.rotation < ROTATION_COUNT
        &&& pattern_fits(width, height, self.pattern(), self.row, self.col)
    }

    /// The four grid cells that the piece covers.
    pub open spec fn cells(self, width: usize) -> Seq<usize> {
        placement(width, self.pattern(), self.row, self.col)
    }

    /// A piece of the given shape as it enters the grid.
    pub open spec fn spawned(shape: u8, width: usize) -> PieceView {
        PieceView { shape, rotation: 0, row: 0, col: spawn_col(width) }
    }

    /// The piece with its anchor moved.
    pub open spec fn shifted(self, d_row: int, d_col: int) -> PieceView {
        PieceView { row: self.row + d_row, col: self.col + d_col, ..self }
    }

    /// The piece in its next rotation state, at the same anchor.
    pub open spec fn turned(self) -> PieceView {
        PieceView { rotation: spec_next_rotation(self.rotation), ..self }
    }
}

/// Four indices that name cells of the grid.
pub open spec fn cells_inside(positions: Seq<usize>, cell_count: int) -> bool {
    &&& positions.len() == 4
    &&& forall|k: int| 0 <= k < 4 ==> #[trigger] positions[k] < cell_count
}

/// Four indices that name four different cells of the grid.
pub open spec fn distinct_cells(positions: Seq<usize>, cell_count: int) -> bool {
    &&& cells_inside(positions, cell_count)
    &&& forall|j: int, k: int| 0 <= j < k < 4 ==> positions[j] != positions[k]
}

/// A pattern that fits covers four different cells of the grid.
pub proof fn lemma_placement_cells(
    width: usize,
    height: usize,
    pattern: Pattern,
    anchor_row: int,
    anchor_col: int,
)
    requires
        valid_dims(width, height),
        is_piece_pattern(pattern),
        pattern_fits(width, height, pattern, anchor_row, anchor_col),
    ensures
        distinct_cells(placement(width, pattern, anchor_row, anchor_col), width * height),
        forall|k: int|
            0 <= k < 4 ==> #[trigger] placement(width, pattern, anchor_row, anchor_col)[k]
                == placed_index(width, pattern, anchor_row, anchor_col, k),
{
    let p = placement(width, pattern, anchor_row, anchor_col);
    lemma_pattern_cells(pattern);
    assert forall|k: int| 0 <= k < 4 implies #[trigger] p[k] == placed_index(
        width,
        pattern,
        anchor_row,
        anchor_col,
        k,
    ) && p[k] < width * height by {
        lemma_index_in_range(
            width,
            height,
            placed_row(pattern, anchor_row, k),
            placed_col(pattern, anchor_col, k),
        );
    }
    assert forall|j: int, k: int| 0 <= j < k < 4 implies p[j] != p[k] by {
        lemma_index_round_trip(
            width,
            height,
            placed_row(pattern, anchor_row, j),
            placed_col(pattern, anchor_col, j),
        );
        lemma_index_round_trip(
            width,
            height,
            placed_row(pattern, anchor_row, k),
            placed_col(pattern, anchor_col, k),
        );
    }
}

/// Moving the anchor moves every covered index by the same amount.
pub proof fn lemma_placement_shift(
    width: usize,
    pattern: Pattern,
    anchor_row: int,
    anchor_col: int,
    d_row: int,
    d_col: int,
    k: int,
)
    ensures
        placed_index(width, pattern, anchor_row + d_row, anchor_col + d_col, k) == placed_index(
            width,
            pattern,
            anchor_row,
            anchor_col,
            k,
        ) + d_row * width + d_col,
{
    let r = placed_row(pattern, anchor_row, k);
    assert((r + d_row) * width == r * width + d_row * width) by (nonlinear_arith);
}

/// A pattern anchored at least four rows and columns away from the bottom and
/// right edges, and not left of or above the grid, fits.
pub proof fn lemma_inner_anchor_fits(
    width: usize,
    height: usize,
    pattern: Pattern,
    anchor_row: int,
    anchor_col: int,
)
    requires
        is_piece_pattern(pattern),
        0 <= anchor_row <= height - 4,
        0 <= anchor_col <= width - 4,
    ensures
        pattern_fits(width, height, pattern, anchor_row, anchor_col),
{
    lemma_pattern_cells(pattern);
}

/// Every shape in every rotation state fits at the spawn anchor.
pub proof fn lemma_spawn_fits(width: usize, height: usize, shape: u8, rotation: u8)
    requires
        valid_dims(width, height),
        shape < SHAPE_COUNT,
        rotation < ROTATION_COUNT,
    ensures
        pattern_fits(width, height, spec_pattern(shape, rotation), 0, spawn_col(width)),
{
    lemma_shapes_are_pieces(shape, rotation);
    lemma_inner_anchor_fits(width, height, spec_pattern(shape, rotation), 0, spawn_col(width));
}

/// Resolves a pattern anchored at `(anchor_row, anchor_col)` into the four grid
/// indices it covers, in row-major order of the pattern. If any set cell falls
/// outside the grid there is no result.
pub fn pattern_to_positions(
    pattern: &Pattern,
    anchor_row: i32,
    anchor_col: i32,
    width: usize,
    height: usize,
) -> (result: Option<[usize; 4]>)
    requires
        valid_dims(width, height),
        is_piece_pattern(*pattern),
    ensures
        result is Some <==> pattern_fits(
            width,
            height,
            *pattern,
            anchor_row as int,
            anchor_col as int,
        ),
        result is Some ==> result.unwrap()@ == placement(
            width,
            *pattern,
            anchor_row as int,
            anchor_col as int,
        ),
        result is Some ==> distinct_cells(result.unwrap()@, width * height),
{
    proof {
        lemma_pattern_cells(*pattern);
    }
    if anchor_row > i32::MAX - 4 || anchor_col > i32::MAX - 4 {
        proof {
            lemma_dims_bounds(width, height);
            assert(!in_bounds(
                width,
                height,
                placed_row(*pattern, anchor_row as int, 0),
                placed_col(*pattern, anchor_col as int, 0),
            ));
        }
        return None;
    }
    let mut positions: [usize; 4] = [0, 0, 0, 0];
    let mut found: usize = 0;
    let mut k: usize = 0;
    while k < 16
        invariant
            valid_dims(width, height),
            is_piece_pattern(*pattern),
            anchor_row <= i32::MAX - 4,
            anchor_col <= i32::MAX - 4,
            k <= 16,
            found == set_cells(*pattern, k as int).len(),
            found <= 4,
            forall|i: int|
                0 <= i < found ==> in_bounds(
                    width,
                    height,
                    #[trigger] placed_row(*pattern, anchor_row as int, i),
                    placed_col(*pattern, anchor_col as int, i),
                ),
            forall|i: int|
                0 <= i < found ==> #[trigger] positions@[i] == placed_index(
                    width,
                    *pattern,
                    anchor_row as int,
                    anchor_col as int,
                    i,
                ),
        decreases 16 - k,
    {
        let local_r: usize = k / 4;
        let local_c: usize = k % 4;
        proof {
            lemma_set_cells_prefix(*pattern, k as int + 1, 16);
        }
        if pattern[local_r][local_c] == 1 {
            let cell = index_of(
                width,
                height,
                local_r as i32 + anchor_row,
                local_c as i32 + anchor_col,
            );
            match cell {
                Some(index) => {
                    positions[found] = index;
                    found = found + 1;
                },
                None => {
                    assert(!in_bounds(
                        width,
                        height,
                        placed_row(*pattern, anchor_row as int, found as int),
                        placed_col(*pattern, anchor_col as int, found as int),
                    ));
                    return None;
                },
            }
        }
        k = k + 1;
    }
    proof {
        lemma_placement_cells(width, height, *pattern, anchor_row as int, anchor_col as int);
    }
    Some(positions)
}

/// A piece: one of the seven shapes in one of its rotation states, anchored on
/// a grid by the top-left corner of its 4x4 pattern.
#[derive(Clone, Copy, Debug)]
pub struct Tetromino {
    /// Which of the seven shapes this is.
    pub tetromino_type: u8,
    /// The indices of the four grid cells the piece covers.
    pub positions: [usize; 4],
    /// The rotation state, 0 to 3.
    pub rotation_pattern_index: u8,
    /// The grid row of the pattern's top row.
    pub pattern_top_left_row: i32,
    /// The grid column of the pattern's left column.
    pub pattern_top_left_col: i32,
}

impl View for Tetromino {
    type V = PieceView;

    open spec fn view(&self) -> PieceView {
        PieceView {
            shape: self.tetromino_type,
            rotation: self.rotation_pattern_index,
            row: self.pattern_top_left_row as int,
            col: self.pattern_top_left_col as int,
        }
    }
}

impl Tetromino {
    /// The pattern of the piece in its present rotation state.
    pub open spec fn pattern(&self) -> Pattern {
        self@.pattern()
    }

    /// A piece in play on a `width` x `height` grid: shape and rotation state
    /// are valid, the pattern fits at the anchor, and the stored positions are
    /// the cells that the pattern covers from there.
    pub open spec fn wf(&self, width: usize, height: usize) -> bool {
        &&& self@.wf(width, height)
        &&& self.positions@ == self@.cells(width)
    }

    /// Each stored position of a piece in play is the index of the grid cell
    /// that its pattern covers there, and row and column are recovered from it.
    pub proof fn lemma_cells(&self, width: usize, height: usize, k: int)
        requires
            valid_dims(width, height),
            self.wf(width, height),
            0 <= k < 4,
        ensures
            self.positions@[k] == placed_index(
                width,
                self.pattern(),
                self.pattern_top_left_row as int,
                self.pattern_top_left_col as int,
                k,
            ),
            self.positions@[k] < width * height,
            in_bounds(
                width,
                height,
                placed_row(self.pattern(), self.pattern_top_left_row as int, k),
                placed_col(self.pattern(), self.pattern_top_left_col as int, k),
            ),
            row_at(width, self.positions@[k] as int) == placed_row(
                self.pattern(),
                self.pattern_top_left_row as int,
                k,
            ),
            col_at(width, self.positions@[k] as int) == placed_col(
                self.pattern(),
                self.pattern_top_left_col as int,
                k,
            ),
            -3 <= self.pattern_top_left_row < height,
            -3 <= self.pattern_top_left_col < width,
    {
        let row = self.pattern_top_left_row as int;
        let col = self.pattern_top_left_col as int;
        lemma_shapes_are_pieces(self.tetromino_type, self.rotation_pattern_index);
        lemma_pattern_cells(self.pattern());
        lemma_placement_cells(width, height, self.pattern(), row, col);
        lemma_index_round_trip(
            width,
            height,
            placed_row(self.pattern(), row, k),
            placed_col(self.pattern(), col, k),
        );
    }

    /// A new piece of the given shape at the spawn anchor of the grid.
    pub fn new(tetromino_type: u8, width: usize, height: usize) -> (piece: Tetromino)
        requires
            tetromino_type < SHAPE_COUNT,
            valid_dims(width, height),
        ensures
            piece@ == PieceView::spawned(tetromino_type, width),
            piece.positions@ == PieceView::spawned(tetromino_type, width).cells(width),
            piece.wf(width, height),
    {
        let patterns = rotation_patterns(tetromino_type);
        let pattern_top_left_row: i32 = 0;
        proof {
            lemma_dims_bounds(width, height);
        }
        let pattern_top_left_col: i32 = (width / 2 - 2) as i32;
        proof {
            lemma_spawn_fits(width, height, tetromino_type, 0);
        }
        let resolved = pattern_to_positions(
            &patterns[0],
            pattern_top_left_row,
            pattern_top_left_col,
            width,
            height,
        );
        let positions = resolved.unwrap();
        Tetromino {
            tetromino_type,
            positions,
            rotation_pattern_index: 0,
            pattern_top_left_row,
            pattern_top_left_col,
        }
    }
}

} // verus!
