//! The seven shapes: each a table of four rotation states, each state a 4x4
//! bitmap with four cells set.
use vstd::prelude::*;

verus! {

/// A 4x4 bitmap, row by row; a cell is set where the entry is 1.
pub type Pattern = [[u8; 4]; 4];

/// The four rotation states of one shape, in the order in which rotating
/// steps through them.
pub type RotationPatterns = [Pattern; 4];

/// Number of canonical shapes.
pub const SHAPE_COUNT: u8 = 7;

/// Number of rotation states of a shape.
pub const ROTATION_COUNT: u8 = 4;

/// The straight bar.
pub const I_SHAPE: RotationPatterns = [
    [
        [0, 1, 0, 0],
        [0, 1, 0, 0],
        [0, 1, 0, 0],
        [0, 1, 0, 0],
    ],
    [
        [0, 0, 0, 0],
        [1, 1, 1, 1],
        [0, 0, 0, 0],
        [0, 0, 0, 0],
    ],
    [
        [0, 1, 0, 0],
        [0, 1, 0, 0],
        [0, 1, 0, 0],
        [0, 1, 0, 0],
    ],
    [
        [0, 0, 0, 0],
        [1, 1, 1, 1],
        [0, 0, 0, 0],
        [0, 0, 0, 0],
    ],
];

/// The hook that opens to the left.
pub const J_SHAPE: RotationPatterns = [
    [
        [0, 0, 1, 0],
        [0, 0, 1, 0],
        [0, 1, 1, 0],
        [0, 0, 0, 0],
    ],
    [
        [0, 1, 0, 0],
        [0, 1, 1, 1],
        [0, 0, 0, 0],
        [0, 0, 0, 0],
    ],
    [
        [0, 0, 1, 1],
        [0, 0, 1, 0],
        [0, 0, 1, 0],
        [0, 0, 0, 0],
    ],
    [
        [0, 0, 0, 0],
        [0, 1, 1, 1],
        [0, 0, 0, 1],
        [0, 0, 0, 0],
    ],
];

/// The hook that opens to the right.
pub const L_SHAPE: RotationPatterns = [
    [
        [0, 1, 0, 0],
        [0, 1, 0, 0],
        [0, 1, 1, 0],
        [0, 0, 0, 0],
    ],
    [
        [0, 0, 0, 0],
        [1, 1, 1, 0],
        [1, 0, 0, 0],
        [0, 0, 0, 0],
    ],
    [
        [1, 1, 0, 0],
        [0, 1, 0, 0],
        [0, 1, 0, 0],
        [0, 0, 0, 0],
    ],
    [
        [0, 0, 1, 0],
        [1, 1, 1, 0],
        [0, 0, 0, 0],
        [0, 0, 0, 0],
    ],
];

/// The square, the same in every rotation state.
pub const O_SHAPE: RotationPatterns = [
    [
        [0, 1, 1, 0],
        [0, 1, 1, 0],
        [0, 0, 0, 0],
        [0, 0, 0, 0],
    ],
    [
        [0, 1, 1, 0],
        [0, 1, 1, 0],
        [0, 0, 0, 0],
        [0, 0, 0, 0],
    ],
    [
        [0, 1, 1, 0],
        [0, 1, 1, 0],
        [0, 0, 0, 0],
        [0, 0, 0, 0],
    ],
    [
        [0, 1, 1, 0],
        [0, 1, 1, 0],
        [0, 0, 0, 0],
        [0, 0, 0, 0],
    ],
];

/// The step that rises to the right.
pub const S_SHAPE: RotationPatterns = [
    [
        [0, 1, 1, 0],
        [1, 1, 0, 0],
        [0, 0, 0, 0],
        [0, 0, 0, 0],
    ],
    [
        [0, 1, 0, 0],
        [0, 1, 1, 0],
        [0, 0, 1, 0],
        [0, 0, 0, 0],
    ],
    [
        [0, 1, 1, 0],
        [1, 1, 0, 0],
        [0, 0, 0, 0],
        [0, 0, 0, 0],
    ],
    [
        [0, 1, 0, 0],
        [0, 1, 1, 0],
        [0, 0, 1, 0],
        [0, 0, 0, 0],
    ],
];

/// The step that falls to the right.
pub const Z_SHAPE: RotationPatterns = [
    [
        [0, 1, 1, 0],
        [0, 0, 1, 1],
        [0, 0, 0, 0],
        [0, 0, 0, 0],
    ],
    [
        [0, 0, 0, 1],
        [0, 0, 1, 1],
        [0, 0, 1, 0],
        [0, 0, 0, 0],
    ],
    [
        [0, 1, 1, 0],
        [0, 0, 1, 1],
        [0, 0, 0, 0],
        [0, 0, 0, 0],
    ],
    [
        [0, 0, 0, 1],
        [0, 0, 1, 1],
        [0, 0, 1, 0],
        [0, 0, 0, 0],
    ],
];

/// The bar with a stub in its middle.
pub const T_SHAPE: RotationPatterns = [
    [
        [0, 1, 0, 0],
        [1, 1, 1, 0],
        [0, 0, 0, 0],
        [0, 0, 0, 0],
    ],
    [
        [0, 1, 0, 0],
        [0, 1, 1, 0],
        [0, 1, 0, 0],
        [0, 0, 0, 0],
    ],
    [
        [0, 0, 0, 0],
        [1, 1, 1, 0],
        [0, 1, 0, 0],
        [0, 0, 0, 0],
    ],
    [
        [0, 1, 0, 0],
        [1, 1, 0, 0],
        [0, 1, 0, 0],
        [0, 0, 0, 0],
    ],
];
/// Whether cell `k` of the pattern is set, the cells counted row by row from 0.
pub open spec fn is_set(pattern: Pattern, k: int) -> bool {
    pattern[k / 4][k % 4] == 1
}

/// The set cells among the first `n` cells of the pattern, in row-major order.
pub open spec fn set_cells(pattern: Pattern, n: int) -> Seq<int>
    decreases n,
{
    if n <= 0 {
        Seq::empty()
    } else if is_set(pattern, n - 1) {
        set_cells(pattern, n - 1).push(n - 1)
    } else {
        set_cells(pattern, n - 1)
    }
}

/// A pattern that describes a piece: exactly four of its cells are set.
pub open spec fn is_piece_pattern(pattern: Pattern) -> bool {
    set_cells(pattern, 16).len() == 4
}

/// The cell of the pattern that is set `k`-th in row-major order.
pub open spec fn pattern_cell(pattern: Pattern, k: int) -> int {
    set_cells(pattern, 16)[k]
}

/// The row inside the pattern of its `k`-th set cell.
pub open spec fn local_row(pattern: Pattern, k: int) -> int {
    pattern_cell(pattern, k) / 4
}

/// The column inside the pattern of its `k`-th set cell.
pub open spec fn local_col(pattern: Pattern, k: int) -> int {
    pattern_cell(pattern, k) % 4
}

/// The rotation table of a shape.
pub open spec fn spec_rotation_patterns(shape: u8) -> RotationPatterns {
    if shape == 0 {
        I_SHAPE
    } else if shape == 1 {
        J_SHAPE
    } else if shape == 2 {
        L_SHAPE
    } else if shape == 3 {
        O_SHAPE
    } else if shape == 4 {
        S_SHAPE
    } else if shape == 5 {
        Z_SHAPE
    } else {
        T_SHAPE
    }
}

/// The pattern of a shape in one of its rotation states.
pub open spec fn spec_pattern(shape: u8, rotation: u8) -> Pattern {
    spec_rotation_patterns(shape)[rotation as int]
}

/// The rotation state that follows `rotation`: 0, 1, 2, 3 and 0 again.
pub open spec fn spec_next_rotation(rotation: u8) -> u8 {
    if rotation + 1 >= ROTATION_COUNT {
        0
    } else {
        (rotation + 1) as u8
    }
}

/// The set cells of any prefix lie inside it and come in increasing order.
pub proof fn lemma_set_cells_sorted(pattern: Pattern, n: int)
    requires
        0 <= n,
    ensures
        set_cells(pattern, n).len() <= n,
        forall|i: int|
            0 <= i < set_cells(pattern, n).len() ==> 0 <= #[trigger] set_cells(pattern, n)[i] < n
                && is_set(pattern, set_cells(pattern, n)[i]),
        forall|i: int, j: int|
            0 <= i < j < set_cells(pattern, n).len() ==> set_cells(pattern, n)[i] < set_cells(
                pattern,
                n,
            )[j],
    decreases n,
{
    if n > 0 {
        lemma_set_cells_sorted(pattern, n - 1);
    }
}

/// A longer prefix keeps the set cells of a shorter one at their places.
pub proof fn lemma_set_cells_prefix(pattern: Pattern, m: int, n: int)
    requires
        0 <= m <= n,
    ensures
        set_cells(pattern, m).len() <= set_cells(pattern, n).len(),
        forall|i: int|
            0 <= i < set_cells(pattern, m).len() ==> set_cells(pattern, m)[i] == set_cells(
                pattern,
                n,
            )[i],
    decreases n - m,
{
    if m < n {
        lemma_set_cells_prefix(pattern, m, n - 1);
    }
}

/// The set cells of a piece pattern lie inside the 4x4 square and differ from
/// one another.
pub proof fn lemma_pattern_cells(pattern: Pattern)
    requires
        is_piece_pattern(pattern),
    ensures
        forall|k: int|
            0 <= k < 4 ==> 0 <= #[trigger] pattern_cell(pattern, k) < 16 && 0 <= local_row(
                pattern,
                k,
            ) < 4 && 0 <= local_col(pattern, k) < 4,
        forall|j: int, k: int|
            0 <= j < k < 4 ==> pattern_cell(pattern, j) < pattern_cell(pattern, k),
{
    lemma_set_cells_sorted(pattern, 16);
}

/// Every rotation state of every shape sets exactly four cells.
pub proof fn lemma_shapes_are_pieces(shape: u8, rotation: u8)
    requires
        shape < SHAPE_COUNT,
        rotation < ROTATION_COUNT,
    ensures
        is_piece_pattern(spec_pattern(shape, rotation)),
{
    reveal_with_fuel(set_cells, 17);
}

/// The rotation table of a shape.
pub fn rotation_patterns(shape: u8) -> (patterns: RotationPatterns)
    requires
        shape < SHAPE_COUNT,
    ensures
        patterns == spec_rotation_patterns(shape),
        forall|rotation: int|
            0 <= rotation < 4 ==> is_piece_pattern(#[trigger] patterns[rotation]),
{
    proof {
        lemma_shapes_are_pieces(shape, 0);
        lemma_shapes_are_pieces(shape, 1);
        lemma_shapes_are_pieces(shape, 2);
        lemma_shapes_are_pieces(shape, 3);
    }
    if shape == 0 {
        I_SHAPE
    } else if shape == 1 {
        J_SHAPE
    } else if shape == 2 {
        L_SHAPE
    } else if shape == 3 {
        O_SHAPE
    } else if shape == 4 {
        S_SHAPE
    } else if shape == 5 {
        Z_SHAPE
    } else {
        T_SHAPE
    }
}

/// The rotation state that follows `rotation`.
pub fn next_rotation(rotation: u8) -> (next: u8)
    requires
        rotation < ROTATION_COUNT,
    ensures
        next == spec_next_rotation(rotation),
        next < ROTATION_COUNT,
{
    if rotation + 1 >= ROTATION_COUNT {
        0
    } else {
        rotation + 1
    }
}

} // verus!
