//! Enumeration of the placements in which the falling piece can come to rest:
//! for each rotation state and each anchor column, the piece is dropped
//! straight down from its anchor row.
use vstd::prelude::*;
use crate::board::{Board, BoardView};
use crate::geometry::{in_bounds, lemma_dims_bounds};
use crate::grid::any_occupied;
use crate::shapes::{
    is_piece_pattern, lemma_pattern_cells, lemma_shapes_are_pieces, rotation_patterns,
    spec_pattern, spec_rotation_patterns, Pattern, SHAPE_COUNT,
};
use crate::tetromino::{
    distinct_cells, lemma_placement_cells, lemma_placement_shift, pattern_fits,
    pattern_to_positions, placed_col, placed_index, placed_row, placement,
};

verus! {

/// Whether the pattern anchored at `(row, col)` lies inside the grid on free cells.
pub open spec fn placement_free(
    cells: Seq<Option<u8>>,
    width: usize,
    height: usize,
    pattern: Pattern,
    row: int,
    col: int,
) -> bool {
    pattern_fits(width, height, pattern, row, col) && !any_occupied(
        cells,
        placement(width, pattern, row, col),
    )
}

/// How many rows the pattern falls from `(row, col)` until the row below is
/// out of the grid or taken.
pub open spec fn drop_depth(
    cells: Seq<Option<u8>>,
    width: usize,
    height: usize,
    pattern: Pattern,
    row: int,
    col: int,
) -> int
    decreases height - row,
{
    if row + 1 < height && placement_free(cells, width, height, pattern, row + 1, col) {
        1 + drop_depth(cells, width, height, pattern, row + 1, col)
    } else {
        0
    }
}

/// Where the pattern comes to rest when dropped from `(row, col)`; nothing if
/// it has no room there to begin with.
pub open spec fn resting_placement(
    cells: Seq<Option<u8>>,
    width: usize,
    height: usize,
    pattern: Pattern,
    row: int,
    col: int,
) -> Option<Seq<usize>> {
    if placement_free(cells, width, height, pattern, row, col) {
        Some(
            placement(
                width,
                pattern,
                row + drop_depth(cells, width, height, pattern, row, col),
                col,
            ),
        )
    } else {
        None
    }
}

/// The resting placements of the pattern for the anchor columns `lo .. hi`,
/// from left to right.
pub open spec fn placements_in_columns(
    cells: Seq<Option<u8>>,
    width: usize,
    height: usize,
    pattern: Pattern,
    row: int,
    lo: int,
    hi: int,
) -> Seq<Seq<usize>>
    decreases hi - lo,
{
    if hi <= lo {
        Seq::empty()
    } else {
        let before = placements_in_columns(cells, width, height, pattern, row, lo, hi - 1);
        match resting_placement(cells, width, height, pattern, row, hi - 1) {
            Some(positions) => before.push(positions),
            None => before,
        }
    }
}

/// The leftmost anchor column at which a pattern can have a cell in the grid.
pub open spec fn first_anchor_col() -> int {
    -3
}

/// The resting placements of the falling piece in its first `rotations`
/// rotation states, each state scanned over all anchor columns.
pub open spec fn placements_in_rotations(board: BoardView, rotations: int) -> Seq<Seq<usize>>
    decreases rotations,
{
    if rotations <= 0 {
        Seq::empty()
    } else {
        placements_in_rotations(board, rotations - 1) + placements_in_columns(
            board.cells,
            board.width,
            board.height,
            spec_pattern(board.current.shape, (rotations - 1) as u8),
            board.current.row,
            first_anchor_col(),
            board.width as int,
        )
    }
}

/// Every placement in which the falling piece can come to rest, by rotation
/// state and then by anchor column. Rotation states that look alike each
/// contribute their placements.
pub open spec fn valid_moves(board: BoardView) -> Seq<Seq<usize>> {
    placements_in_rotations(board, 4)
}

/// The placements of a list of moves as sequences.
pub open spec fn moves_view(moves: Seq<[usize; 4]>) -> Seq<Seq<usize>> {
    Seq::new(moves.len(), |i: int| moves[i]@)
}

/// A placement that rests: it lies inside the grid on four different free
/// cells, and one row lower it would leave the grid or cover an occupied cell.
pub open spec fn is_resting(
    cells: Seq<Option<u8>>,
    width: usize,
    height: usize,
    pattern: Pattern,
    row: int,
    col: int,
) -> bool {
    &&& placement_free(cells, width, height, pattern, row, col)
    &&& !placement_free(cells, width, height, pattern, row + 1, col)
}

/// A piece dropped from a free placement comes to rest, no higher than it started.
pub proof fn lemma_drop_rests(
    cells: Seq<Option<u8>>,
    width: usize,
    height: usize,
    pattern: Pattern,
    row: int,
    col: int,
)
    requires
        is_piece_pattern(pattern),
        placement_free(cells, width, height, pattern, row, col),
    ensures
        drop_depth(cells, width, height, pattern, row, col) >= 0,
        is_resting(
            cells,
            width,
            height,
            pattern,
            row + drop_depth(cells, width, height, pattern, row, col),
            col,
        ),
        forall|r: int|
            row <= r <= row + drop_depth(cells, width, height, pattern, row, col)
                ==> #[trigger] placement_free(cells, width, height, pattern, r, col),
    decreases height - row,
{
    lemma_pattern_cells(pattern);
    if row + 1 < height && placement_free(cells, width, height, pattern, row + 1, col) {
        lemma_drop_rests(cells, width, height, pattern, row + 1, col);
    }
}

/// The placements found for the anchor columns `lo .. hi` are the resting
/// placements of those columns: each one found belongs to a column, and each
/// column with room contributes its own.
pub proof fn lemma_placements_in_columns(
    cells: Seq<Option<u8>>,
    width: usize,
    height: usize,
    pattern: Pattern,
    row: int,
    lo: int,
    hi: int,
)
    ensures
        forall|i: int|
            0 <= i < placements_in_columns(cells, width, height, pattern, row, lo, hi).len()
                ==> exists|col: int|
                lo <= col < hi && #[trigger] resting_placement(
                    cells,
                    width,
                    height,
                    pattern,
                    row,
                    col,
                ) == Some(
                    #[trigger] placements_in_columns(cells, width, height, pattern, row, lo, hi)[i],
                ),
        forall|col: int|
            lo <= col < hi && (#[trigger] resting_placement(
                cells,
                width,
                height,
                pattern,
                row,
                col,
            )) is Some ==> placements_in_columns(
                cells,
                width,
                height,
                pattern,
                row,
                lo,
                hi,
            ).contains(resting_placement(cells, width, height, pattern, row, col).unwrap()),
    decreases hi - lo,
{
    if lo < hi {
        lemma_placements_in_columns(cells, width, height, pattern, row, lo, hi - 1);
        let before = placements_in_columns(cells, width, height, pattern, row, lo, hi - 1);
        let all = placements_in_columns(cells, width, height, pattern, row, lo, hi);
        let last = resting_placement(cells, width, height, pattern, row, hi - 1);
        assert forall|i: int| 0 <= i < all.len() implies exists|col: int|
            lo <= col < hi && #[trigger] resting_placement(
                cells,
                width,
                height,
                pattern,
                row,
                col,
            ) == Some(#[trigger] all[i]) by {
            if i < before.len() {
                assert(all[i] == before[i]);
                let col = choose|col: int|
                    lo <= col < hi - 1 && #[trigger] resting_placement(
                        cells,
                        width,
                        height,
                        pattern,
                        row,
                        col,
                    ) == Some(before[i]);
                assert(resting_placement(cells, width, height, pattern, row, col) == Some(
                    all[i],
                ));
            } else {
                assert(last == Some(all[i]));
            }
        }
        assert forall|col: int|
            lo <= col < hi && (#[trigger] resting_placement(
                cells,
                width,
                height,
                pattern,
                row,
                col,
            )) is Some implies all.contains(
            resting_placement(cells, width, height, pattern, row, col).unwrap(),
        ) by {
            let found = resting_placement(cells, width, height, pattern, row, col).unwrap();
            if col < hi - 1 {
                assert(before.contains(found));
                let i = choose|i: int| 0 <= i < before.len() && before[i] == found;
                assert(all[i] == found);
            } else {
                assert(all[all.len() - 1] == found);
            }
        }
    }
}

/// Every enumerated placement is the resting placement of the falling piece
/// in one of its four rotation states at some anchor column, and every
/// rotation state and anchor column with room in the anchor row contributes
/// its resting placement.
pub proof fn lemma_valid_moves(board: BoardView, rotations: int)
    requires
        0 <= rotations <= 4,
    ensures
        forall|i: int|
            0 <= i < placements_in_rotations(board, rotations).len() ==> exists|
                rotation: int,
                col: int,
            |
                0 <= rotation < rotations && first_anchor_col() <= col < board.width
                    && #[trigger] resting_placement(
                    board.cells,
                    board.width,
                    board.height,
                    spec_pattern(board.current.shape, rotation as u8),
                    board.current.row,
                    col,
                ) == Some(#[trigger] placements_in_rotations(board, rotations)[i]),
        forall|rotation: int, col: int|
            0 <= rotation < rotations && first_anchor_col() <= col < board.width
                && (#[trigger] resting_placement(
                board.cells,
                board.width,
                board.height,
                spec_pattern(board.current.shape, rotation as u8),
                board.current.row,
                col,
            )) is Some ==> placements_in_rotations(board, rotations).contains(
                resting_placement(
                    board.cells,
                    board.width,
                    board.height,
                    spec_pattern(board.current.shape, rotation as u8),
                    board.current.row,
                    col,
                ).unwrap(),
            ),
    decreases rotations,
{
    if rotations > 0 {
        lemma_valid_moves(board, rotations - 1);
        let pattern = spec_pattern(board.current.shape, (rotations - 1) as u8);
        lemma_placements_in_columns(
            board.cells,
            board.width,
            board.height,
            pattern,
            board.current.row,
            first_anchor_col(),
            board.width as int,
        );
        let before = placements_in_rotations(board, rotations - 1);
        let added = placements_in_columns(
            board.cells,
            board.width,
            board.height,
            pattern,
            board.current.row,
            first_anchor_col(),
            board.width as int,
        );
        let all = placements_in_rotations(board, rotations);
        assert(all == before + added);
        assert forall|i: int| 0 <= i < all.len() implies exists|rotation: int, col: int|
            0 <= rotation < rotations && first_anchor_col() <= col < board.width
                && #[trigger] resting_placement(
                board.cells,
                board.width,
                board.height,
                spec_pattern(board.current.shape, rotation as u8),
                board.current.row,
                col,
            ) == Some(#[trigger] all[i]) by {
            if i < before.len() {
                assert(all[i] == before[i]);
                let (rotation, col) = choose|rotation: int, col: int|
                    0 <= rotation < rotations - 1 && first_anchor_col() <= col < board.width
                        && #[trigger] resting_placement(
                        board.cells,
                        board.width,
                        board.height,
                        spec_pattern(board.current.shape, rotation as u8),
                        board.current.row,
                        col,
                    ) == Some(before[i]);
                assert(resting_placement(
                    board.cells,
                    board.width,
                    board.height,
                    spec_pattern(board.current.shape, rotation as u8),
                    board.current.row,
                    col,
                ) == Some(all[i]));
            } else {
                let j = i - before.len();
                assert(all[i] == added[j]);
                let col = choose|col: int|
                    first_anchor_col() <= col < board.width && #[trigger] resting_placement(
                        board.cells,
                        board.width,
                        board.height,
                        pattern,
                        board.current.row,
                        col,
                    ) == Some(added[j]);
                assert(resting_placement(
                    board.cells,
                    board.width,
                    board.height,
                    spec_pattern(board.current.shape, (rotations - 1) as u8),
                    board.current.row,
                    col,
                ) == Some(all[i]));
            }
        }
        assert forall|rotation: int, col: int|
            0 <= rotation < rotations && first_anchor_col() <= col < board.width
                && (#[trigger] resting_placement(
                board.cells,
                board.width,
                board.height,
                spec_pattern(board.current.shape, rotation as u8),
                board.current.row,
                col,
            )) is Some implies all.contains(
            resting_placement(
                board.cells,
                board.width,
                board.height,
                spec_pattern(board.current.shape, rotation as u8),
                board.current.row,
                col,
            ).unwrap(),
        ) by {
            let found = resting_placement(
                board.cells,
                board.width,
                board.height,
                spec_pattern(board.current.shape, rotation as u8),
                board.current.row,
                col,
            ).unwrap();
            if rotation < rotations - 1 {
                assert(before.contains(found));
                let i = choose|i: int| 0 <= i < before.len() && before[i] == found;
                assert(all[i] == found);
            } else {
                assert(added.contains(found));
                let j = choose|j: int| 0 <= j < added.len() && added[j] == found;
                assert(all[before.len() + j] == found);
            }
        }
    }
}

impl Board {
    /// Every placement in which the falling piece can come to rest. For each
    /// of the four rotation states in turn, the pattern is anchored in the
    /// piece's anchor row at every column from the leftmost at which it fits
    /// to the rightmost; where it has room there, it is dropped row by row
    /// until the row below is out of the grid or taken, and the placement
    /// reached is recorded.
    pub fn get_valid_moves_for_current_shape(&self) -> (moves: Vec<[usize; 4]>)
        requires
            self.wf(),
        ensures
            moves_view(moves@) == valid_moves(self@),
            forall|i: int|
                0 <= i < moves@.len() ==> distinct_cells(
                    (#[trigger] moves@[i])@,
                    self@.width * self@.height,
                ) && !any_occupied(self@.cells, moves@[i]@),
    {
        let width: usize = self.grid.width;
        let height: usize = self.grid.height;
        let cell_count: usize = width * height;
        let anchor_row: i32 = self.current_shape.pattern_top_left_row;
        let patterns = rotation_patterns(self.current_shape.tetromino_type);
        let ghost board = self@;
        let mut moves: Vec<[usize; 4]> = Vec::new();
        proof {
            lemma_dims_bounds(width, height);
        }
        let mut rotation_index: usize = 0;
        while rotation_index < 4
            invariant
                self.wf(),
                self@ == board,
                width == board.width,
                height == board.height,
                cell_count == width * height,
                anchor_row == board.current.row,
                patterns == spec_rotation_patterns(board.current.shape),
                board.current.shape < SHAPE_COUNT,
                4 * width <= 0x7fff_ffff,
                4 * height <= 0x7fff_ffff,
                rotation_index <= 4,
                moves_view(moves@) == placements_in_rotations(board, rotation_index as int),
                forall|i: int|
                    0 <= i < moves@.len() ==> distinct_cells(
                        (#[trigger] moves@[i])@,
                        width * height,
                    ) && !any_occupied(board.cells, moves@[i]@),
            decreases 4 - rotation_index,
        {
            let pattern: Pattern = patterns[rotation_index];
            let ghost done = moves_view(moves@);
            proof {
                lemma_shapes_are_pieces(board.current.shape, rotation_index as u8);
            }
            let mut x_offset: i32 = -3;
            while x_offset < width as i32
                invariant
                    self.wf(),
                    self@ == board,
                    width == board.width,
                    height == board.height,
                    cell_count == width * height,
                    anchor_row == board.current.row,
                    is_piece_pattern(pattern),
                    4 * width <= 0x7fff_ffff,
                    4 * height <= 0x7fff_ffff,
                    -3 <= x_offset <= width,
                    moves_view(moves@) == done + placements_in_columns(
                        board.cells,
                        width,
                        height,
                        pattern,
                        anchor_row as int,
                        first_anchor_col(),
                        x_offset as int,
                    ),
                    forall|i: int|
                        0 <= i < moves@.len() ==> distinct_cells(
                            (#[trigger] moves@[i])@,
                            width * height,
                        ) && !any_occupied(board.cells, moves@[i]@),
                decreases width - x_offset,
            {
                match self.resting_placement(&pattern, anchor_row, x_offset) {
                    Some(resting) => {
                        let ghost earlier = moves@;
                        moves.push(resting);
                        proof {
                            assert(moves_view(moves@) =~= moves_view(earlier).push(resting@));
                        }
                    },
                    None => {},
                }
                x_offset = x_offset + 1;
            }
            rotation_index = rotation_index + 1;
        }
        moves
    }

    /// Where the pattern comes to rest when it is anchored at
    /// `(anchor_row, anchor_col)` and dropped straight down: it falls row by
    /// row until the row below is out of the grid or taken. Nothing if the
    /// pattern does not fit at the anchor or covers an occupied cell there.
    pub fn resting_placement(
        &self,
        pattern: &Pattern,
        anchor_row: i32,
        anchor_col: i32,
    ) -> (resting: Option<[usize; 4]>)
        requires
            self.wf(),
            is_piece_pattern(*pattern),
        ensures
            match resting {
                Some(positions) => resting_placement(
                    self@.cells,
                    self@.width,
                    self@.height,
                    *pattern,
                    anchor_row as int,
                    anchor_col as int,
                ) == Some(positions@) && distinct_cells(positions@, self@.width * self@.height)
                    && !any_occupied(self@.cells, positions@),
                None => resting_placement(
                    self@.cells,
                    self@.width,
                    self@.height,
                    *pattern,
                    anchor_row as int,
                    anchor_col as int,
                ) is None,
            },
    {
        let start: [usize; 4] = match pattern_to_positions(
            pattern,
            anchor_row,
            anchor_col,
            self.grid.width,
            self.grid.height,
        ) {
            Some(positions) => positions,
            None => {
                return None;
            },
        };
        if self.grid.is_any_occupied(&start) {
            return None;
        }
        let width: usize = self.grid.width;
        let height: usize = self.grid.height;
        let cell_count: usize = width * height;
        let ghost cells = self@.cells;
        let ghost row = anchor_row as int;
        let ghost col = anchor_col as int;
        let ghost fallen: int = 0;
        let mut positions: [usize; 4] = start;
        proof {
            lemma_dims_bounds(width, height);
            lemma_pattern_cells(*pattern);
        }
        loop
            invariant
                self.wf(),
                self@.cells == cells,
                width == self@.width,
                height == self@.height,
                cell_count == width * height,
                is_piece_pattern(*pattern),
                row == anchor_row as int,
                col == anchor_col as int,
                4 * width <= 0x7fff_ffff,
                4 * height <= 0x7fff_ffff,
                0 <= fallen,
                row + fallen < height,
                placement_free(cells, width, height, *pattern, row + fallen, col),
                positions@ == placement(width, *pattern, row + fallen, col),
                drop_depth(cells, width, height, *pattern, row, col) == fallen + drop_depth(
                    cells,
                    width,
                    height,
                    *pattern,
                    row + fallen,
                    col,
                ),
            ensures
                positions@ == placement(
                    width,
                    *pattern,
                    row + drop_depth(cells, width, height, *pattern, row, col),
                    col,
                ),
                placement_free(
                    cells,
                    width,
                    height,
                    *pattern,
                    row + drop_depth(cells, width, height, *pattern, row, col),
                    col,
                ),
            decreases height - (row + fallen),
        {
            proof {
                lemma_placement_cells(width, height, *pattern, row + fallen, col);
            }
            let mut lower: [usize; 4] = [0, 0, 0, 0];
            let mut inside: bool = true;
            let mut i: usize = 0;
            while i < 4
                invariant
                    i <= 4,
                    cell_count == width * height,
                    4 * width <= 0x7fff_ffff,
                    width * height <= 0x7fff_ffff,
                    forall|k: int| 0 <= k < 4 ==> #[trigger] positions@[k] < width * height,
                    forall|k: int| 0 <= k < i ==> #[trigger] lower@[k] == positions@[k] + width,
                    inside <==> forall|k: int|
                        0 <= k < i ==> #[trigger] positions@[k] + width < cell_count,
                decreases 4 - i,
            {
                lower[i] = positions[i] + width;
                if lower[i] >= cell_count {
                    inside = false;
                }
                i = i + 1;
            }
            proof {
                let here = row + fallen;
                lemma_pattern_cells(*pattern);
                assert forall|k: int| 0 <= k < 4 implies #[trigger] lower@[k] == placed_index(
                    width,
                    *pattern,
                    here + 1,
                    col,
                    k,
                ) && (lower@[k] < cell_count <==> in_bounds(
                    width,
                    height,
                    placed_row(*pattern, here + 1, k),
                    placed_col(*pattern, col, k),
                )) by {
                    lemma_placement_shift(width, *pattern, here, col, 1, 0, k);
                    let r = placed_row(*pattern, here + 1, k);
                    let c = placed_col(*pattern, col, k);
                    assert(r * width + c < width * height <==> r < height) by (nonlinear_arith)
                        requires
                            0 <= c < width,
                            0 <= r,
                    ;
                }
                if !inside {
                    let k = choose|k: int|
                        0 <= k < 4 && !(#[trigger] positions@[k] + width < cell_count);
                    assert(!(lower@[k] < cell_count));
                }
            }
            if !inside {
                break;
            }
            if self.grid.is_any_occupied(&lower) {
                break;
            }
            positions = lower;
            proof {
                fallen = fallen + 1;
            }
        }
        proof {
            lemma_placement_cells(
                width,
                height,
                *pattern,
                row + drop_depth(cells, width, height, *pattern, row, col),
                col,
            );
        }
        Some(positions)
    }
}

} // verus!
