//! The board: the grid together with the falling piece and the piece that
//! follows it, and the rules by which the falling piece moves, turns and
//! comes to rest.
use vstd::prelude::*;
use crate::geometry::{
    cell_index, col_of, in_bounds, index_of, lemma_dims_bounds, lemma_index_in_range, row_of,
    valid_dims,
};
use crate::grid::{
    any_occupied, covers, lemma_count_after_set, lemma_settled_count, occupied_total,
    row_completed, row_full, rows_to_clear, settled, Grid,
};
use crate::random::{random_shape, ShapeDraws};
use crate::shapes::{lemma_shapes_are_pieces, next_rotation, rotation_patterns, SHAPE_COUNT};
use crate::tetromino::{
    distinct_cells, lemma_placement_cells, pattern_fits, pattern_to_positions, placed_col,
    placed_index, placed_row, PieceView, Tetromino,
};

verus! {

/// What stands in the way of a move.
#[derive(Clone, Copy, Debug, PartialEq, Eq, Structural)]
pub enum CollisionType {
    /// Nothing: the move can be made.
    NoCollision,
    /// A cell would leave the grid to the left, to the right or at the top.
    Wall,
    /// A cell would leave the grid at the bottom.
    Ground,
    /// A cell would land on an occupied cell.
    Block,
}

/// The cells with the four `positions` occupied by `shape`.
pub open spec fn commit_cells(cells: Seq<Option<u8>>, positions: Seq<usize>, shape: u8) -> Seq<
    Option<u8>,
> {
    Seq::new(
        cells.len(),
        |i: int|
            if covers(positions, i) {
                Some(shape)
            } else {
                cells[i]
            },
    )
}

/// The cells with the first `n` of the four `positions` occupied by `shape`.
pub open spec fn commit_prefix(
    cells: Seq<Option<u8>>,
    positions: Seq<usize>,
    shape: u8,
    n: int,
) -> Seq<Option<u8>> {
    Seq::new(
        cells.len(),
        |i: int|
            if (0 < n && positions[0] == i) || (1 < n && positions[1] == i) || (2 < n
                && positions[2] == i) || (3 < n && positions[3] == i) {
                Some(shape)
            } else {
                cells[i]
            },
    )
}

/// Committing a piece on four different free cells occupies exactly those
/// four with its shape: they hold the shape, every other cell is as before,
/// and four more cells are occupied than before.
pub proof fn lemma_commit_cells(cells: Seq<Option<u8>>, positions: Seq<usize>, shape: u8)
    requires
        distinct_cells(positions, cells.len() as int),
        !any_occupied(cells, positions),
    ensures
        commit_cells(cells, positions, shape).len() == cells.len(),
        forall|k: int|
            0 <= k < 4 ==> commit_cells(cells, positions, shape)[#[trigger] positions[k] as int]
                == Some(shape),
        forall|i: int|
            0 <= i < cells.len() && !covers(positions, i) ==> #[trigger] commit_cells(
                cells,
                positions,
                shape,
            )[i] == cells[i],
        occupied_total(commit_cells(cells, positions, shape)) == occupied_total(cells) + 4,
{
    let c0 = cells;
    let c1 = c0.update(positions[0] as int, Some(shape));
    let c2 = c1.update(positions[1] as int, Some(shape));
    let c3 = c2.update(positions[2] as int, Some(shape));
    let c4 = c3.update(positions[3] as int, Some(shape));
    lemma_count_after_set(c0, positions[0] as int, shape);
    lemma_count_after_set(c1, positions[1] as int, shape);
    lemma_count_after_set(c2, positions[2] as int, shape);
    lemma_count_after_set(c3, positions[3] as int, shape);
    assert(c4 =~= commit_cells(cells, positions, shape));
}

/// After a piece was committed on four different free cells and the full
/// rows were cleared, the number of occupied cells has grown by four and
/// fallen by the width of the grid for each row cleared.
pub proof fn lemma_commit_and_clear_count(board: BoardView, positions: Seq<usize>, next_shape: u8)
    requires
        board.wf(),
        distinct_cells(positions, board.cells.len() as int),
        !any_occupied(board.cells, positions),
    ensures
        occupied_total(board.committed(positions, next_shape).cleared().cells) == occupied_total(
            board.cells,
        ) + 4 - board.width * rows_to_clear(
            board.committed(positions, next_shape).cells,
            board.width,
            board.height,
        ),
{
    lemma_commit_cells(board.cells, positions, board.current.shape);
    lemma_settled_count(board.committed(positions, next_shape).cells, board.width, board.height);
}

/// On a grid four cells wide, or when no row is cleared, a committed piece
/// changes the number of occupied cells by four minus four for each row
/// cleared.
pub proof fn lemma_commit_and_clear_count_by_fours(
    board: BoardView,
    positions: Seq<usize>,
    next_shape: u8,
)
    requires
        board.wf(),
        distinct_cells(positions, board.cells.len() as int),
        !any_occupied(board.cells, positions),
        board.width == 4 || rows_to_clear(
            board.committed(positions, next_shape).cells,
            board.width,
            board.height,
        ) == 0,
    ensures
        occupied_total(board.committed(positions, next_shape).cleared().cells) == occupied_total(
            board.cells,
        ) + 4 - 4 * rows_to_clear(
            board.committed(positions, next_shape).cells,
            board.width,
            board.height,
        ),
{
    lemma_commit_and_clear_count(board, positions, next_shape);
    let rows = rows_to_clear(
        board.committed(positions, next_shape).cells,
        board.width,
        board.height,
    );
}

/// A turn that would put a cell of the piece outside the grid is rejected:
/// the board stays as it is.
pub proof fn lemma_rotation_outside_rejected(board: BoardView, k: int)
    requires
        0 <= k < 4,
        !in_bounds(
            board.width,
            board.height,
            placed_row(board.current.turned().pattern(), board.current.row, k),
            placed_col(board.current.turned().pattern(), board.current.col, k),
        ),
    ensures
        !board.can_rotate(),
        board.rotated() == board,
{
}

/// A cell that leaves the grid makes a wall or ground of it, never a block.
pub proof fn lemma_first_exit_kinds(board: BoardView, d_row: int, d_col: int, k: int)
    requires
        0 <= k <= 4,
    ensures
        match board.first_exit(d_row, d_col, k) {
            Some(collision) => collision == CollisionType::Wall || collision
                == CollisionType::Ground,
            None => forall|j: int| k <= j < 4 ==> !board.leaves_grid(d_row, d_col, j),
        },
    decreases 4 - k,
{
    if k < 4 && !board.leaves_grid(d_row, d_col, k) {
        lemma_first_exit_kinds(board, d_row, d_col, k + 1);
    }
}

/// Nothing is in the way of a move exactly if the moved piece lies inside
/// the grid on free cells.
pub proof fn lemma_free_move(board: BoardView, d_row: int, d_col: int)
    ensures
        board.classify(d_row, d_col) == CollisionType::NoCollision <==> pattern_fits(
            board.width,
            board.height,
            board.current.pattern(),
            board.current.row + d_row,
            board.current.col + d_col,
        ) && !any_occupied(board.cells, board.current.shifted(d_row, d_col).cells(board.width)),
{
    lemma_first_exit_kinds(board, d_row, d_col, 0);
    if board.first_exit(d_row, d_col, 0) is None {
        assert forall|k: int| 0 <= k < 4 implies in_bounds(
            board.width,
            board.height,
            #[trigger] placed_row(board.current.pattern(), board.current.row + d_row, k),
            placed_col(board.current.pattern(), board.current.col + d_col, k),
        ) by {
            assert(!board.leaves_grid(d_row, d_col, k));
        }
    } else {
        lemma_first_exit_leaves(board, d_row, d_col, 0);
    }
}

/// Where a first exit is found, a cell of the moved piece leaves the grid.
pub proof fn lemma_first_exit_leaves(board: BoardView, d_row: int, d_col: int, k: int)
    requires
        0 <= k <= 4,
        board.first_exit(d_row, d_col, k) is Some,
    ensures
        exists|j: int| k <= j < 4 && board.leaves_grid(d_row, d_col, j),
    decreases 4 - k,
{
    if k < 4 && !board.leaves_grid(d_row, d_col, k) {
        lemma_first_exit_leaves(board, d_row, d_col, k + 1);
    }
}

/// A row that a placement would complete is full once the placement is
/// committed, and a row that is full then was completed by it.
pub proof fn lemma_completed_row_is_full(
    cells: Seq<Option<u8>>,
    width: usize,
    height: usize,
    positions: Seq<usize>,
    shape: u8,
    row: int,
)
    requires
        valid_dims(width, height),
        cells.len() == width * height,
        0 <= row < height,
    ensures
        row_completed(cells, width, positions, row) <==> row_full(
            commit_cells(cells, positions, shape),
            width,
            row,
        ),
{
    let after = commit_cells(cells, positions, shape);
    if row_completed(cells, width, positions, row) {
        assert forall|col: int| 0 <= col < width implies (#[trigger] after[cell_index(
            width,
            row,
            col,
        )]) is Some by {
            lemma_index_in_range(width, height, row, col);
        }
    }
    if row_full(after, width, row) {
        assert forall|col: int| 0 <= col < width implies cells[#[trigger] cell_index(
            width,
            row,
            col,
        )] is Some || covers(positions, cell_index(width, row, col)) by {
            lemma_index_in_range(width, height, row, col);
            assert(after[cell_index(width, row, col)] is Some);
        }
    }
}

/// No step of the game changes the dimensions of the board.
pub proof fn lemma_dimensions_fixed(
    board: BoardView,
    d_row: int,
    d_col: int,
    commit: bool,
    positions: Seq<usize>,
    draws: ShapeDraws,
)
    ensures
        board.moved(d_row, d_col).width == board.width,
        board.moved(d_row, d_col).height == board.height,
        board.rotated().width == board.width,
        board.rotated().height == board.height,
        board.landed(positions, draws).width == board.width,
        board.landed(positions, draws).height == board.height,
        board.after_move(d_row, d_col, commit, draws).width == board.width,
        board.after_move(d_row, d_col, commit, draws).height == board.height,
        board.cleared().width == board.width,
        board.cleared().height == board.height,
{
}

/// Moving and turning never put the falling piece on an occupied cell: if it
/// covers none before, it covers none after.
pub proof fn lemma_steering_keeps_piece_free(board: BoardView, d_row: int, d_col: int)
    requires
        !board.game_over(),
    ensures
        !board.moved(d_row, d_col).game_over(),
        !board.rotated().game_over(),
{
    lemma_first_exit_kinds(board, d_row, d_col, 0);
}

/// The board as the rules see it.
pub struct BoardView {
    /// Number of columns.
    pub width: usize,
    /// Number of rows.
    pub height: usize,
    /// What each cell holds, row by row.
    pub cells: Seq<Option<u8>>,
    /// The falling piece.
    pub current: PieceView,
    /// The piece that follows it.
    pub next: PieceView,
}

impl BoardView {
    /// The dimensions are valid, there is one cell per position, every occupied
    /// cell names a shape, the falling piece lies inside the grid and the next
    /// piece waits at the spawn anchor.
    pub open spec fn wf(self) -> bool {
        &&& valid_dims(self.width, self.height)
        &&& self.cells.len() == self.width * self.height
        &&& forall|i: int|
            0 <= i < self.cells.len() && (#[trigger] self.cells[i]) is Some
                ==> self.cells[i].unwrap() < SHAPE_COUNT
        &&& self.current.wf(self.width, self.height)
        &&& self.next.shape < SHAPE_COUNT
        &&& self.next == PieceView::spawned(self.next.shape, self.width)
    }

    /// An empty board with the two given pieces at the spawn anchor.
    pub open spec fn fresh(width: usize, height: usize, current: u8, next: u8) -> BoardView {
        BoardView {
            width,
            height,
            cells: Seq::new((width * height) as nat, |i: int| None),
            current: PieceView::spawned(current, width),
            next: PieceView::spawned(next, width),
        }
    }

    /// Whether the `k`-th cell of the falling piece, moved by the offset, leaves
    /// the grid.
    pub open spec fn leaves_grid(self, d_row: int, d_col: int, k: int) -> bool {
        !in_bounds(
            self.width,
            self.height,
            placed_row(self.current.pattern(), self.current.row + d_row, k),
            placed_col(self.current.pattern(), self.current.col + d_col, k),
        )
    }

    /// How the first of the cells `k ..` that leaves the grid does so: through
    /// the bottom, or otherwise. Nothing if none of them leaves.
    pub open spec fn first_exit(self, d_row: int, d_col: int, k: int) -> Option<CollisionType>
        decreases 4 - k,
    {
        if k >= 4 {
            None
        } else if self.leaves_grid(d_row, d_col, k) {
            if placed_row(self.current.pattern(), self.current.row + d_row, k) >= self.height {
                Some(CollisionType::Ground)
            } else {
                Some(CollisionType::Wall)
            }
        } else {
            self.first_exit(d_row, d_col, k + 1)
        }
    }

    /// What stands in the way of moving the falling piece by the offset. The
    /// first cell that leaves the grid decides between ground and wall; if all
    /// four stay inside, an occupied target cell is a block.
    pub open spec fn classify(self, d_row: int, d_col: int) -> CollisionType {
        match self.first_exit(d_row, d_col, 0) {
            Some(collision) => collision,
            None => if any_occupied(
                self.cells,
                self.current.shifted(d_row, d_col).cells(self.width),
            ) {
                CollisionType::Block
            } else {
                CollisionType::NoCollision
            },
        }
    }

    /// The board after an attempt to move the falling piece: moved if nothing
    /// is in the way, unchanged otherwise.
    pub open spec fn moved(self, d_row: int, d_col: int) -> BoardView {
        if self.classify(d_row, d_col) == CollisionType::NoCollision {
            BoardView { current: self.current.shifted(d_row, d_col), ..self }
        } else {
            self
        }
    }

    /// Whether the falling piece can turn to its next rotation state: the
    /// turned pattern fits at the anchor and covers no occupied cell.
    pub open spec fn can_rotate(self) -> bool {
        &&& pattern_fits(
            self.width,
            self.height,
            self.current.turned().pattern(),
            self.current.row,
            self.current.col,
        )
        &&& !any_occupied(self.cells, self.current.turned().cells(self.width))
    }

    /// The board after an attempt to turn the falling piece.
    pub open spec fn rotated(self) -> BoardView {
        if self.can_rotate() {
            BoardView { current: self.current.turned(), ..self }
        } else {
            self
        }
    }

    /// The board after the falling piece was committed at `positions`: those
    /// cells carry its shape, the next piece falls, and a piece of shape
    /// `next_shape` waits.
    pub open spec fn committed(self, positions: Seq<usize>, next_shape: u8) -> BoardView {
        BoardView {
            cells: commit_cells(self.cells, positions, self.current.shape),
            current: self.next,
            next: PieceView::spawned(next_shape, self.width),
            ..self
        }
    }

    /// Whether the falling piece covers an occupied cell: the game is over.
    pub open spec fn game_over(self) -> bool {
        any_occupied(self.cells, self.current.cells(self.width))
    }

    /// The board after the falling piece was committed at `positions`, or a
    /// fresh board if the piece that follows has no room.
    pub open spec fn landed(self, positions: Seq<usize>, draws: ShapeDraws) -> BoardView {
        if self.committed(positions, draws.next).game_over() {
            BoardView::fresh(self.width, self.height, draws.reset_current, draws.reset_next)
        } else {
            self.committed(positions, draws.next)
        }
    }

    /// Whether a move by the offset ends the falling piece's life: it is asked
    /// to, and ground or a block is in the way. A wall never does.
    pub open spec fn move_commits(self, d_row: int, d_col: int, commit: bool) -> bool {
        commit && (self.classify(d_row, d_col) == CollisionType::Ground || self.classify(
            d_row,
            d_col,
        ) == CollisionType::Block)
    }

    /// The board after one movement attempt.
    pub open spec fn after_move(
        self,
        d_row: int,
        d_col: int,
        commit: bool,
        draws: ShapeDraws,
    ) -> BoardView {
        if self.move_commits(d_row, d_col, commit) {
            self.landed(self.current.cells(self.width), draws)
        } else {
            self.moved(d_row, d_col)
        }
    }

    /// The board with its full rows cleared.
    pub open spec fn cleared(self) -> BoardView {
        BoardView { cells: settled(self.cells, self.width, self.height), ..self }
    }
}

/// The grid, the falling piece and the piece that follows it.
#[derive(Clone, Debug)]
pub struct Board {
    /// The cells.
    pub grid: Grid,
    /// The piece that follows the falling one.
    pub next_shape: Tetromino,
    /// The falling piece.
    pub current_shape: Tetromino,
}

impl View for Board {
    type V = BoardView;

    open spec fn view(&self) -> BoardView {
        BoardView {
            width: self.grid.width,
            height: self.grid.height,
            cells: self.grid@,
            current: self.current_shape@,
            next: self.next_shape@,
        }
    }
}

impl Board {
    /// The board is well formed as the rules see it, and each piece stores the
    /// cells that its pattern covers from its anchor.
    pub open spec fn wf(&self) -> bool {
        &&& self@.wf()
        &&& self.grid.wf()
        &&& self.current_shape.wf(self.grid.width, self.grid.height)
        &&& self.next_shape.wf(self.grid.width, self.grid.height)
    }

    /// An empty board of the given dimensions with the two given pieces.
    pub fn with_shapes(width: usize, height: usize, current: u8, next: u8) -> (board: Board)
        requires
            valid_dims(width, height),
            current < SHAPE_COUNT,
            next < SHAPE_COUNT,
        ensures
            board.wf(),
            board@ == BoardView::fresh(width, height, current, next),
    {
        let grid = Grid::new(width, height);
        let next_shape = Tetromino::new(next, width, height);
        let current_shape = Tetromino::new(current, width, height);
        let board = Board { grid, next_shape, current_shape };
        proof {
            assert(board@.cells =~= BoardView::fresh(width, height, current, next).cells);
        }
        board
    }

    /// An empty board of the given dimensions with two pieces drawn at random.
    pub fn new(width: usize, height: usize) -> (board: Board)
        requires
            valid_dims(width, height),
        ensures
            board.wf(),
            exists|current: u8, next: u8|
                current < SHAPE_COUNT && next < SHAPE_COUNT && board@ == BoardView::fresh(
                    width,
                    height,
                    current,
                    next,
                ),
    {
        let next = random_shape();
        let current = random_shape();
        Board::with_shapes(width, height, current, next)
    }
    /// What stands in the way of moving the falling piece by the offset. Each
    /// of its four cells in turn is moved and resolved; the first that leaves
    /// the grid decides between ground and wall. If all four stay inside, an
    /// occupied target cell is a block.
    pub fn classify_move(&self, x_offset: i32, y_offset: i32) -> (collision: CollisionType)
        requires
            self.wf(),
        ensures
            collision == self@.classify(y_offset as int, x_offset as int),
    {
        self.resolve_move(x_offset, y_offset).0
    }

    /// Classifies the move of the falling piece by the offset and resolves the
    /// cells it would cover, which count only where nothing is in the way.
    fn resolve_move(&self, x_offset: i32, y_offset: i32) -> (result: (CollisionType, [usize; 4]))
        requires
            self.wf(),
        ensures
            result.0 == self@.classify(y_offset as int, x_offset as int),
            result.0 == CollisionType::NoCollision ==> self@.current.shifted(
                y_offset as int,
                x_offset as int,
            ).wf(self.grid.width, self.grid.height) && result.1@ == self@.current.shifted(
                y_offset as int,
                x_offset as int,
            ).cells(self.grid.width),
    {
        let width: usize = self.grid.width;
        let height: usize = self.grid.height;
        let ghost view = self@;
        let ghost pattern = view.current.pattern();
        let ghost d_row = y_offset as int;
        let ghost d_col = x_offset as int;
        let mut desired_positions: [usize; 4] = [0, 0, 0, 0];
        proof {
            lemma_dims_bounds(width, height);
        }
        let mut i: usize = 0;
        while i < 4
            invariant
                self.wf(),
                self@ == view,
                width == self.grid.width,
                height == self.grid.height,
                pattern == view.current.pattern(),
                d_row == y_offset as int,
                d_col == x_offset as int,
                4 * width <= 0x7fff_ffff,
                4 * height <= 0x7fff_ffff,
                i <= 4,
                view.first_exit(d_row, d_col, 0) == view.first_exit(d_row, d_col, i as int),
                forall|k: int| 0 <= k < i ==> !view.leaves_grid(d_row, d_col, k),
                forall|k: int|
                    0 <= k < i ==> #[trigger] desired_positions@[k] == placed_index(
                        width,
                        pattern,
                        view.current.row + d_row,
                        view.current.col + d_col,
                        k,
                    ),
            decreases 4 - i,
        {
            proof {
                self.current_shape.lemma_cells(width, height, i as int);
            }
            let initial_index: usize = self.current_shape.positions[i];
            let initial_row: usize = row_of(width, height, initial_index);
            let initial_col: usize = col_of(width, height, initial_index);
            let desired_row: i64 = initial_row as i64 + y_offset as i64;
            let desired_col: i64 = initial_col as i64 + x_offset as i64;
            let desired_index: Option<usize> = if -0x8000_0000 <= desired_row
                && desired_row <= 0x7fff_ffff && -0x8000_0000 <= desired_col && desired_col
                <= 0x7fff_ffff {
                index_of(width, height, desired_row as i32, desired_col as i32)
            } else {
                None
            };
            match desired_index {
                Some(index) => {
                    desired_positions[i] = index;
                },
                None => {
                    if desired_row >= height as i64 {
                        return (CollisionType::Ground, desired_positions);
                    } else {
                        return (CollisionType::Wall, desired_positions);
                    }
                },
            }
            i = i + 1;
        }
        proof {
            let target = view.current.shifted(d_row, d_col);
            assert forall|k: int| 0 <= k < 4 implies in_bounds(
                width,
                height,
                #[trigger] placed_row(pattern, target.row, k),
                placed_col(pattern, target.col, k),
            ) by {
                assert(!view.leaves_grid(d_row, d_col, k));
            }
            lemma_shapes_are_pieces(view.current.shape, view.current.rotation);
            lemma_placement_cells(width, height, pattern, target.row, target.col);
        }
        if self.grid.is_any_occupied(&desired_positions) {
            (CollisionType::Block, desired_positions)
        } else {
            (CollisionType::NoCollision, desired_positions)
        }
    }

    /// Moves the falling piece by the offset if nothing is in the way, and says
    /// what was.
    pub fn try_move(&mut self, x_offset: i32, y_offset: i32) -> (collision: CollisionType)
        requires
            old(self).wf(),
        ensures
            final(self).wf(),
            collision == old(self)@.classify(y_offset as int, x_offset as int),
            final(self)@ == old(self)@.moved(y_offset as int, x_offset as int),
    {
        let (collision, desired_positions) = self.resolve_move(x_offset, y_offset);
        if collision == CollisionType::NoCollision {
            proof {
                self.current_shape.lemma_cells(self.grid.width, self.grid.height, 0);
                lemma_dims_bounds(self.grid.width, self.grid.height);
            }
            self.current_shape.positions = desired_positions;
            self.current_shape.pattern_top_left_row = self.current_shape.pattern_top_left_row
                + y_offset;
            self.current_shape.pattern_top_left_col = self.current_shape.pattern_top_left_col
                + x_offset;
        }
        collision
    }

    /// Turns the falling piece to its next rotation state about its anchor,
    /// unless the turned pattern leaves the grid or covers an occupied cell.
    /// Says whether the piece turned.
    pub fn rotate_current_shape(&mut self) -> (rotated: bool)
        requires
            old(self).wf(),
        ensures
            final(self).wf(),
            rotated == old(self)@.can_rotate(),
            final(self)@ == old(self)@.rotated(),
            !rotated ==> final(self).current_shape == old(self).current_shape,
    {
        let rotation_index: u8 = next_rotation(self.current_shape.rotation_pattern_index);
        let patterns = rotation_patterns(self.current_shape.tetromino_type);
        let resolved = pattern_to_positions(
            &patterns[rotation_index as usize],
            self.current_shape.pattern_top_left_row,
            self.current_shape.pattern_top_left_col,
            self.grid.width,
            self.grid.height,
        );
        match resolved {
            Some(desired_positions) => {
                if self.grid.is_any_occupied(&desired_positions) {
                    false
                } else {
                    self.current_shape.positions = desired_positions;
                    self.current_shape.rotation_pattern_index = rotation_index;
                    true
                }
            },
            None => false,
        }
    }

    /// Commits the falling piece at `positions`: marks those cells with its
    /// shape, lets the next piece fall and puts a piece of shape `next_type`
    /// in waiting. Says whether the game is over: whether the piece that now
    /// falls covers an occupied cell.
    pub fn place_tetromino(&mut self, positions: &[usize; 4], next_type: u8) -> (game_over: bool)
        requires
            old(self).wf(),
            forall|k: int| 0 <= k < 4 ==> #[trigger] positions@[k] < old(self)@.cells.len(),
            next_type < SHAPE_COUNT,
        ensures
            final(self).wf(),
            final(self)@ == old(self)@.committed(positions@, next_type),
            game_over == final(self)@.game_over(),
    {
        let ghost before = self@;
        let shape: u8 = self.current_shape.tetromino_type;
        let mut i: usize = 0;
        while i < 4
            invariant
                i <= 4,
                self.grid.wf(),
                self.grid.width == before.width,
                self.grid.height == before.height,
                before.cells.len() == before.width * before.height,
                self.current_shape == old(self).current_shape,
                self.next_shape == old(self).next_shape,
                shape == before.current.shape,
                shape < SHAPE_COUNT,
                forall|k: int| 0 <= k < 4 ==> #[trigger] positions@[k] < before.cells.len(),
                self.grid@ == commit_prefix(before.cells, positions@, shape, i as int),
            decreases 4 - i,
        {
            let index: usize = positions[i];
            self.grid.set_occupied(index, shape);
            i = i + 1;
        }
        assert(self.grid@ =~= commit_cells(before.cells, positions@, shape));
        self.current_shape = self.next_shape;
        self.next_shape = Tetromino::new(next_type, self.grid.width, self.grid.height);
        proof {
            self.current_shape.lemma_cells(self.grid.width, self.grid.height, 0);
            self.current_shape.lemma_cells(self.grid.width, self.grid.height, 1);
            self.current_shape.lemma_cells(self.grid.width, self.grid.height, 2);
            self.current_shape.lemma_cells(self.grid.width, self.grid.height, 3);
        }
        self.grid.is_any_occupied(&self.current_shape.positions)
    }

    /// Commits the falling piece where it is, with a piece of shape
    /// `next_type` put in waiting. Says whether the game is over.
    pub fn add_tetromino_with(&mut self, next_type: u8) -> (game_over: bool)
        requires
            old(self).wf(),
            next_type < SHAPE_COUNT,
        ensures
            final(self).wf(),
            final(self)@ == old(self)@.committed(
                old(self)@.current.cells(old(self)@.width),
                next_type,
            ),
            game_over == final(self)@.game_over(),
    {
        let positions: [usize; 4] = self.current_shape.positions;
        proof {
            self.current_shape.lemma_cells(self.grid.width, self.grid.height, 0);
            self.current_shape.lemma_cells(self.grid.width, self.grid.height, 1);
            self.current_shape.lemma_cells(self.grid.width, self.grid.height, 2);
            self.current_shape.lemma_cells(self.grid.width, self.grid.height, 3);
        }
        self.place_tetromino(&positions, next_type)
    }

    /// Commits the falling piece where it is and draws the piece put in
    /// waiting at random. Says whether the game is over.
    pub fn add_tetromino(&mut self) -> (game_over: bool)
        requires
            old(self).wf(),
        ensures
            final(self).wf(),
            game_over == final(self)@.game_over(),
            exists|next_type: u8|
                next_type < SHAPE_COUNT && final(self)@ == old(self)@.committed(
                    old(self)@.current.cells(old(self)@.width),
                    next_type,
                ),
    {
        let next_type = random_shape();
        self.add_tetromino_with(next_type)
    }

    /// Commits the falling piece at `positions`; if the piece that follows has
    /// no room, the game is over and the board starts afresh with the two
    /// reset shapes of `draws`. Says whether it did.
    pub fn land(&mut self, positions: &[usize; 4], draws: ShapeDraws) -> (reset: bool)
        requires
            old(self).wf(),
            forall|k: int| 0 <= k < 4 ==> #[trigger] positions@[k] < old(self)@.cells.len(),
            draws.valid(),
        ensures
            final(self).wf(),
            final(self)@ == old(self)@.landed(positions@, draws),
            reset == old(self)@.committed(positions@, draws.next).game_over(),
    {
        let game_over = self.place_tetromino(positions, draws.next);
        if game_over {
            *self = Board::with_shapes(
                self.grid.width,
                self.grid.height,
                draws.reset_current,
                draws.reset_next,
            );
        }
        game_over
    }

    /// One movement attempt of the falling piece, with the shapes that chance
    /// supplies given. The piece moves by the offset if nothing is in the way.
    /// If `collision_adds_to_board` is set and ground or a block is in the
    /// way, the piece is committed where it is, and the board starts afresh
    /// if the game is over. In every other case nothing changes.
    pub fn move_current_shape_with(
        &mut self,
        x_offset: i32,
        y_offset: i32,
        collision_adds_to_board: bool,
        draws: ShapeDraws,
    ) -> (collision: CollisionType)
        requires
            old(self).wf(),
            draws.valid(),
        ensures
            final(self).wf(),
            collision == old(self)@.classify(y_offset as int, x_offset as int),
            final(self)@ == old(self)@.after_move(
                y_offset as int,
                x_offset as int,
                collision_adds_to_board,
                draws,
            ),
    {
        let collision = self.try_move(x_offset, y_offset);
        if collision_adds_to_board {
            if collision == CollisionType::Ground || collision == CollisionType::Block {
                let positions: [usize; 4] = self.current_shape.positions;
                proof {
                    self.current_shape.lemma_cells(self.grid.width, self.grid.height, 0);
                    self.current_shape.lemma_cells(self.grid.width, self.grid.height, 1);
                    self.current_shape.lemma_cells(self.grid.width, self.grid.height, 2);
                    self.current_shape.lemma_cells(self.grid.width, self.grid.height, 3);
                }
                self.land(&positions, draws);
            }
        }
        collision
    }

    /// One movement attempt of the falling piece, the shapes drawn at random.
    pub fn move_current_shape(
        &mut self,
        x_offset: i32,
        y_offset: i32,
        collision_adds_to_board: bool,
    ) -> (collision: CollisionType)
        requires
            old(self).wf(),
        ensures
            final(self).wf(),
            collision == old(self)@.classify(y_offset as int, x_offset as int),
            exists|draws: ShapeDraws|
                draws.valid() && final(self)@ == old(self)@.after_move(
                    y_offset as int,
                    x_offset as int,
                    collision_adds_to_board,
                    draws,
                ),
    {
        let draws = ShapeDraws::random();
        self.move_current_shape_with(x_offset, y_offset, collision_adds_to_board, draws)
    }

    /// Clears full rows, the bottommost first, until none is left, and returns
    /// how many were cleared. The pieces stay as they are.
    pub fn clear_lines_if_applicable(&mut self) -> (cleared: usize)
        requires
            old(self).wf(),
        ensures
            final(self).wf(),
            final(self)@ == old(self)@.cleared(),
            cleared == rows_to_clear(old(self)@.cells, old(self)@.width, old(self)@.height),
            occupied_total(final(self)@.cells) == occupied_total(old(self)@.cells) - cleared
                * old(self)@.width,
    {
        self.grid.clear_lines_if_applicable()
    }
}

} // verus!
