//! The automated player: a linear heuristic over five features of a
//! placement, and the choice of the best-scoring resting placement.
use vstd::prelude::*;
use std::collections::HashMap;
use crate::board::{Board, BoardView};
use crate::geometry::{
    cell_index, col_at, col_of, in_bounds, index_of, lemma_dims_bounds,
    lemma_position_round_trip, row_at, row_of, valid_dims,
};
use crate::grid::{completes_row, covers};
use crate::random::ShapeDraws;
use crate::search::valid_moves;
use crate::shapes::SHAPE_COUNT;
use crate::tetromino::cells_inside;

verus! {

broadcast use vstd::std_specs::hash::group_hash_axioms;

/// Place of the weight for completing a row.
pub const AI_WEIGHT_TYPE_LINES_CLEARED: usize = 0;

/// Place of the weight for a cell in the first or last column.
pub const AI_WEIGHT_TYPE_TOUCHING_WALL_EDGE: usize = 1;

/// Place of the weight for an occupied neighbour of a cell.
pub const AI_WEIGHT_TYPE_TOUCHING_BLOCK_EDGE: usize = 2;

/// Place of the weight for an occupied cell directly below a cell.
pub const AI_WEIGHT_TYPE_COVERING_HOLE: usize = 3;

/// Place of the weight for the row of a cell.
pub const AI_WEIGHT_TYPE_HEIGHT: usize = 4;

/// Number of weights.
pub const AI_WEIGHT_COUNT: usize = 5;

/// The coefficients of the heuristic, one per feature.
#[derive(Clone, Copy, Debug)]
pub struct AiWeights {
    /// The coefficients, each at the place its constant names.
    pub weights: [i32; 5],
}

impl AiWeights {
    /// The coefficient at place `kind`.
    pub open spec fn weight(&self, kind: usize) -> int {
        self.weights@[kind as int] as int
    }

    /// The default coefficients: only the row of a cell counts, with -1.
    pub fn new() -> (weights: AiWeights)
        ensures
            weights.weights@ == seq![0i32, 0i32, 0i32, 0i32, -1i32],
    {
        let weights: [i32; 5] = [0, 0, 0, 0, -1];
        AiWeights { weights }
    }
}

/// A candidate placement together with its score.
#[derive(Clone, Copy, Debug)]
pub struct AiShapeEvaluation {
    /// The four cells of the placement.
    pub positions: [usize; 4],
    /// Its score.
    pub score: i64,
}

/// Whether `(row, col)` is a cell of the grid and occupied.
pub open spec fn occupied_cell(
    cells: Seq<Option<u8>>,
    width: usize,
    height: usize,
    row: int,
    col: int,
) -> bool {
    in_bounds(width, height, row, col) && cells[cell_index(width, row, col)] is Some
}

/// 1 if the cell lies in the first or the last column, else 0.
pub open spec fn wall_contact(width: usize, index: int) -> int {
    if col_at(width, index) == 0 || col_at(width, index) == width - 1 {
        1
    } else {
        0
    }
}

/// How many of the cell's neighbours to the left, to the right and below are
/// cells of the grid and occupied.
pub open spec fn block_contact(
    cells: Seq<Option<u8>>,
    width: usize,
    height: usize,
    index: int,
) -> int {
    let row = row_at(width, index);
    let col = col_at(width, index);
    (if occupied_cell(cells, width, height, row, col + 1) {
        1int
    } else {
        0int
    }) + (if occupied_cell(cells, width, height, row, col - 1) {
        1int
    } else {
        0int
    }) + (if occupied_cell(cells, width, height, row + 1, col) {
        1int
    } else {
        0int
    })
}

/// 1 if the cell directly below is a cell of the grid and occupied, else 0.
pub open spec fn hole_cover(
    cells: Seq<Option<u8>>,
    width: usize,
    height: usize,
    index: int,
) -> int {
    if occupied_cell(cells, width, height, row_at(width, index) + 1, col_at(width, index)) {
        1
    } else {
        0
    }
}

/// 1 if occupying the four `positions` would complete a row, else 0.
pub open spec fn lines_cleared(cells: Seq<Option<u8>>, width: usize, positions: Seq<usize>) -> int {
    if completes_row(cells, width, positions) {
        1
    } else {
        0
    }
}

/// What one cell of a placement contributes to its score: wall contact,
/// block contact, hole cover and row, each times its weight.
pub open spec fn cell_score(board: BoardView, weights: AiWeights, index: int) -> int {
    wall_contact(board.width, index) * weights.weight(AI_WEIGHT_TYPE_TOUCHING_WALL_EDGE)
        + block_contact(board.cells, board.width, board.height, index) * weights.weight(
        AI_WEIGHT_TYPE_TOUCHING_BLOCK_EDGE,
    ) + hole_cover(board.cells, board.width, board.height, index) * weights.weight(
        AI_WEIGHT_TYPE_COVERING_HOLE,
    ) + row_at(board.width, index) * weights.weight(AI_WEIGHT_TYPE_HEIGHT)
}

/// The contributions of the first `n` cells of a placement.
pub open spec fn cells_score(
    board: BoardView,
    weights: AiWeights,
    positions: Seq<usize>,
    n: int,
) -> int
    decreases n,
{
    if n <= 0 {
        0
    } else {
        cells_score(board, weights, positions, n - 1) + cell_score(
            board,
            weights,
            positions[n - 1] as int,
        )
    }
}

/// The score of a placement: the weight for a completed row, if it completes
/// one, and the contributions of its four cells.
pub open spec fn placement_score(
    board: BoardView,
    weights: AiWeights,
    positions: Seq<usize>,
) -> int {
    lines_cleared(board.cells, board.width, positions) * weights.weight(
        AI_WEIGHT_TYPE_LINES_CLEARED,
    ) + cells_score(board, weights, positions, 4)
}

/// The largest absolute value of one cell's contribution.
pub open spec fn cell_score_limit() -> int {
    0x1000_0002_8000_0000
}

/// A cell's contribution is bounded, and so is each of its four parts.
pub proof fn lemma_cell_score_bound(board: BoardView, weights: AiWeights, index: int)
    requires
        valid_dims(board.width, board.height),
        0 <= index < board.width * board.height,
    ensures
        -cell_score_limit() <= cell_score(board, weights, index) <= cell_score_limit(),
        -0x8000_0000 <= wall_contact(board.width, index) * weights.weight(
            AI_WEIGHT_TYPE_TOUCHING_WALL_EDGE,
        ) <= 0x8000_0000,
        -0x1_8000_0000 <= block_contact(board.cells, board.width, board.height, index)
            * weights.weight(AI_WEIGHT_TYPE_TOUCHING_BLOCK_EDGE) <= 0x1_8000_0000,
        -0x8000_0000 <= hole_cover(board.cells, board.width, board.height, index)
            * weights.weight(AI_WEIGHT_TYPE_COVERING_HOLE) <= 0x8000_0000,
        -0x1000_0000_0000_0000 <= row_at(board.width, index) * weights.weight(
            AI_WEIGHT_TYPE_HEIGHT,
        ) <= 0x1000_0000_0000_0000,
{
    lemma_dims_bounds(board.width, board.height);
    lemma_position_round_trip(board.width, board.height, index);
    let row = row_at(board.width, index);
    let w = weights.weight(AI_WEIGHT_TYPE_HEIGHT);
    assert(-0x1000_0000_0000_0000 <= row * w <= 0x1000_0000_0000_0000) by (nonlinear_arith)
        requires
            0 <= row < 0x2000_0000,
            -0x8000_0000 <= w <= 0x8000_0000,
    ;
    let b = block_contact(board.cells, board.width, board.height, index);
    let wb = weights.weight(AI_WEIGHT_TYPE_TOUCHING_BLOCK_EDGE);
    assert(-0x1_8000_0000 <= b * wb <= 0x1_8000_0000) by (nonlinear_arith)
        requires
            0 <= b <= 3,
            -0x8000_0000 <= wb <= 0x8000_0000,
    ;
    let a = wall_contact(board.width, index);
    let wa = weights.weight(AI_WEIGHT_TYPE_TOUCHING_WALL_EDGE);
    assert(-0x8000_0000 <= a * wa <= 0x8000_0000) by (nonlinear_arith)
        requires
            0 <= a <= 1,
            -0x8000_0000 <= wa <= 0x8000_0000,
    ;
    let h = hole_cover(board.cells, board.width, board.height, index);
    let wh = weights.weight(AI_WEIGHT_TYPE_COVERING_HOLE);
    assert(-0x8000_0000 <= h * wh <= 0x8000_0000) by (nonlinear_arith)
        requires
            0 <= h <= 1,
            -0x8000_0000 <= wh <= 0x8000_0000,
    ;
}

/// The contributions of the first `n` cells of a placement are bounded.
pub proof fn lemma_cells_score_bound(
    board: BoardView,
    weights: AiWeights,
    positions: Seq<usize>,
    n: int,
)
    requires
        valid_dims(board.width, board.height),
        0 <= n <= 4,
        positions.len() == 4,
        forall|k: int| 0 <= k < 4 ==> #[trigger] positions[k] < board.width * board.height,
    ensures
        -n * cell_score_limit() <= cells_score(board, weights, positions, n) <= n
            * cell_score_limit(),
    decreases n,
{
    if n > 0 {
        lemma_cells_score_bound(board, weights, positions, n - 1);
        lemma_cell_score_bound(board, weights, positions[n - 1] as int);
    }
}

/// The scores of a list of evaluations.
pub open spec fn scores_of(evaluations: Seq<AiShapeEvaluation>) -> Seq<int> {
    Seq::new(evaluations.len(), |i: int| evaluations[i].score as int)
}

/// The first place among the first `n` scores that holds their greatest value.
pub open spec fn first_best(scores: Seq<int>, n: int) -> int
    decreases n,
{
    if n <= 1 {
        0
    } else {
        let best = first_best(scores, n - 1);
        if scores[n - 1] > scores[best] {
            n - 1
        } else {
            best
        }
    }
}

/// `first_best` names a greatest score, and no earlier place holds as much.
pub proof fn lemma_first_best(scores: Seq<int>, n: int)
    requires
        1 <= n <= scores.len(),
    ensures
        0 <= first_best(scores, n) < n,
        forall|j: int| 0 <= j < n ==> #[trigger] scores[j] <= scores[first_best(scores, n)],
        forall|j: int|
            0 <= j < first_best(scores, n) ==> #[trigger] scores[j] < scores[first_best(scores, n)],
    decreases n,
{
    if n > 1 {
        lemma_first_best(scores, n - 1);
    }
}

/// The scores of the placements in `moves`.
pub open spec fn move_scores(board: BoardView, weights: AiWeights, moves: Seq<Seq<usize>>) -> Seq<
    int,
> {
    Seq::new(moves.len(), |i: int| placement_score(board, weights, moves[i]))
}

/// The placement that the agent chooses: among the resting placements of the
/// falling piece the one with the greatest score, the first of them if several
/// score alike. Nothing if the piece has no resting placement.
pub open spec fn chosen_move(board: BoardView, weights: AiWeights) -> Option<Seq<usize>> {
    let moves = valid_moves(board);
    if moves.len() == 0 {
        None
    } else {
        Some(moves[first_best(move_scores(board, weights, moves), moves.len() as int)])
    }
}

/// The chosen placement is one of the resting placements, none of them scores
/// more, and none before it scores as much.
pub proof fn lemma_chosen_move_is_best(board: BoardView, weights: AiWeights)
    requires
        valid_moves(board).len() > 0,
    ensures
        chosen_move(board, weights) is Some,
        exists|i: int|
            {
                &&& 0 <= i < valid_moves(board).len()
                &&& chosen_move(board, weights) == Some(#[trigger] valid_moves(board)[i])
                &&& forall|j: int|
                    0 <= j < valid_moves(board).len() ==> placement_score(
                        board,
                        weights,
                        #[trigger] valid_moves(board)[j],
                    ) <= placement_score(board, weights, valid_moves(board)[i])
                &&& forall|j: int|
                    0 <= j < i ==> placement_score(
                        board,
                        weights,
                        #[trigger] valid_moves(board)[j],
                    ) < placement_score(board, weights, valid_moves(board)[i])
            },
{
    let moves = valid_moves(board);
    let scores = move_scores(board, weights, moves);
    lemma_first_best(scores, scores.len() as int);
    let i = first_best(scores, scores.len() as int);
    assert(chosen_move(board, weights) == Some(moves[i]));
    assert forall|j: int| 0 <= j < moves.len() implies placement_score(
        board,
        weights,
        #[trigger] moves[j],
    ) <= placement_score(board, weights, moves[i]) by {
        assert(scores[j] <= scores[i]);
    }
    assert forall|j: int| 0 <= j < i implies placement_score(board, weights, #[trigger] moves[j])
        < placement_score(board, weights, moves[i]) by {
        assert(scores[j] < scores[i]);
    }
}

/// The board after one step of the agent. While paused, or with no resting
/// placement to choose from, nothing happens. Otherwise the falling piece is
/// committed at the chosen placement, the board starts afresh if the game is
/// over, and full rows are cleared.
pub open spec fn after_agent_update(
    board: BoardView,
    weights: AiWeights,
    paused: bool,
    draws: ShapeDraws,
) -> BoardView {
    match chosen_move(board, weights) {
        Some(positions) => if paused {
            board
        } else {
            board.landed(positions, draws).cleared()
        },
        None => board,
    }
}

/// Whether every cached score is the contribution of its cell.
pub open spec fn cache_valid(cache: Map<usize, i64>, board: BoardView, weights: AiWeights) -> bool {
    forall|index: usize| #[trigger]
        cache.contains_key(index) ==> index < board.width * board.height && cache[index]
            == cell_score(board, weights, index as int)
}

/// The automated player and its board.
#[derive(Clone, Debug)]
pub struct AiAgent {
    /// The coefficients of the heuristic.
    pub weights: AiWeights,
    /// The board it plays on.
    pub board: Board,
}

impl AiAgent {
    /// The agent's board is well formed.
    pub open spec fn wf(&self) -> bool {
        self.board.wf()
    }

    /// An agent with the default weights on an empty board with pieces drawn
    /// at random.
    pub fn new(width: usize, height: usize) -> (agent: AiAgent)
        requires
            valid_dims(width, height),
        ensures
            agent.wf(),
            agent.weights.weights@ == seq![0i32, 0i32, 0i32, 0i32, -1i32],
            exists|current: u8, next: u8|
                current < SHAPE_COUNT && next < SHAPE_COUNT
                    && agent.board@ == BoardView::fresh(width, height, current, next),
    {
        let weights = AiWeights::new();
        let board = Board::new(width, height);
        AiAgent { weights, board }
    }

    /// The weight for completing a row if the placement completes one, else 0.
    pub fn determine_score_lines_cleared(&self, positions: &[usize; 4]) -> (score: i64)
        requires
            self.wf(),
            forall|k: int| 0 <= k < 4 ==> #[trigger] positions@[k] < self.board@.cells.len(),
        ensures
            score == lines_cleared(self.board@.cells, self.board@.width, positions@)
                * self.weights.weight(AI_WEIGHT_TYPE_LINES_CLEARED),
    {
        if self.board.grid.would_clear_line(positions) {
            return self.weights.weights[AI_WEIGHT_TYPE_LINES_CLEARED] as i64;
        }
        0
    }

    /// The weight for touching a wall if the cell lies in the first or the
    /// last column, else 0.
    pub fn determine_score_touching_walls(&self, grid_index: usize) -> (score: i64)
        requires
            self.wf(),
            grid_index < self.board@.cells.len(),
        ensures
            score == wall_contact(self.board@.width, grid_index as int) * self.weights.weight(
                AI_WEIGHT_TYPE_TOUCHING_WALL_EDGE,
            ),
    {
        let col = col_of(self.board.grid.width, self.board.grid.height, grid_index);
        if col == 0 || col == self.board.grid.width - 1 {
            return self.weights.weights[AI_WEIGHT_TYPE_TOUCHING_WALL_EDGE] as i64;
        }
        0
    }

    /// The weight for touching a block, once for each occupied neighbour of
    /// the cell to the left, to the right and below.
    pub fn determine_score_block_edge(&self, grid_index: usize) -> (score: i64)
        requires
            self.wf(),
            grid_index < self.board@.cells.len(),
        ensures
            score == block_contact(
                self.board@.cells,
                self.board@.width,
                self.board@.height,
                grid_index as int,
            ) * self.weights.weight(AI_WEIGHT_TYPE_TOUCHING_BLOCK_EDGE),
    {
        let width: usize = self.board.grid.width;
        let height: usize = self.board.grid.height;
        proof {
            lemma_dims_bounds(width, height);
        }
        let mut edge_count: i64 = 0;
        let row: i32 = row_of(width, height, grid_index) as i32;
        let col: i32 = col_of(width, height, grid_index) as i32;
        let cell_to_right = index_of(width, height, row, col + 1);
        let cell_to_left = index_of(width, height, row, col - 1);
        let cell_to_bottom = index_of(width, height, row + 1, col);
        match cell_to_right {
            Some(index) => {
                if self.board.grid.is_occupied(index) {
                    edge_count = edge_count + 1;
                }
            },
            None => {},
        }
        match cell_to_left {
            Some(index) => {
                if self.board.grid.is_occupied(index) {
                    edge_count = edge_count + 1;
                }
            },
            None => {},
        }
        match cell_to_bottom {
            Some(index) => {
                if self.board.grid.is_occupied(index) {
                    edge_count = edge_count + 1;
                }
            },
            None => {},
        }
        let weight: i64 = self.weights.weights[AI_WEIGHT_TYPE_TOUCHING_BLOCK_EDGE] as i64;
        assert(-0x1_8000_0000 <= edge_count * weight <= 0x1_8000_0000) by (nonlinear_arith)
            requires
                0 <= edge_count <= 3,
                -0x8000_0000 <= weight <= 0x8000_0000,
        ;
        edge_count * weight
    }

    /// The weight for covering a hole if the cell directly below is occupied,
    /// else 0. A cell in the last row has no cell below.
    pub fn determine_score_covering_holes(&self, grid_index: usize) -> (score: i64)
        requires
            self.wf(),
            grid_index < self.board@.cells.len(),
        ensures
            score == hole_cover(
                self.board@.cells,
                self.board@.width,
                self.board@.height,
                grid_index as int,
            ) * self.weights.weight(AI_WEIGHT_TYPE_COVERING_HOLE),
    {
        let width: usize = self.board.grid.width;
        let height: usize = self.board.grid.height;
        proof {
            lemma_dims_bounds(width, height);
        }
        let row: i32 = row_of(width, height, grid_index) as i32;
        let col: i32 = col_of(width, height, grid_index) as i32;
        match index_of(width, height, row + 1, col) {
            Some(below) => {
                if self.board.grid.is_occupied(below) {
                    return self.weights.weights[AI_WEIGHT_TYPE_COVERING_HOLE] as i64;
                }
            },
            None => {},
        }
        0
    }

    /// The row of the cell times the weight for height.
    pub fn determine_score_height(&self, grid_index: usize) -> (score: i64)
        requires
            self.wf(),
            grid_index < self.board@.cells.len(),
        ensures
            score == row_at(self.board@.width, grid_index as int) * self.weights.weight(
                AI_WEIGHT_TYPE_HEIGHT,
            ),
    {
        let row: i64 = row_of(self.board.grid.width, self.board.grid.height, grid_index) as i64;
        let weight: i64 = self.weights.weights[AI_WEIGHT_TYPE_HEIGHT] as i64;
        proof {
            lemma_cell_score_bound(self.board@, self.weights, grid_index as int);
        }
        row * weight
    }

    /// What one cell contributes to the score of a placement.
    pub fn determine_cell_score(&self, grid_index: usize) -> (score: i64)
        requires
            self.wf(),
            grid_index < self.board@.cells.len(),
        ensures
            score == cell_score(self.board@, self.weights, grid_index as int),
    {
        proof {
            lemma_cell_score_bound(self.board@, self.weights, grid_index as int);
        }
        let walls = self.determine_score_touching_walls(grid_index);
        let edges = self.determine_score_block_edge(grid_index);
        let holes = self.determine_score_covering_holes(grid_index);
        let height = self.determine_score_height(grid_index);
        walls + edges + holes + height
    }

    /// The score of a placement. The contribution of a cell is taken from
    /// `cell_scores` if it is there; else it is computed and put there, so
    /// that afterwards `cell_scores` holds what it held and the four cells
    /// of the placement.
    pub fn score_placement(
        &self,
        positions: &[usize; 4],
        cell_scores: &mut HashMap<usize, i64>,
    ) -> (score: i64)
        requires
            self.wf(),
            forall|k: int| 0 <= k < 4 ==> #[trigger] positions@[k] < self.board@.cells.len(),
            cache_valid(old(cell_scores)@, self.board@, self.weights),
        ensures
            score == placement_score(self.board@, self.weights, positions@),
            cache_valid(final(cell_scores)@, self.board@, self.weights),
            forall|index: usize| #[trigger]
                final(cell_scores)@.contains_key(index) <==> old(cell_scores)@.contains_key(index)
                    || covers(positions@, index as int),
    {
        let ghost cached_before = cell_scores@;
        let mut score: i64 = self.determine_score_lines_cleared(positions);
        let mut j: usize = 0;
        while j < 4
            invariant
                self.wf(),
                j <= 4,
                forall|k: int| 0 <= k < 4 ==> #[trigger] positions@[k] < self.board@.cells.len(),
                cache_valid(cell_scores@, self.board@, self.weights),
                forall|index: usize| #[trigger]
                    cell_scores@.contains_key(index) <==> cached_before.contains_key(index) || (
                    exists|k: int| 0 <= k < j && positions@[k] == index),
                score == lines_cleared(self.board@.cells, self.board@.width, positions@)
                    * self.weights.weight(AI_WEIGHT_TYPE_LINES_CLEARED) + cells_score(
                    self.board@,
                    self.weights,
                    positions@,
                    j as int,
                ),
            decreases 4 - j,
        {
            let grid_index: usize = positions[j];
            proof {
                lemma_cells_score_bound(self.board@, self.weights, positions@, j as int);
                lemma_cell_score_bound(self.board@, self.weights, grid_index as int);
            }
            let cached: Option<i64> = match cell_scores.get(&grid_index) {
                Some(value) => Some(*value),
                None => None,
            };
            match cached {
                Some(value) => {
                    score = score + value;
                },
                None => {
                    let value = self.determine_cell_score(grid_index);
                    cell_scores.insert(grid_index, value);
                    score = score + value;
                },
            }
            j = j + 1;
        }
        score
    }

    /// Scores every placement of `moves`, in order.
    pub fn evaluate_moves(&self, moves: &Vec<[usize; 4]>) -> (evaluations: Vec<AiShapeEvaluation>)
        requires
            self.wf(),
            forall|i: int|
                0 <= i < moves@.len() ==> cells_inside(
                    (#[trigger] moves@[i])@,
                    self.board@.cells.len() as int,
                ),
        ensures
            evaluations@.len() == moves@.len(),
            forall|i: int|
                0 <= i < moves@.len() ==> (#[trigger] evaluations@[i]).positions == moves@[i]
                    && evaluations@[i].score == placement_score(
                    self.board@,
                    self.weights,
                    moves@[i]@,
                ),
    {
        let mut evaluations: Vec<AiShapeEvaluation> = Vec::new();
        let mut cell_scores: HashMap<usize, i64> = HashMap::new();
        let mut i: usize = 0;
        while i < moves.len()
            invariant
                self.wf(),
                i <= moves@.len(),
                evaluations@.len() == i,
                cache_valid(cell_scores@, self.board@, self.weights),
                forall|i: int|
                    0 <= i < moves@.len() ==> cells_inside(
                        (#[trigger] moves@[i])@,
                        self.board@.cells.len() as int,
                    ),
                forall|n: int|
                    0 <= n < i ==> (#[trigger] evaluations@[n]).positions == moves@[n]
                        && evaluations@[n].score == placement_score(
                        self.board@,
                        self.weights,
                        moves@[n]@,
                    ),
            decreases moves@.len() - i,
        {
            let positions: [usize; 4] = moves[i];
            let score = self.score_placement(&positions, &mut cell_scores);
            evaluations.push(AiShapeEvaluation { positions, score });
            i = i + 1;
        }
        evaluations
    }

    /// The place of the evaluation with the greatest score; of several with
    /// that score, the first.
    pub fn best_evaluation_index(evaluations: &Vec<AiShapeEvaluation>) -> (best: usize)
        requires
            evaluations@.len() > 0,
        ensures
            best == first_best(scores_of(evaluations@), evaluations@.len() as int),
            best < evaluations@.len(),
            forall|j: int|
                0 <= j < evaluations@.len() ==> (#[trigger] evaluations@[j]).score
                    <= evaluations@[best as int].score,
            forall|j: int|
                0 <= j < best ==> (#[trigger] evaluations@[j]).score
                    < evaluations@[best as int].score,
    {
        let mut best: usize = 0;
        let mut i: usize = 1;
        while i < evaluations.len()
            invariant
                1 <= i <= evaluations@.len(),
                best < i,
                best == first_best(scores_of(evaluations@), i as int),
            decreases evaluations@.len() - i,
        {
            if evaluations[i].score > evaluations[best].score {
                best = i;
            }
            i = i + 1;
        }
        proof {
            let scores = scores_of(evaluations@);
            lemma_first_best(scores, scores.len() as int);
            assert forall|j: int| 0 <= j < evaluations@.len() implies (#[trigger] evaluations@[j])
                .score <= evaluations@[best as int].score by {
                assert(scores[j] <= scores[best as int]);
            }
            assert forall|j: int| 0 <= j < best implies (#[trigger] evaluations@[j]).score
                < evaluations@[best as int].score by {
                assert(scores[j] < scores[best as int]);
            }
        }
        best
    }

    /// One step of the agent with the shapes that chance supplies given. While
    /// paused, or if the falling piece has no resting placement, nothing
    /// happens. Otherwise the piece is committed at the best-scoring resting
    /// placement, the board starts afresh if the game is over, and full rows
    /// are cleared. Says whether a piece was committed.
    pub fn update_with(&mut self, paused: bool, draws: ShapeDraws) -> (acted: bool)
        requires
            old(self).wf(),
            draws.valid(),
        ensures
            final(self).wf(),
            final(self).weights == old(self).weights,
            final(self).board@ == after_agent_update(
                old(self).board@,
                old(self).weights,
                paused,
                draws,
            ),
            acted == (!paused && chosen_move(old(self).board@, old(self).weights) is Some),
    {
        if paused {
            return false;
        }
        let candidates = self.board.get_valid_moves_for_current_shape();
        if candidates.len() == 0 {
            return false;
        }
        let evaluations = self.evaluate_moves(&candidates);
        let best_valid_move_index = Self::best_evaluation_index(&evaluations);
        let positions: [usize; 4] = candidates[best_valid_move_index];
        proof {
            let board = self.board@;
            let moves = valid_moves(board);
            assert(scores_of(evaluations@) =~= move_scores(board, self.weights, moves));
        }
        self.board.land(&positions, draws);
        self.board.clear_lines_if_applicable();
        true
    }

    /// One step of the agent, the shapes drawn at random.
    pub fn update(&mut self, paused: bool) -> (acted: bool)
        requires
            old(self).wf(),
        ensures
            final(self).wf(),
            final(self).weights == old(self).weights,
            acted == (!paused && chosen_move(old(self).board@, old(self).weights) is Some),
            exists|draws: ShapeDraws|
                draws.valid() && final(self).board@ == after_agent_update(
                    old(self).board@,
                    old(self).weights,
                    paused,
                    draws,
                ),
    {
        let draws = ShapeDraws::random();
        self.update_with(paused, draws)
    }

    /// The board the agent plays on.
    pub fn get_board(&self) -> (board: &Board)
        ensures
            *board == self.board,
    {
        &self.board
    }
}

} // verus!
