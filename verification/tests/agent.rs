use std::collections::HashMap;
use tetris::agent::{AiAgent, AiShapeEvaluation, AiWeights};
use tetris::board::Board;
use tetris::random::ShapeDraws;

fn occupied_count(board: &Board) -> usize {
    board.grid.cells.iter().filter(|cell| cell.occupied).count()
}

fn agent_with(weights: [i32; 5], board: Board) -> AiAgent {
    AiAgent { weights: AiWeights { weights }, board }
}

fn draws(next: u8, reset_current: u8, reset_next: u8) -> ShapeDraws {
    ShapeDraws { next, reset_current, reset_next }
}

fn evaluation(score: i64) -> AiShapeEvaluation {
    AiShapeEvaluation { positions: [0, 1, 2, 3], score }
}

#[test]
fn the_default_weights_count_only_the_height() {
    assert_eq!(AiWeights::new().weights, [0, 0, 0, 0, -1]);
}

#[test]
fn a_new_agent_has_the_default_weights_and_an_empty_board() {
    let agent = AiAgent::new(10, 20);
    assert_eq!(agent.weights.weights, [0, 0, 0, 0, -1]);
    assert_eq!(occupied_count(agent.get_board()), 0);
    assert!(agent.board.current_shape.tetromino_type < 7);
    assert!(agent.board.next_shape.tetromino_type < 7);
}

#[test]
fn completing_a_row_scores_the_weight_once() {
    let mut board = Board::with_shapes(10, 20, 3, 0);
    for col in 2..10 {
        board.grid.set_occupied(190 + col, 1);
    }
    let placement = [180, 181, 190, 191];
    let with_weight = agent_with([1, 0, 0, 0, 0], board.clone());
    assert_eq!(with_weight.determine_score_lines_cleared(&placement), 1);
    assert_eq!(with_weight.score_placement(&placement, &mut HashMap::new()), 1);
    let without_weight = agent_with([0, 0, 0, 0, 0], board);
    assert_eq!(without_weight.determine_score_lines_cleared(&placement), 0);
    assert_eq!(without_weight.score_placement(&placement, &mut HashMap::new()), 0);
}

#[test]
fn a_placement_that_completes_no_row_scores_nothing_for_lines() {
    let mut board = Board::with_shapes(10, 20, 3, 0);
    for col in 3..10 {
        board.grid.set_occupied(190 + col, 1);
    }
    let agent = agent_with([9, 0, 0, 0, 0], board);
    assert_eq!(agent.determine_score_lines_cleared(&[180, 181, 190, 191]), 0);
    assert_eq!(agent.determine_score_lines_cleared(&[181, 182, 191, 192]), 0);
    assert_eq!(agent.determine_score_lines_cleared(&[190, 191, 192, 182]), 9);
}

#[test]
fn the_first_and_the_last_column_touch_a_wall() {
    let agent = agent_with([0, 3, 0, 0, 0], Board::with_shapes(10, 20, 3, 0));
    assert_eq!(agent.determine_score_touching_walls(0), 3);
    assert_eq!(agent.determine_score_touching_walls(9), 3);
    assert_eq!(agent.determine_score_touching_walls(190), 3);
    assert_eq!(agent.determine_score_touching_walls(199), 3);
    assert_eq!(agent.determine_score_touching_walls(1), 0);
    assert_eq!(agent.determine_score_touching_walls(198), 0);
    assert_eq!(agent.determine_score_touching_walls(55), 0);
}

#[test]
fn occupied_neighbours_left_right_and_below_count() {
    let mut board = Board::with_shapes(10, 20, 3, 0);
    board.grid.set_occupied(54, 1);
    board.grid.set_occupied(56, 1);
    board.grid.set_occupied(65, 1);
    board.grid.set_occupied(45, 1);
    board.grid.set_occupied(190, 1);
    board.grid.set_occupied(9, 1);
    let agent = agent_with([0, 0, 5, 0, 0], board);
    assert_eq!(agent.determine_score_block_edge(55), 15);
    assert_eq!(agent.determine_score_block_edge(35), 5);
    assert_eq!(agent.determine_score_block_edge(53), 5);
    assert_eq!(agent.determine_score_block_edge(57), 5);
    assert_eq!(agent.determine_score_block_edge(75), 0);
    assert_eq!(agent.determine_score_block_edge(191), 5);
    assert_eq!(agent.determine_score_block_edge(180), 5);
    assert_eq!(agent.determine_score_block_edge(199), 0);
    assert_eq!(agent.determine_score_block_edge(10), 0);
    assert_eq!(agent.determine_score_block_edge(8), 5);
}

#[test]
fn an_occupied_cell_directly_below_counts_as_a_covered_hole() {
    let mut board = Board::with_shapes(10, 20, 3, 0);
    board.grid.set_occupied(65, 1);
    board.grid.set_occupied(199, 1);
    let agent = agent_with([0, 0, 0, 7, 0], board);
    assert_eq!(agent.determine_score_covering_holes(55), 7);
    assert_eq!(agent.determine_score_covering_holes(45), 0);
    assert_eq!(agent.determine_score_covering_holes(64), 0);
    assert_eq!(agent.determine_score_covering_holes(189), 7);
    assert_eq!(agent.determine_score_covering_holes(199), 0);
    assert_eq!(agent.determine_score_covering_holes(190), 0);
}

#[test]
fn the_height_score_is_the_row_times_its_weight() {
    let agent = agent_with([0, 0, 0, 0, -1], Board::with_shapes(10, 20, 3, 0));
    assert_eq!(agent.determine_score_height(0), 0);
    assert_eq!(agent.determine_score_height(9), 0);
    assert_eq!(agent.determine_score_height(10), -1);
    assert_eq!(agent.determine_score_height(199), -19);
    let steep = agent_with([0, 0, 0, 0, i32::MIN], Board::with_shapes(10, 20, 3, 0));
    assert_eq!(steep.determine_score_height(199), -19 * 2147483648);
}

#[test]
fn a_placement_scores_the_sum_of_its_five_features() {
    let mut board = Board::with_shapes(10, 20, 3, 0);
    board.grid.set_occupied(190, 1);
    board.grid.set_occupied(182, 1);
    let agent = agent_with([2, 3, 5, 7, -1], board);
    let placement = [170, 171, 180, 181];
    assert_eq!(agent.determine_cell_score(170), 3 - 17);
    assert_eq!(agent.determine_cell_score(171), -17);
    assert_eq!(agent.determine_cell_score(180), 3 + 5 + 7 - 18);
    assert_eq!(agent.determine_cell_score(181), 5 - 18);
    assert_eq!(agent.score_placement(&placement, &mut HashMap::new()), -47);
}

#[test]
fn a_completed_row_adds_its_weight_to_the_cells() {
    let mut board = Board::with_shapes(10, 20, 3, 0);
    for col in 2..10 {
        board.grid.set_occupied(190 + col, 1);
    }
    let agent = agent_with([100, 3, 5, 7, -1], board);
    let placement = [180, 181, 190, 191];
    let expected = 100 + (3 - 18) + (-18) + (3 - 19) + (5 - 19);
    assert_eq!(agent.score_placement(&placement, &mut HashMap::new()), expected);
}

#[test]
fn cached_cell_scores_give_the_same_placement_scores() {
    let mut board = Board::with_shapes(10, 20, 6, 0);
    board.grid.set_occupied(195, 1);
    board.grid.set_occupied(185, 1);
    board.grid.set_occupied(190, 2);
    let agent = agent_with([4, 3, 5, 7, -2], board);
    let moves = agent.board.get_valid_moves_for_current_shape();
    let evaluations = agent.evaluate_moves(&moves);
    assert_eq!(evaluations.len(), moves.len());
    let mut shared = HashMap::new();
    for (index, positions) in moves.iter().enumerate() {
        assert_eq!(evaluations[index].positions, *positions);
        let fresh = agent.score_placement(positions, &mut HashMap::new());
        assert_eq!(evaluations[index].score, fresh);
        assert_eq!(agent.score_placement(positions, &mut shared), fresh);
    }
    for (cell, score) in shared.iter() {
        assert_eq!(*score, agent.determine_cell_score(*cell));
    }
}

#[test]
fn the_best_evaluation_is_the_first_with_the_greatest_score() {
    let scores = vec![evaluation(-5), evaluation(3), evaluation(3), evaluation(-1)];
    assert_eq!(AiAgent::best_evaluation_index(&scores), 1);
    let negative = vec![evaluation(-5), evaluation(-3), evaluation(-9)];
    assert_eq!(AiAgent::best_evaluation_index(&negative), 1);
    let level = vec![evaluation(-74), evaluation(-74), evaluation(-74)];
    assert_eq!(AiAgent::best_evaluation_index(&level), 0);
    let single = vec![evaluation(0)];
    assert_eq!(AiAgent::best_evaluation_index(&single), 0);
    let rising = vec![evaluation(1), evaluation(2), evaluation(3)];
    assert_eq!(AiAgent::best_evaluation_index(&rising), 2);
}

#[test]
fn with_level_scores_the_agent_takes_the_first_placement() {
    let mut agent = agent_with([0, 0, 0, 0, -1], Board::with_shapes(10, 20, 3, 1));
    assert!(agent.update_with(false, draws(2, 5, 6)));
    assert_eq!(occupied_count(&agent.board), 4);
    for index in [180usize, 181, 190, 191].iter() {
        assert!(agent.board.grid.cells[*index].occupied);
        assert_eq!(agent.board.grid.cells[*index].tetromino_type, 3);
    }
    assert_eq!(agent.board.current_shape.tetromino_type, 1);
    assert_eq!(agent.board.next_shape.tetromino_type, 2);
    assert_eq!(agent.weights.weights, [0, 0, 0, 0, -1]);
}

#[test]
fn the_agent_commits_the_best_placement_and_clears_the_row() {
    let mut board = Board::with_shapes(10, 20, 3, 1);
    for col in 0..8 {
        board.grid.set_occupied(190 + col, 2);
    }
    let mut agent = agent_with([0, 0, 0, 0, 1], board);
    assert!(agent.update_with(false, draws(2, 5, 6)));
    assert_eq!(occupied_count(&agent.board), 8 + 4 - 10);
    assert!(agent.board.grid.cells[198].occupied);
    assert!(agent.board.grid.cells[199].occupied);
    assert_eq!(agent.board.grid.cells[198].tetromino_type, 3);
    assert_eq!(agent.board.grid.find_full_row(), None);
    assert_eq!(agent.board.current_shape.tetromino_type, 1);
}

#[test]
fn the_agent_prefers_a_completed_row_when_its_weight_says_so() {
    let mut board = Board::with_shapes(10, 20, 0, 1);
    for col in 0..9 {
        board.grid.set_occupied(190 + col, 2);
    }
    let mut agent = agent_with([50, 0, 0, 0, -1], board);
    let moves = agent.board.get_valid_moves_for_current_shape();
    let evaluations = agent.evaluate_moves(&moves);
    let best = AiAgent::best_evaluation_index(&evaluations);
    assert_eq!(moves[best], [169, 179, 189, 199]);
    assert_eq!(evaluations[best].score, 50 - (16 + 17 + 18 + 19));
    assert!(agent.update_with(false, draws(2, 5, 6)));
    assert_eq!(occupied_count(&agent.board), 9 + 4 - 10);
    assert!(agent.board.grid.cells[199].occupied);
    assert_eq!(agent.board.grid.cells[199].tetromino_type, 0);
}

#[test]
fn a_paused_agent_does_nothing() {
    let mut agent = agent_with([0, 0, 0, 0, -1], Board::with_shapes(10, 20, 3, 1));
    assert!(!agent.update_with(true, draws(2, 5, 6)));
    assert_eq!(occupied_count(&agent.board), 0);
    assert_eq!(agent.board.current_shape.tetromino_type, 3);
    assert_eq!(agent.board.next_shape.tetromino_type, 1);
    assert!(!agent.update(true));
    assert_eq!(occupied_count(&agent.board), 0);
}

#[test]
fn an_agent_without_a_placement_does_nothing() {
    let mut board = Board::with_shapes(10, 20, 3, 1);
    for col in 0..10 {
        board.grid.set_occupied(10 + col, 2);
    }
    let mut agent = agent_with([0, 0, 0, 0, -1], board);
    assert!(!agent.update_with(false, draws(2, 5, 6)));
    assert_eq!(occupied_count(&agent.board), 10);
    assert_eq!(agent.board.current_shape.tetromino_type, 3);
    assert_eq!(agent.board.grid.find_full_row(), Some(1));
}

#[test]
fn the_agent_starts_afresh_when_the_game_is_over() {
    let mut board = Board::with_shapes(10, 20, 0, 3);
    board.grid.set_occupied(4, 1);
    let mut agent = agent_with([0, 0, 0, 0, -1], board);
    assert!(agent.update_with(false, draws(1, 5, 6)));
    assert_eq!(occupied_count(&agent.board), 0);
    assert_eq!(agent.board.current_shape.tetromino_type, 5);
    assert_eq!(agent.board.next_shape.tetromino_type, 6);
}

#[test]
fn an_agent_left_to_chance_keeps_its_board_in_order() {
    let mut agent = AiAgent::new(10, 20);
    for _ in 0..300 {
        let before = occupied_count(&agent.board);
        let acted = agent.update(false);
        let after = occupied_count(&agent.board);
        assert!(acted);
        assert!(after == 0 || (after <= before + 4 && (before + 4 - after) % 10 == 0));
        assert_eq!(agent.board.grid.find_full_row(), None);
        assert!(agent.board.current_shape.tetromino_type < 7);
        assert!(agent.board.next_shape.tetromino_type < 7);
    }
}

#[test]
fn scoring_a_placement_caches_its_four_cells() {
    let agent = agent_with([4, 3, 5, 7, -2], Board::with_shapes(10, 20, 6, 0));
    let mut cache = HashMap::new();
    cache.insert(7usize, agent.determine_cell_score(7));
    agent.score_placement(&[180, 181, 190, 191], &mut cache);
    let mut keys: Vec<usize> = cache.keys().copied().collect();
    keys.sort();
    assert_eq!(keys, vec![7, 180, 181, 190, 191]);
    agent.score_placement(&[181, 182, 191, 192], &mut cache);
    let mut keys: Vec<usize> = cache.keys().copied().collect();
    keys.sort();
    assert_eq!(keys, vec![7, 180, 181, 182, 190, 191, 192]);
    for (cell, score) in cache.iter() {
        assert_eq!(*score, agent.determine_cell_score(*cell));
    }
}
