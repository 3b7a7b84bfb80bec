use tetris::board::Board;
use tetris::player::{AppStatePlayer, PlayerInput};
use tetris::random::ShapeDraws;

fn occupied_count(board: &Board) -> usize {
    board.grid.cells.iter().filter(|cell| cell.occupied).count()
}

fn player_with(board: Board, timer: u64) -> AppStatePlayer {
    AppStatePlayer { board, input_debounce_timer: timer }
}

fn draws() -> ShapeDraws {
    ShapeDraws { next: 2, reset_current: 5, reset_next: 6 }
}

fn keys(left: bool, right: bool, down: bool, rotate: bool) -> PlayerInput {
    PlayerInput { left, right, down, rotate }
}

#[test]
fn a_new_player_starts_on_an_empty_board() {
    let player = AppStatePlayer::new(10, 20, 1234);
    assert_eq!(player.input_debounce_timer, 1234);
    assert_eq!(occupied_count(player.get_board()), 0);
    assert!(player.board.current_shape.tetromino_type < 7);
}

#[test]
fn a_tick_without_input_moves_the_piece_down_one_row() {
    let mut player = player_with(Board::with_shapes(10, 20, 0, 3), 0);
    assert!(!player.update_with(true, 50, keys(false, false, false, false), draws()));
    assert_eq!(player.board.current_shape.positions, [14, 24, 34, 44]);
    assert_eq!(player.input_debounce_timer, 0);
}

#[test]
fn a_frame_without_tick_and_input_changes_nothing() {
    let mut player = player_with(Board::with_shapes(10, 20, 0, 3), 0);
    assert!(!player.update_with(false, 500, keys(false, false, false, false), draws()));
    assert_eq!(player.board.current_shape.positions, [4, 14, 24, 34]);
    assert_eq!(player.input_debounce_timer, 0);
}

#[test]
fn input_is_ignored_until_the_debounce_time_has_passed() {
    let mut player = player_with(Board::with_shapes(10, 20, 0, 3), 1000);
    assert!(!player.update_with(false, 1100, keys(false, true, true, true), draws()));
    assert_eq!(player.board.current_shape.positions, [4, 14, 24, 34]);
    assert_eq!(player.board.current_shape.rotation_pattern_index, 0);
    assert_eq!(player.input_debounce_timer, 1000);
    assert!(!player.update_with(false, 900, keys(false, true, false, false), draws()));
    assert_eq!(player.board.current_shape.positions, [4, 14, 24, 34]);
    assert_eq!(player.input_debounce_timer, 1000);
    assert!(!player.update_with(false, 1101, keys(false, true, false, false), draws()));
    assert_eq!(player.board.current_shape.positions, [5, 15, 25, 35]);
    assert_eq!(player.input_debounce_timer, 1101);
}

#[test]
fn left_and_right_move_one_column() {
    let mut player = player_with(Board::with_shapes(10, 20, 0, 3), 0);
    assert!(!player.update_with(false, 200, keys(true, false, false, false), draws()));
    assert_eq!(player.board.current_shape.positions, [3, 13, 23, 33]);
    assert_eq!(player.input_debounce_timer, 200);
    assert!(!player.update_with(false, 400, keys(false, true, false, false), draws()));
    assert_eq!(player.board.current_shape.positions, [4, 14, 24, 34]);
    assert_eq!(player.input_debounce_timer, 400);
}

#[test]
fn left_and_right_together_cancel_but_are_accepted() {
    let mut player = player_with(Board::with_shapes(10, 20, 0, 3), 0);
    assert!(!player.update_with(false, 200, keys(true, true, false, false), draws()));
    assert_eq!(player.board.current_shape.positions, [4, 14, 24, 34]);
    assert_eq!(player.input_debounce_timer, 200);
}

#[test]
fn down_and_a_tick_together_move_one_row_only() {
    let mut player = player_with(Board::with_shapes(10, 20, 0, 3), 0);
    assert!(!player.update_with(true, 200, keys(false, false, true, false), draws()));
    assert_eq!(player.board.current_shape.positions, [14, 24, 34, 44]);
    assert_eq!(player.input_debounce_timer, 200);
    assert!(!player.update_with(false, 400, keys(false, false, true, false), draws()));
    assert_eq!(player.board.current_shape.positions, [24, 34, 44, 54]);
}

#[test]
fn rotation_does_not_restart_the_debounce_time() {
    let mut player = player_with(Board::with_shapes(10, 20, 0, 3), 0);
    assert!(!player.update_with(false, 200, keys(false, false, false, true), draws()));
    assert_eq!(player.board.current_shape.rotation_pattern_index, 1);
    assert_eq!(player.board.current_shape.positions, [13, 14, 15, 16]);
    assert_eq!(player.input_debounce_timer, 0);
}

#[test]
fn rotation_comes_before_the_movement_of_the_frame() {
    let mut player = player_with(Board::with_shapes(10, 20, 0, 3), 0);
    assert!(!player.update_with(true, 200, keys(false, true, false, true), draws()));
    assert_eq!(player.board.current_shape.rotation_pattern_index, 1);
    assert_eq!(player.board.current_shape.positions, [24, 25, 26, 27]);
    assert_eq!(player.board.current_shape.pattern_top_left_row, 1);
    assert_eq!(player.board.current_shape.pattern_top_left_col, 4);
}

#[test]
fn a_wall_blocks_the_horizontal_move_but_not_the_fall() {
    let mut board = Board::with_shapes(10, 20, 0, 3);
    board.try_move(-4, 0);
    let mut player = player_with(board, 0);
    assert!(!player.update_with(true, 200, keys(true, false, false, false), draws()));
    assert_eq!(player.board.current_shape.positions, [10, 20, 30, 40]);
    assert_eq!(occupied_count(&player.board), 0);
}

#[test]
fn a_piece_on_the_ground_is_committed_on_the_next_tick() {
    let mut board = Board::with_shapes(10, 20, 0, 3);
    board.try_move(0, 16);
    let mut player = player_with(board, 0);
    assert!(player.update_with(true, 50, keys(false, false, false, false), draws()));
    assert_eq!(occupied_count(&player.board), 4);
    assert!(player.board.grid.cells[194].occupied);
    assert_eq!(player.board.current_shape.tetromino_type, 3);
    assert_eq!(player.board.next_shape.tetromino_type, 2);
}

#[test]
fn a_horizontal_move_against_a_block_commits_nothing() {
    let mut board = Board::with_shapes(10, 20, 0, 3);
    board.grid.set_occupied(5, 1);
    let mut player = player_with(board, 0);
    assert!(!player.update_with(false, 200, keys(false, true, false, false), draws()));
    assert_eq!(occupied_count(&player.board), 1);
    assert_eq!(player.board.current_shape.positions, [4, 14, 24, 34]);
    assert_eq!(player.board.current_shape.tetromino_type, 0);
}

#[test]
fn a_committed_piece_that_fills_a_row_clears_it() {
    let mut board = Board::with_shapes(10, 20, 0, 3);
    for col in 0..10 {
        if col != 4 {
            board.grid.set_occupied(190 + col, 1);
        }
    }
    board.grid.set_occupied(180, 6);
    board.try_move(0, 16);
    let mut player = player_with(board, 0);
    assert!(player.update_with(true, 50, keys(false, false, false, false), draws()));
    assert_eq!(occupied_count(&player.board), 10 + 4 - 10);
    assert_eq!(player.board.grid.find_full_row(), None);
    assert_eq!(player.board.grid.cells[190].tetromino_type, 6);
    assert!(player.board.grid.cells[190].occupied);
    assert!(player.board.grid.cells[194].occupied);
    assert!(player.board.grid.cells[174].occupied);
    assert!(!player.board.grid.cells[164].occupied);
}

#[test]
fn full_rows_stay_while_no_piece_is_committed() {
    let mut board = Board::with_shapes(10, 20, 0, 3);
    for col in 0..10 {
        board.grid.set_occupied(190 + col, 1);
    }
    let mut player = player_with(board, 0);
    assert!(!player.update_with(true, 50, keys(false, false, false, false), draws()));
    assert_eq!(occupied_count(&player.board), 10);
    assert_eq!(player.board.grid.find_full_row(), Some(19));
}

#[test]
fn a_commit_that_ends_the_game_gives_a_fresh_board() {
    let mut board = Board::with_shapes(10, 20, 0, 3);
    board.grid.set_occupied(44, 1);
    board.grid.set_occupied(150, 1);
    let mut player = player_with(board, 0);
    assert!(player.update_with(true, 50, keys(false, false, false, false), draws()));
    assert_eq!(occupied_count(&player.board), 0);
    assert_eq!(player.board.current_shape.tetromino_type, 5);
    assert_eq!(player.board.next_shape.tetromino_type, 6);
}

#[test]
fn a_player_left_to_chance_keeps_its_board_in_order() {
    let mut player = AppStatePlayer::new(10, 20, 0);
    let mut now = 0;
    for frame in 0..2000u64 {
        now += 150;
        let input = keys(frame % 3 == 0, frame % 5 == 0, frame % 2 == 0, frame % 7 == 0);
        player.update(frame % 4 == 0, now, input);
        assert!(player.board.current_shape.tetromino_type < 7);
        assert!(player.board.current_shape.rotation_pattern_index < 4);
        for index in player.board.current_shape.positions.iter() {
            assert!(*index < 200);
        }
    }
}
