use tetris::board::{Board, CollisionType};
use tetris::random::{random_shape, ShapeDraws};

fn occupied_count(board: &Board) -> usize {
    board.grid.cells.iter().filter(|cell| cell.occupied).count()
}

fn draws(next: u8, reset_current: u8, reset_next: u8) -> ShapeDraws {
    ShapeDraws { next, reset_current, reset_next }
}

#[test]
fn a_board_with_given_shapes_starts_empty() {
    let board = Board::with_shapes(10, 20, 0, 3);
    assert_eq!(board.grid.width, 10);
    assert_eq!(board.grid.height, 20);
    assert_eq!(occupied_count(&board), 0);
    assert_eq!(board.current_shape.tetromino_type, 0);
    assert_eq!(board.current_shape.positions, [4, 14, 24, 34]);
    assert_eq!(board.next_shape.tetromino_type, 3);
    assert_eq!(board.next_shape.positions, [4, 5, 14, 15]);
    assert_eq!(board.next_shape.rotation_pattern_index, 0);
}

#[test]
fn drawn_shapes_are_among_the_seven() {
    for _ in 0..200 {
        assert!(random_shape() < 7);
        let drawn = ShapeDraws::random();
        assert!(drawn.next < 7);
        assert!(drawn.reset_current < 7);
        assert!(drawn.reset_next < 7);
    }
}

#[test]
fn a_new_board_holds_two_valid_pieces_at_the_spawn_anchor() {
    for _ in 0..50 {
        let board = Board::new(10, 20);
        assert_eq!(occupied_count(&board), 0);
        assert!(board.current_shape.tetromino_type < 7);
        assert!(board.next_shape.tetromino_type < 7);
        assert_eq!(board.current_shape.pattern_top_left_row, 0);
        assert_eq!(board.current_shape.pattern_top_left_col, 3);
        assert_eq!(board.next_shape.pattern_top_left_col, 3);
        assert_eq!(board.current_shape.rotation_pattern_index, 0);
    }
}

#[test]
fn a_free_move_shifts_positions_and_anchor() {
    let mut board = Board::with_shapes(10, 20, 6, 0);
    assert_eq!(board.current_shape.positions, [4, 13, 14, 15]);
    assert_eq!(board.try_move(1, 0), CollisionType::NoCollision);
    assert_eq!(board.current_shape.positions, [5, 14, 15, 16]);
    assert_eq!(board.current_shape.pattern_top_left_col, 4);
    assert_eq!(board.current_shape.pattern_top_left_row, 0);
    assert_eq!(board.try_move(-2, 3), CollisionType::NoCollision);
    assert_eq!(board.current_shape.positions, [33, 42, 43, 44]);
    assert_eq!(board.current_shape.pattern_top_left_col, 2);
    assert_eq!(board.current_shape.pattern_top_left_row, 3);
}

#[test]
fn the_left_and_right_edges_are_walls() {
    let mut board = Board::with_shapes(10, 20, 0, 0);
    for _ in 0..4 {
        assert_eq!(board.try_move(-1, 0), CollisionType::NoCollision);
    }
    assert_eq!(board.current_shape.positions, [0, 10, 20, 30]);
    assert_eq!(board.current_shape.pattern_top_left_col, -1);
    assert_eq!(board.try_move(-1, 0), CollisionType::Wall);
    assert_eq!(board.current_shape.positions, [0, 10, 20, 30]);
    assert_eq!(board.current_shape.pattern_top_left_col, -1);
    assert_eq!(board.try_move(9, 0), CollisionType::NoCollision);
    assert_eq!(board.try_move(1, 0), CollisionType::Wall);
    assert_eq!(board.current_shape.positions, [9, 19, 29, 39]);
}

#[test]
fn the_top_edge_is_a_wall() {
    let mut board = Board::with_shapes(10, 20, 0, 0);
    assert_eq!(board.try_move(0, -1), CollisionType::Wall);
    assert_eq!(board.current_shape.positions, [4, 14, 24, 34]);
}

#[test]
fn the_bottom_edge_is_ground() {
    let mut board = Board::with_shapes(10, 20, 0, 0);
    assert_eq!(board.try_move(0, 16), CollisionType::NoCollision);
    assert_eq!(board.current_shape.positions, [164, 174, 184, 194]);
    assert_eq!(board.try_move(0, 1), CollisionType::Ground);
    assert_eq!(board.current_shape.positions, [164, 174, 184, 194]);
    assert_eq!(board.current_shape.pattern_top_left_row, 16);
}

#[test]
fn the_first_cell_that_leaves_the_grid_decides() {
    let mut board = Board::with_shapes(10, 20, 0, 0);
    assert_eq!(board.try_move(-4, 16), CollisionType::NoCollision);
    assert_eq!(board.current_shape.positions, [160, 170, 180, 190]);
    assert_eq!(board.classify_move(-1, 1), CollisionType::Wall);
    assert_eq!(board.classify_move(0, 1), CollisionType::Ground);
    assert_eq!(board.classify_move(0, 4), CollisionType::Ground);
    assert_eq!(board.classify_move(-1, 4), CollisionType::Ground);
    assert_eq!(board.classify_move(i32::MAX, i32::MAX), CollisionType::Ground);
    assert_eq!(board.classify_move(i32::MIN, i32::MIN), CollisionType::Wall);
}

#[test]
fn an_occupied_target_cell_is_a_block() {
    let mut board = Board::with_shapes(10, 20, 0, 0);
    board.grid.set_occupied(44, 2);
    board.grid.set_occupied(15, 2);
    assert_eq!(board.try_move(0, 1), CollisionType::Block);
    assert_eq!(board.current_shape.positions, [4, 14, 24, 34]);
    assert_eq!(board.try_move(1, 0), CollisionType::Block);
    assert_eq!(board.try_move(-1, 0), CollisionType::NoCollision);
    assert_eq!(board.current_shape.positions, [3, 13, 23, 33]);
}

#[test]
fn a_move_by_nothing_is_free_on_free_cells() {
    let mut board = Board::with_shapes(10, 20, 4, 0);
    let before = board.current_shape.positions;
    assert_eq!(board.try_move(0, 0), CollisionType::NoCollision);
    assert_eq!(board.current_shape.positions, before);
}

#[test]
fn rotation_steps_through_the_four_states() {
    let mut board = Board::with_shapes(10, 20, 6, 0);
    assert_eq!(board.try_move(0, 2), CollisionType::NoCollision);
    assert!(board.rotate_current_shape());
    assert_eq!(board.current_shape.rotation_pattern_index, 1);
    assert_eq!(board.current_shape.positions, [24, 34, 35, 44]);
    assert!(board.rotate_current_shape());
    assert_eq!(board.current_shape.rotation_pattern_index, 2);
    assert_eq!(board.current_shape.positions, [33, 34, 35, 44]);
    assert!(board.rotate_current_shape());
    assert_eq!(board.current_shape.rotation_pattern_index, 3);
    assert_eq!(board.current_shape.positions, [24, 33, 34, 44]);
    assert!(board.rotate_current_shape());
    assert_eq!(board.current_shape.rotation_pattern_index, 0);
    assert_eq!(board.current_shape.positions, [24, 33, 34, 35]);
    assert_eq!(board.current_shape.pattern_top_left_row, 2);
    assert_eq!(board.current_shape.pattern_top_left_col, 3);
}

#[test]
fn rotation_at_the_left_wall_is_rejected() {
    let mut board = Board::with_shapes(10, 20, 0, 0);
    assert_eq!(board.try_move(-4, 0), CollisionType::NoCollision);
    assert_eq!(board.current_shape.pattern_top_left_col, -1);
    let before = board.current_shape;
    assert!(!board.rotate_current_shape());
    assert_eq!(board.current_shape.positions, before.positions);
    assert_eq!(board.current_shape.rotation_pattern_index, before.rotation_pattern_index);
    assert_eq!(board.current_shape.pattern_top_left_row, before.pattern_top_left_row);
    assert_eq!(board.current_shape.pattern_top_left_col, before.pattern_top_left_col);
    assert_eq!(board.current_shape.positions, [0, 10, 20, 30]);
    assert_eq!(board.current_shape.rotation_pattern_index, 0);
}

#[test]
fn rotation_at_the_right_wall_and_the_floor_is_rejected() {
    let mut right = Board::with_shapes(10, 20, 0, 0);
    assert_eq!(right.try_move(5, 0), CollisionType::NoCollision);
    assert!(!right.rotate_current_shape());
    assert_eq!(right.current_shape.positions, [9, 19, 29, 39]);
    let mut floor = Board::with_shapes(10, 20, 0, 0);
    assert!(floor.rotate_current_shape());
    assert_eq!(floor.try_move(0, 18), CollisionType::NoCollision);
    assert_eq!(floor.current_shape.positions, [193, 194, 195, 196]);
    assert!(!floor.rotate_current_shape());
    assert_eq!(floor.current_shape.rotation_pattern_index, 1);
    assert_eq!(floor.current_shape.positions, [193, 194, 195, 196]);
}

#[test]
fn rotation_onto_an_occupied_cell_is_rejected() {
    let mut board = Board::with_shapes(10, 20, 0, 0);
    board.grid.set_occupied(16, 5);
    assert!(!board.rotate_current_shape());
    assert_eq!(board.current_shape.rotation_pattern_index, 0);
    assert_eq!(board.current_shape.positions, [4, 14, 24, 34]);
    board.grid.clear(16);
    assert!(board.rotate_current_shape());
    assert_eq!(board.current_shape.positions, [13, 14, 15, 16]);
}

#[test]
fn committing_marks_four_cells_with_the_shape() {
    let mut board = Board::with_shapes(10, 20, 6, 2);
    assert_eq!(board.try_move(0, 18), CollisionType::NoCollision);
    let positions = board.current_shape.positions;
    assert_eq!(positions, [184, 193, 194, 195]);
    let game_over = board.add_tetromino_with(5);
    assert!(!game_over);
    assert_eq!(occupied_count(&board), 4);
    for index in positions.iter() {
        assert!(board.grid.cells[*index].occupied);
        assert_eq!(board.grid.cells[*index].tetromino_type, 6);
    }
    assert_eq!(board.current_shape.tetromino_type, 2);
    assert_eq!(board.current_shape.positions, [4, 14, 24, 25]);
    assert_eq!(board.next_shape.tetromino_type, 5);
    assert_eq!(board.next_shape.positions, [4, 5, 15, 16]);
}

#[test]
fn committing_at_given_cells_leaves_the_anchor_out_of_it() {
    let mut board = Board::with_shapes(10, 20, 3, 1);
    let game_over = board.place_tetromino(&[188, 189, 198, 199], 0);
    assert!(!game_over);
    assert_eq!(occupied_count(&board), 4);
    assert_eq!(board.grid.cells[199].tetromino_type, 3);
    assert_eq!(board.current_shape.tetromino_type, 1);
    assert_eq!(board.next_shape.tetromino_type, 0);
}

#[test]
fn committing_with_a_random_next_piece_draws_a_valid_shape() {
    for _ in 0..50 {
        let mut board = Board::with_shapes(10, 20, 3, 1);
        assert_eq!(board.try_move(0, 18), CollisionType::NoCollision);
        assert!(!board.add_tetromino());
        assert_eq!(occupied_count(&board), 4);
        assert_eq!(board.current_shape.tetromino_type, 1);
        assert!(board.next_shape.tetromino_type < 7);
        assert_eq!(board.next_shape.pattern_top_left_col, 3);
    }
}

#[test]
fn the_game_is_over_when_the_next_piece_has_no_room() {
    let mut board = Board::with_shapes(10, 20, 0, 3);
    assert!(board.add_tetromino_with(1));
    assert_eq!(board.current_shape.tetromino_type, 3);
    assert_eq!(occupied_count(&board), 4);
}

#[test]
fn landing_resets_the_board_when_the_game_is_over() {
    let mut board = Board::with_shapes(10, 20, 0, 3);
    let positions = board.current_shape.positions;
    assert!(board.land(&positions, draws(1, 5, 6)));
    assert_eq!(occupied_count(&board), 0);
    assert_eq!(board.grid.width, 10);
    assert_eq!(board.grid.height, 20);
    assert_eq!(board.current_shape.tetromino_type, 5);
    assert_eq!(board.next_shape.tetromino_type, 6);
    assert_eq!(board.current_shape.positions, [4, 5, 15, 16]);
}

#[test]
fn landing_keeps_the_board_when_the_game_goes_on() {
    let mut board = Board::with_shapes(10, 20, 0, 3);
    assert!(!board.land(&[160, 170, 180, 190], draws(1, 5, 6)));
    assert_eq!(occupied_count(&board), 4);
    assert_eq!(board.current_shape.tetromino_type, 3);
    assert_eq!(board.next_shape.tetromino_type, 1);
}

#[test]
fn a_vertical_obstruction_commits_the_piece() {
    let mut board = Board::with_shapes(10, 20, 0, 3);
    assert_eq!(board.try_move(0, 16), CollisionType::NoCollision);
    let collision = board.move_current_shape_with(0, 1, true, draws(2, 5, 6));
    assert_eq!(collision, CollisionType::Ground);
    assert_eq!(occupied_count(&board), 4);
    for index in [164, 174, 184, 194].iter() {
        assert_eq!(board.grid.cells[*index].tetromino_type, 0);
        assert!(board.grid.cells[*index].occupied);
    }
    assert_eq!(board.current_shape.tetromino_type, 3);
    assert_eq!(board.next_shape.tetromino_type, 2);
    assert_eq!(board.try_move(0, 14), CollisionType::NoCollision);
    let collision = board.move_current_shape_with(0, 1, true, draws(4, 5, 6));
    assert_eq!(collision, CollisionType::Block);
    assert_eq!(occupied_count(&board), 8);
    assert_eq!(board.grid.cells[154].tetromino_type, 3);
    assert_eq!(board.current_shape.tetromino_type, 2);
    assert_eq!(board.next_shape.tetromino_type, 4);
}

#[test]
fn a_wall_never_commits_the_piece() {
    let mut board = Board::with_shapes(10, 20, 0, 3);
    assert_eq!(board.try_move(-4, 0), CollisionType::NoCollision);
    let collision = board.move_current_shape_with(-1, 0, true, draws(2, 5, 6));
    assert_eq!(collision, CollisionType::Wall);
    assert_eq!(occupied_count(&board), 0);
    assert_eq!(board.current_shape.tetromino_type, 0);
    assert_eq!(board.current_shape.positions, [0, 10, 20, 30]);
}

#[test]
fn without_the_commit_flag_nothing_is_committed() {
    let mut board = Board::with_shapes(10, 20, 0, 3);
    assert_eq!(board.try_move(0, 16), CollisionType::NoCollision);
    let collision = board.move_current_shape_with(0, 1, false, draws(2, 5, 6));
    assert_eq!(collision, CollisionType::Ground);
    assert_eq!(occupied_count(&board), 0);
    assert_eq!(board.current_shape.tetromino_type, 0);
    assert_eq!(board.current_shape.positions, [164, 174, 184, 194]);
}

#[test]
fn a_free_move_with_the_commit_flag_only_moves() {
    let mut board = Board::with_shapes(10, 20, 0, 3);
    let collision = board.move_current_shape_with(0, 1, true, draws(2, 5, 6));
    assert_eq!(collision, CollisionType::NoCollision);
    assert_eq!(occupied_count(&board), 0);
    assert_eq!(board.current_shape.positions, [14, 24, 34, 44]);
}

#[test]
fn a_commit_that_ends_the_game_resets_the_board() {
    let mut board = Board::with_shapes(10, 20, 0, 3);
    board.grid.set_occupied(44, 1);
    board.grid.set_occupied(120, 2);
    let collision = board.move_current_shape_with(0, 1, true, draws(2, 5, 6));
    assert_eq!(collision, CollisionType::Block);
    assert_eq!(occupied_count(&board), 0);
    assert_eq!(board.current_shape.tetromino_type, 5);
    assert_eq!(board.next_shape.tetromino_type, 6);
}

#[test]
fn a_random_move_keeps_the_board_in_order() {
    for _ in 0..50 {
        let mut board = Board::with_shapes(10, 20, 0, 3);
        assert_eq!(board.try_move(0, 16), CollisionType::NoCollision);
        assert_eq!(board.move_current_shape(0, 1, true), CollisionType::Ground);
        assert_eq!(occupied_count(&board), 4);
        assert_eq!(board.current_shape.tetromino_type, 3);
        assert!(board.next_shape.tetromino_type < 7);
    }
}

#[test]
fn a_commit_without_a_full_row_adds_four_cells() {
    let mut board = Board::with_shapes(10, 20, 1, 3);
    board.grid.set_occupied(199, 0);
    board.grid.set_occupied(190, 0);
    let before = occupied_count(&board);
    assert_eq!(board.try_move(0, 17), CollisionType::NoCollision);
    assert_eq!(board.move_current_shape_with(0, 1, true, draws(2, 5, 6)), CollisionType::Ground);
    let cleared = board.clear_lines_if_applicable();
    assert_eq!(cleared, 0);
    assert_eq!(occupied_count(&board), before + 4);
}

#[test]
fn a_commit_that_fills_rows_adds_four_cells_and_takes_a_width_per_row() {
    let mut board = Board::with_shapes(10, 20, 0, 3);
    for row in 16..20 {
        for col in 0..9 {
            board.grid.set_occupied(row * 10 + col, 1);
        }
    }
    let before = occupied_count(&board);
    assert_eq!(before, 36);
    assert_eq!(board.try_move(5, 16), CollisionType::NoCollision);
    assert_eq!(board.current_shape.positions, [169, 179, 189, 199]);
    assert_eq!(board.move_current_shape_with(0, 1, true, draws(2, 5, 6)), CollisionType::Ground);
    assert_eq!(occupied_count(&board), before + 4);
    let cleared = board.clear_lines_if_applicable();
    assert_eq!(cleared, 4);
    assert_eq!(occupied_count(&board), before + 4 - 10 * cleared);
    assert_eq!(occupied_count(&board), 0);
}

#[test]
fn on_a_grid_four_wide_a_cleared_row_takes_four_cells() {
    let mut board = Board::with_shapes(4, 8, 0, 3);
    for col in [0usize, 2, 3].iter() {
        board.grid.set_occupied(28 + col, 1);
    }
    board.grid.set_occupied(24, 2);
    let before = occupied_count(&board);
    assert_eq!(board.current_shape.positions, [1, 5, 9, 13]);
    assert_eq!(board.try_move(0, 4), CollisionType::NoCollision);
    assert_eq!(board.move_current_shape_with(0, 1, true, draws(2, 5, 6)), CollisionType::Ground);
    let cleared = board.clear_lines_if_applicable();
    assert_eq!(cleared, 1);
    assert_eq!(occupied_count(&board), before + 4 - 4 * cleared);
    assert!(board.grid.cells[28].occupied);
    assert_eq!(board.grid.cells[28].tetromino_type, 2);
    assert_eq!(board.grid.cells[29].tetromino_type, 0);
}
