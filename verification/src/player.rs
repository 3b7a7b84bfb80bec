//! The human player: how one frame of input turns into movement attempts.
use vstd::prelude::*;
use crate::board::{Board, BoardView, CollisionType};
use crate::geometry::valid_dims;
use crate::random::ShapeDraws;
use crate::shapes::SHAPE_COUNT;

verus! {

/// Time in milliseconds that must pass after an accepted directional input
/// before input is looked at again.
pub const DEBOUNCE_MILLIS: u64 = 100;

/// The commands held down or pressed in one frame.
#[derive(Clone, Copy, Debug)]
pub struct PlayerInput {
    /// Move one column to the left.
    pub left: bool,
    /// Move one column to the right.
    pub right: bool,
    /// Move one row down.
    pub down: bool,
    /// Turn to the next rotation state.
    pub rotate: bool,
}

/// Whether input is looked at: more than the debounce time has passed since
/// the last accepted directional input.
pub open spec fn input_ready(timer: u64, cur_time: u64) -> bool {
    cur_time - timer > DEBOUNCE_MILLIS
}

/// The horizontal offset asked for in a frame.
pub open spec fn horizontal_offset(ready: bool, input: PlayerInput) -> int {
    if ready {
        (if input.right {
            1int
        } else {
            0int
        }) - (if input.left {
            1int
        } else {
            0int
        })
    } else {
        0
    }
}

/// The vertical offset of a frame: one row if the frame is a tick or a
/// down command is accepted, and never more than one.
pub open spec fn vertical_offset(is_step: bool, ready: bool, input: PlayerInput) -> int {
    if is_step || (ready && input.down) {
        1
    } else {
        0
    }
}

/// The debounce timer after a frame: the present time if a directional
/// input was accepted, else as before.
pub open spec fn next_debounce_timer(timer: u64, cur_time: u64, input: PlayerInput) -> u64 {
    if input_ready(timer, cur_time) && (input.right || input.left || input.down) {
        cur_time
    } else {
        timer
    }
}

/// The board after the rotation and the horizontal movement of a frame.
/// Neither ever commits the piece.
pub open spec fn after_player_steering(
    board: BoardView,
    ready: bool,
    input: PlayerInput,
) -> BoardView {
    let turned = if ready && input.rotate {
        board.rotated()
    } else {
        board
    };
    turned.moved(0, horizontal_offset(ready, input))
}

/// The board after one frame of the human player: first the rotation, if
/// asked for, then the horizontal movement, which never commits the piece,
/// then the vertical movement, which commits it on ground or on a block, and
/// after a commit the clearing of full rows.
pub open spec fn after_player_update(
    board: BoardView,
    timer: u64,
    is_step: bool,
    cur_time: u64,
    input: PlayerInput,
    draws: ShapeDraws,
) -> BoardView {
    let ready = input_ready(timer, cur_time);
    let steered = after_player_steering(board, ready, input);
    let d_row = vertical_offset(is_step, ready, input);
    if steered.move_commits(d_row, 0, true) {
        steered.after_move(d_row, 0, true, draws).cleared()
    } else {
        steered.after_move(d_row, 0, true, draws)
    }
}

/// The human player and its board.
#[derive(Clone, Debug)]
pub struct AppStatePlayer {
    /// The board played on.
    pub board: Board,
    /// When a directional input was last accepted, in milliseconds.
    pub input_debounce_timer: u64,
}

impl AppStatePlayer {
    /// The player's board is well formed.
    pub open spec fn wf(&self) -> bool {
        self.board.wf()
    }

    /// A player on an empty board with pieces drawn at random, the debounce
    /// timer set to the present time.
    pub fn new(width: usize, height: usize, cur_time: u64) -> (player: AppStatePlayer)
        requires
            valid_dims(width, height),
        ensures
            player.wf(),
            player.input_debounce_timer == cur_time,
            exists|current: u8, next: u8|
                current < SHAPE_COUNT && next < SHAPE_COUNT && player.board@ == BoardView::fresh(
                    width,
                    height,
                    current,
                    next,
                ),
    {
        let board = Board::new(width, height);
        AppStatePlayer { board, input_debounce_timer: cur_time }
    }

    /// The board played on.
    pub fn get_board(&self) -> (board: &Board)
        ensures
            *board == self.board,
    {
        &self.board
    }

    /// One frame of the human player with the shapes that chance supplies
    /// given. Input is looked at only if more than the debounce time has
    /// passed since a directional input was last accepted. Says whether the
    /// falling piece was committed.
    pub fn update_with(
        &mut self,
        is_step_this_frame: bool,
        cur_time: u64,
        input: PlayerInput,
        draws: ShapeDraws,
    ) -> (committed: bool)
        requires
            old(self).wf(),
            draws.valid(),
        ensures
            final(self).wf(),
            final(self).board@ == after_player_update(
                old(self).board@,
                old(self).input_debounce_timer,
                is_step_this_frame,
                cur_time,
                input,
                draws,
            ),
            final(self).input_debounce_timer == next_debounce_timer(
                old(self).input_debounce_timer,
                cur_time,
                input,
            ),
            committed == after_player_steering(
                old(self).board@,
                input_ready(old(self).input_debounce_timer, cur_time),
                input,
            ).move_commits(
                vertical_offset(
                    is_step_this_frame,
                    input_ready(old(self).input_debounce_timer, cur_time),
                    input,
                ),
                0,
                true,
            ),
    {
        let mut x_offset: i32 = 0;
        let mut y_offset: i32 = 0;
        if is_step_this_frame {
            y_offset = y_offset + 1;
        }
        if cur_time > self.input_debounce_timer && cur_time - self.input_debounce_timer
            > DEBOUNCE_MILLIS {
            if input.right {
                self.input_debounce_timer = cur_time;
                x_offset = x_offset + 1;
            }
            if input.left {
                self.input_debounce_timer = cur_time;
                x_offset = x_offset - 1;
            }
            if input.down {
                self.input_debounce_timer = cur_time;
                y_offset = y_offset + 1;
            }
            if input.rotate {
                self.board.rotate_current_shape();
            }
        }
        if y_offset == 2 {
            y_offset = 1;
        }
        self.board.move_current_shape_with(x_offset, 0, false, draws);
        let collision = self.board.move_current_shape_with(0, y_offset, true, draws);
        let committed = collision == CollisionType::Ground || collision == CollisionType::Block;
        if committed {
            self.board.clear_lines_if_applicable();
        }
        committed
    }

    /// One frame of the human player, the shapes drawn at random.
    pub fn update(
        &mut self,
        is_step_this_frame: bool,
        cur_time: u64,
        input: PlayerInput,
    ) -> (committed: bool)
        requires
            old(self).wf(),
        ensures
            final(self).wf(),
            final(self).input_debounce_timer == next_debounce_timer(
                old(self).input_debounce_timer,
                cur_time,
                input,
            ),
            committed == after_player_steering(
                old(self).board@,
                input_ready(old(self).input_debounce_timer, cur_time),
                input,
            ).move_commits(
                vertical_offset(
                    is_step_this_frame,
                    input_ready(old(self).input_debounce_timer, cur_time),
                    input,
                ),
                0,
                true,
            ),
            exists|draws: ShapeDraws|
                draws.valid() && final(self).board@ == after_player_update(
                    old(self).board@,
                    old(self).input_debounce_timer,
                    is_step_this_frame,
                    cur_time,
                    input,
                    draws,
                ),
    {
        let draws = ShapeDraws::random();
        self.update_with(is_step_this_frame, cur_time, input, draws)
    }
}

} // verus!
