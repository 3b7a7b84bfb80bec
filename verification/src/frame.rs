//! The frame loop's decisions: when a frame counts as a tick, and which of
//! the two players it drives.
use vstd::prelude::*;
use crate::agent::{after_agent_update, AiAgent};
use crate::board::{Board, BoardView};
use crate::geometry::valid_dims;
use crate::player::{after_player_update, next_debounce_timer, AppStatePlayer, PlayerInput};
use crate::random::ShapeDraws;
use crate::shapes::SHAPE_COUNT;

verus! {

/// Time in milliseconds from one tick to the next.
pub const TICK_MILLIS: u64 = 300;

/// What is sampled from the keyboard in one frame.
#[derive(Clone, Copy, Debug)]
pub struct FrameInput {
    /// The commands of the human player.
    pub player: PlayerInput,
    /// Whether the agent is held back.
    pub pause: bool,
}

/// Who plays: the human player or the agent, each with a board of its own.
#[derive(Clone, Debug)]
pub enum AppState {
    /// The human player.
    Player(AppStatePlayer),
    /// The agent.
    Agent(AiAgent),
}

impl AppState {
    /// The board of whoever plays is well formed.
    pub open spec fn wf(&self) -> bool {
        match self {
            AppState::Player(player) => player.wf(),
            AppState::Agent(agent) => agent.wf(),
        }
    }

    /// The board of whoever plays, as the rules see it.
    pub open spec fn board_view(&self) -> BoardView {
        match self {
            AppState::Player(player) => player.board@,
            AppState::Agent(agent) => agent.board@,
        }
    }

    /// How one frame changes the state: the human player's frame or the
    /// agent's step, with everything else left as it was.
    pub open spec fn updated(
        &self,
        after: AppState,
        is_step: bool,
        cur_time: u64,
        input: FrameInput,
        draws: ShapeDraws,
    ) -> bool {
        match self {
            AppState::Player(player) => after matches AppState::Player(next)
                && next.board@ == after_player_update(
                player.board@,
                player.input_debounce_timer,
                is_step,
                cur_time,
                input.player,
                draws,
            ) && next.input_debounce_timer == next_debounce_timer(
                player.input_debounce_timer,
                cur_time,
                input.player,
            ),
            AppState::Agent(agent) => after matches AppState::Agent(next) && next.weights
                == agent.weights && next.board@ == after_agent_update(
                agent.board@,
                agent.weights,
                input.pause,
                draws,
            ),
        }
    }

    /// The board of whoever plays.
    pub fn get_board(&self) -> (board: &Board)
        ensures
            board@ == self.board_view(),
    {
        match self {
            AppState::Player(player) => player.get_board(),
            AppState::Agent(agent) => agent.get_board(),
        }
    }

    /// One frame of whoever plays, with the shapes that chance supplies given.
    pub fn update_with(
        &mut self,
        is_step_this_frame: bool,
        cur_time: u64,
        input: FrameInput,
        draws: ShapeDraws,
    )
        requires
            old(self).wf(),
            draws.valid(),
        ensures
            final(self).wf(),
            old(self).updated(*final(self), is_step_this_frame, cur_time, input, draws),
    {
        match self {
            AppState::Player(player) => {
                player.update_with(is_step_this_frame, cur_time, input.player, draws);
            },
            AppState::Agent(agent) => {
                agent.update_with(input.pause, draws);
            },
        }
    }
}

/// Whether a frame at `cur_time` counts as a tick.
pub open spec fn is_tick(next_tick_time: u64, cur_time: u64) -> bool {
    cur_time > next_tick_time
}

/// One tick interval after `time`, or the largest time that can be told if
/// that is sooner.
pub open spec fn one_tick_later(time: u64) -> u64 {
    if time + TICK_MILLIS <= u64::MAX {
        (time + TICK_MILLIS) as u64
    } else {
        u64::MAX
    }
}

/// The time after which the next frame counts as a tick: one tick interval
/// later if this frame was a tick, else as before.
pub open spec fn next_tick_after(next_tick_time: u64, cur_time: u64) -> u64 {
    if is_tick(next_tick_time, cur_time) {
        one_tick_later(next_tick_time)
    } else {
        next_tick_time
    }
}

/// One tick interval after `time`, or the largest time that can be told if
/// that is sooner.
pub fn tick_after(time: u64) -> (later: u64)
    ensures
        later == one_tick_later(time),
{
    if time <= u64::MAX - TICK_MILLIS {
        time + TICK_MILLIS
    } else {
        u64::MAX
    }
}

/// The number of frames counted after one more; the count stops at the
/// largest number.
pub open spec fn next_frame_count(frame_count: u64) -> u64 {
    if frame_count < u64::MAX {
        (frame_count + 1) as u64
    } else {
        u64::MAX
    }
}

/// The frame loop's state.
#[derive(Clone, Debug)]
pub struct App {
    /// The time after which a frame counts as a tick, in milliseconds.
    pub next_tick_time: u64,
    /// How many frames have been counted; the count stops at the largest number.
    pub frame_count: u64,
    /// Who plays.
    pub app_state: AppState,
}

impl App {
    /// The state of whoever plays is well formed.
    pub open spec fn wf(&self) -> bool {
        self.app_state.wf()
    }

    /// The frame loop at its start: the agent plays on an empty board with
    /// pieces drawn at random, and the first tick is due one interval from now.
    pub fn new(width: usize, height: usize, cur_time: u64) -> (app: App)
        requires
            valid_dims(width, height),
        ensures
            app.wf(),
            app.next_tick_time == one_tick_later(cur_time),
            app.frame_count == 1,
            app.app_state is Agent,
            exists|current: u8, next: u8|
                current < SHAPE_COUNT && next < SHAPE_COUNT && app.app_state.board_view()
                    == BoardView::fresh(width, height, current, next),
    {
        App {
            next_tick_time: tick_after(cur_time),
            frame_count: 1,
            app_state: AppState::Agent(AiAgent::new(width, height)),
        }
    }

    /// One frame with the shapes that chance supplies given: the frame is
    /// counted, it is a tick if the time is past the next tick time, and
    /// whoever plays takes its turn. Says whether the frame was a tick.
    pub fn update_with(
        &mut self,
        cur_time: u64,
        input: FrameInput,
        draws: ShapeDraws,
    ) -> (is_step_this_frame: bool)
        requires
            old(self).wf(),
            draws.valid(),
        ensures
            final(self).wf(),
            is_step_this_frame == is_tick(old(self).next_tick_time, cur_time),
            final(self).next_tick_time == next_tick_after(old(self).next_tick_time, cur_time),
            final(self).frame_count == next_frame_count(old(self).frame_count),
            old(self).app_state.updated(
                final(self).app_state,
                is_step_this_frame,
                cur_time,
                input,
                draws,
            ),
    {
        if self.frame_count < u64::MAX {
            self.frame_count = self.frame_count + 1;
        }
        let mut is_step_this_frame = false;
        if cur_time > self.next_tick_time {
            self.next_tick_time = tick_after(self.next_tick_time);
            is_step_this_frame = true;
        }
        self.app_state.update_with(is_step_this_frame, cur_time, input, draws);
        is_step_this_frame
    }

    /// One frame, the shapes drawn at random.
    pub fn update(&mut self, cur_time: u64, input: FrameInput) -> (is_step_this_frame: bool)
        requires
            old(self).wf(),
        ensures
            final(self).wf(),
            is_step_this_frame == is_tick(old(self).next_tick_time, cur_time),
            final(self).next_tick_time == next_tick_after(old(self).next_tick_time, cur_time),
            final(self).frame_count == next_frame_count(old(self).frame_count),
            exists|draws: ShapeDraws|
                draws.valid() && old(self).app_state.updated(
                    final(self).app_state,
                    is_step_this_frame,
                    cur_time,
                    input,
                    draws,
                ),
    {
        let draws = ShapeDraws::random();
        self.update_with(cur_time, input, draws)
    }

    /// The board of whoever plays.
    pub fn get_board(&self) -> (board: &Board)
        ensures
            board@ == self.app_state.board_view(),
    {
        self.app_state.get_board()
    }
}

} // verus!
