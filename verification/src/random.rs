//! The one source of chance: which shape comes next.
use vstd::prelude::*;
use rand::Rng;
use crate::shapes::SHAPE_COUNT;

verus! {

/// Draws a number with `rand::thread_rng().gen_range(0..limit)`. That call
/// returns a value of the half-open range it is given and panics on an empty
/// range, which `limit > 0` rules out. Nothing more is claimed of the value
/// drawn, and nothing of how likely each value is. The generator is seeded by
/// the operating system and gives up only if that fails.
#[verifier::external_body]
pub(crate) fn random_below(limit: u8) -> (drawn: u8)
    requires
        limit > 0,
    ensures
        drawn < limit,
{
    rand::thread_rng().gen_range(0..limit)
}

/// The shapes that chance supplies to one step of the game: the piece that
/// becomes next when a piece is committed, and the two pieces of a fresh board
/// in case the game ends on that step.
#[derive(Clone, Copy, Debug)]
pub struct ShapeDraws {
    /// The shape of the new next piece.
    pub next: u8,
    /// The shape of the current piece after a reset.
    pub reset_current: u8,
    /// The shape of the next piece after a reset.
    pub reset_next: u8,
}

impl ShapeDraws {
    /// Every drawn shape is one of the seven.
    pub open spec fn valid(&self) -> bool {
        &&& self.next < SHAPE_COUNT
        &&& self.reset_current < SHAPE_COUNT
        &&& self.reset_next < SHAPE_COUNT
    }

    /// Draws three shapes at random.
    pub fn random() -> (draws: ShapeDraws)
        ensures
            draws.valid(),
    {
        let reset_next = random_shape();
        let reset_current = random_shape();
        let next = random_shape();
        ShapeDraws { next, reset_current, reset_next }
    }
}

/// Draws one of the seven shapes at random.
pub fn random_shape() -> (shape: u8)
    ensures
        shape < SHAPE_COUNT,
{
    random_below(SHAPE_COUNT)
}

} // verus!
