//! One recorded turn: who acted, what they did, and what flipped.

use vstd::prelude::*;
use crate::board::Turn;
use crate::player::Action;
use crate::position::Positions;

verus! {

/// A single entry of the game record.
#[derive(Debug, Clone, Copy, PartialEq, Eq, Structural)]
pub struct History {
    pub turn: Turn,
    pub action: Action,
    pub flipped: Positions,
}

impl History {
    pub fn new(turn: Turn, action: Action, flipped: Positions) -> (r: Self)
        ensures
            r.turn == turn,
            r.action == action,
            r.flipped == flipped,
    {
        History { turn, action, flipped }
    }
}

} // verus!
