//! The rule-aware wrapper around `Board` that the surrounding program
//! talks to: it validates moves and passes, keeps the game record, and
//! passes the turn on automatically when a side is stuck.

use vstd::prelude::*;
use crate::board::{Board, Turn, start_board};
use crate::history::History;
use crate::player::Action;
use crate::position::{Position, Positions};

verus! {

/// The color found at a cell.
#[derive(Debug, Clone, Copy, PartialEq, Eq, Structural)]
pub enum Color {
    Black,
    White,
    Empty,
}

/// A validated game: the raw board, the record of every action taken,
/// and whose input is awaited (`None` once the game is over).
pub struct UiBoard {
    board: Board,
    history: Vec<History>,
    whatnow: Option<Turn>,
}

impl Default for UiBoard {
    /// A fresh game.
    fn default() -> (r: Self)
        ensures
            r.wf(),
            r.raw_spec() == start_board(),
    {
        Self::new()
    }
}

impl UiBoard {
    /// The raw board inside.
    pub closed spec fn raw_spec(self) -> Board {
        self.board
    }

    /// The recorded actions, oldest first.
    pub closed spec fn history_spec(self) -> Seq<History> {
        self.history@
    }

    /// Whose input is awaited.
    pub closed spec fn whatnow_spec(self) -> Option<Turn> {
        self.whatnow
    }

    /// The side to move, or nothing once the game is over.
    pub open spec fn turn_spec(self) -> Option<Turn> {
        if self.raw_spec().game_over_spec() {
            None
        } else {
            Some(self.raw_spec().turn)
        }
    }

    /// The wrapper invariant: the board is well formed and the awaited
    /// side is exactly the side to move of a game still running.
    pub open spec fn wf(self) -> bool {
        self.raw_spec().wf() && self.whatnow_spec() == self.turn_spec()
    }

    /// Starts a fresh game.
    pub fn new() -> (r: Self)
        ensures
            r.wf(),
            r.raw_spec() == start_board(),
            r.history_spec() == Seq::<History>::empty(),
    {
        let board = Board::new();
        let whatnow = if board.is_game_over() {
            None
        } else {
            Some(board.turn)
        };
        UiBoard { board, history: Vec::new(), whatnow }
    }

    /// Places a stone for the side to move: refused once the game is
    /// over, refused at a cell that flips nothing, and otherwise recorded
    /// and applied, handing the turn on (with an automatic recorded pass
    /// when the other side is stuck).
    pub fn put_stone(&mut self, pos: Position) -> (r: Result<&Self, &'static str>)
        requires
            old(self).wf(),
            pos.wf(),
        ensures
            final(self).wf(),
            ({
                let b = old(self).raw_spec();
                if b.game_over_spec() {
                    (r matches Err(m) && m@ == "Game over"@) && final(self).raw_spec() == b
                        && final(self).history_spec() == old(self).history_spec()
                } else if b.flips_spec(pos.spec_bits()) != 0 {
                    r is Ok && final(self).raw_spec() == settle_spec(
                        b.place_spec(pos.spec_bits()),
                    ) && move_record_ok(
                        old(self).history_spec(),
                        final(self).history_spec(),
                        b,
                        pos,
                    )
                } else {
                    (r matches Err(m) && m@ == "Invalid move"@) && final(self).raw_spec() == b
                        && final(self).history_spec() == old(self).history_spec()
                }
            }),
    {
        if self.board.is_game_over() {
            return Err("Game over");
        }
        if self.is_legal_move(pos) {
            let rev = self.board.reversible_stones(pos.as_bits());
            self.history.push(
                History {
                    turn: self.board.turn,
                    action: Action::Move(pos),
                    flipped: Positions::new(rev),
                },
            );
            let ghost mid = self.history@;
            self.board.put_stone(pos.as_bits());
            self.update_satus();
            proof {
                let h0 = old(self).history_spec();
                if self.history@.len() == mid.len() + 1 {
                    assert(self.history@.take(mid.len() as int)[h0.len() as int]
                        == self.history@[h0.len() as int]);
                    assert(self.history@[h0.len() as int] == mid[h0.len() as int]);
                }
                assert(self.history@.take(h0.len() as int) =~= h0);
            }
            Ok(self)
        } else {
            Err("Invalid move")
        }
    }

    /// Passes for the side to move: refused once the game is over,
    /// refused while a legal move exists, and otherwise recorded and
    /// applied.
    pub fn pass(&mut self) -> (r: Result<&Self, &'static str>)
        requires
            old(self).wf(),
        ensures
            final(self).wf(),
            ({
                let b = old(self).raw_spec();
                if b.game_over_spec() {
                    (r matches Err(m) && m@ == "Game over"@) && final(self).raw_spec() == b
                        && final(self).history_spec() == old(self).history_spec()
                } else if b.legal_of() == 0 {
                    r is Ok && final(self).raw_spec() == settle_spec(b.pass_spec())
                        && pass_record_ok(
                        old(self).history_spec(),
                        final(self).history_spec(),
                        b,
                    )
                } else {
                    (r matches Err(m) && m@ == "Can't pass"@) && final(self).raw_spec() == b
                        && final(self).history_spec() == old(self).history_spec()
                }
            }),
    {
        if self.board.is_game_over() {
            return Err("Game over");
        }
        if self.board.legal_moves() == 0 {
            self.history.push(
                History { turn: self.board.turn, action: Action::Pass, flipped: Positions::empty() },
            );
            self.board.pass();
            self.update_satus();
            proof {
                let h0 = old(self).history_spec();
                assert(self.history@.take(h0.len() as int) =~= h0);
            }
            Ok(self)
        } else {
            Err("Can't pass")
        }
    }

    /// After a transition: record and apply a forced pass when the new
    /// side to move is stuck in a game still running, and refresh whose
    /// input is awaited.
    fn update_satus(&mut self)
        requires
            old(self).board.wf(),
        ensures
            final(self).board == settle_spec(old(self).board),
            final(self).wf(),
            ({
                let b = old(self).board;
                let h0 = old(self).history@;
                let h1 = final(self).history@;
                if !b.game_over_spec() && b.legal_of() == 0 {
                    h1.len() == h0.len() + 1 && h1.take(h0.len() as int) == h0 && entry_is_pass(
                        h1.last(),
                        b.turn,
                    )
                } else {
                    h1 == h0
                }
            }),
    {
        if self.board.is_game_over() {
            self.whatnow = None;
            proof {
                assert(self.history@.take(self.history@.len() as int) =~= self.history@);
            }
            return ;
        }
        if self.board.legal_moves() == 0 {
            self.history.push(
                History { turn: self.board.turn, action: Action::Pass, flipped: Positions::empty() },
            );
            self.board.pass();
            proof {
                assert(old(self).history@.push(
                    History {
                        turn: old(self).board.turn,
                        action: Action::Pass,
                        flipped: self.history@.last().flipped,
                    },
                ).take(old(self).history@.len() as int) =~= old(self).history@);
            }
        }
        self.whatnow = Some(self.board.turn);
        proof {
            if self.history@.len() == old(self).history@.len() {
                assert(self.history@.take(self.history@.len() as int) =~= self.history@);
            }
        }
    }

    /// The raw board, for read-only callers such as the search robot.
    pub fn raw_board(&self) -> (r: &Board)
        ensures
            *r == self.raw_spec(),
    {
        &self.board
    }

    pub fn count_black(&self) -> (r: u32)
        ensures
            r == crate::bits::count_bits(self.raw_spec().black),
    {
        self.board.count_black()
    }

    pub fn count_white(&self) -> (r: u32)
        ensures
            r == crate::bits::count_bits(self.raw_spec().white),
    {
        self.board.count_white()
    }

    /// What occupies the cell at `pos`.
    pub fn color_at(&self, pos: Position) -> (r: Color)
        ensures
            r == color_at_spec(self.raw_spec(), pos.spec_bits()),
    {
        if self.is_black_at(pos.as_bits()) {
            Color::Black
        } else if self.is_white_at(pos.as_bits()) {
            Color::White
        } else {
            Color::Empty
        }
    }

    /// Whose input is awaited: the side to move, or nothing once the
    /// game is over.
    pub fn whatnow(&self) -> (r: Option<Turn>)
        requires
            self.wf(),
        ensures
            r == self.turn_spec(),
    {
        self.whatnow
    }

    pub fn is_game_over(&self) -> (r: bool)
        requires
            self.wf(),
        ensures
            r == self.raw_spec().game_over_spec(),
    {
        self.board.is_game_over()
    }

    /// A cell is a legal move exactly when playing there flips a stone.
    pub fn is_legal_move(&self, pos: Position) -> (r: bool)
        ensures
            r == (self.raw_spec().flips_spec(pos.spec_bits()) != 0),
    {
        self.board.is_legal_move(pos.as_bits())
    }

    /// The legal destinations of the side to move.
    pub fn legal_moves(&self) -> (r: Positions)
        requires
            self.wf(),
        ensures
            r.spec_bits() == self.raw_spec().legal_of(),
    {
        Positions::new(self.board.legal_moves())
    }

    /// The stones the side to move would flip by playing at `pos`.
    pub fn reversible_stones(&self, pos: Position) -> (r: Positions)
        ensures
            r.spec_bits() == self.raw_spec().flips_spec(pos.spec_bits()),
    {
        Positions::new(self.board.reversible_stones(pos.as_bits()))
    }

    /// The side to move, or nothing once the game is over.
    pub fn turn(&self) -> (r: Option<Turn>)
        requires
            self.wf(),
        ensures
            r == self.turn_spec(),
    {
        if self.is_game_over() {
            None
        } else {
            Some(self.board.turn)
        }
    }

    pub fn is_black_turn(&self) -> (r: bool)
        ensures
            r == (self.raw_spec().turn == Turn::Black),
    {
        self.board.is_black_turn()
    }

    /// The most recent recorded action of `turn`, if any.
    pub fn last_action(&self, turn: Turn) -> (r: Option<Action>)
        ensures
            r == last_action_spec(self.history_spec(), turn),
    {
        let mut i = self.history.len();
        proof {
            assert(self.history@.take(i as int) =~= self.history@);
        }
        while i > 0
            invariant
                i <= self.history@.len(),
                last_action_spec(self.history@, turn) == last_action_spec(
                    self.history@.take(i as int),
                    turn,
                ),
            decreases i,
        {
            i = i - 1;
            proof {
                assert(self.history@.take(i as int + 1).last() == self.history@[i as int]);
                assert(self.history@.take(i as int + 1).drop_last() =~= self.history@.take(
                    i as int,
                ));
            }
            if self.history[i].turn == turn {
                return Some(self.history[i].action);
            }
        }
        proof {
            assert(self.history@.take(0) =~= Seq::<History>::empty());
        }
        None
    }

    fn is_black_at(&self, pos: u64) -> (r: bool)
        ensures
            r == (self.board.black & pos != 0),
    {
        self.board.black & pos != 0
    }

    fn is_white_at(&self, pos: u64) -> (r: bool)
        ensures
            r == (self.board.white & pos != 0),
    {
        self.board.white & pos != 0
    }
}

/// What occupies the cell `pos` of `b`.
pub open spec fn color_at_spec(b: Board, pos: u64) -> Color {
    if b.black & pos != 0 {
        Color::Black
    } else if b.white & pos != 0 {
        Color::White
    } else {
        Color::Empty
    }
}

/// A position settles after a transition: a running game whose side to
/// move is stuck passes on, everything else stands.
pub open spec fn settle_spec(b: Board) -> Board {
    if b.game_over_spec() {
        b
    } else if b.legal_of() == 0 {
        b.pass_spec()
    } else {
        b
    }
}

/// `e` records that `t` moved at `pos`, flipping `flips`.
pub open spec fn entry_is_move(e: History, t: Turn, pos: Position, flips: u64) -> bool {
    e.turn == t && e.action == Action::Move(pos) && e.flipped.spec_bits() == flips
}

/// `e` records that `t` passed.
pub open spec fn entry_is_pass(e: History, t: Turn) -> bool {
    e.turn == t && e.action == Action::Pass && e.flipped.spec_bits() == 0
}

/// The record grows by the move of `b`'s side at `pos`, followed by the
/// forced pass of the other side when it is stuck in a running game.
pub open spec fn move_record_ok(h0: Seq<History>, h1: Seq<History>, b: Board, pos: Position) -> bool {
    let b1 = b.place_spec(pos.spec_bits());
    let auto_pass = !b1.game_over_spec() && b1.legal_of() == 0;
    if auto_pass {
        h1.len() == h0.len() + 2 && h1.take(h0.len() as int) == h0 && entry_is_move(
            h1[h0.len() as int],
            b.turn,
            pos,
            b.flips_spec(pos.spec_bits()),
        ) && entry_is_pass(h1[h0.len() as int + 1], b1.turn)
    } else {
        h1.len() == h0.len() + 1 && h1.take(h0.len() as int) == h0 && entry_is_move(
            h1.last(),
            b.turn,
            pos,
            b.flips_spec(pos.spec_bits()),
        )
    }
}

/// The record grows by the pass of `b`'s side, followed by the forced
/// pass of the other side when it is stuck in a running game.
pub open spec fn pass_record_ok(h0: Seq<History>, h1: Seq<History>, b: Board) -> bool {
    let b1 = b.pass_spec();
    let auto_pass = !b1.game_over_spec() && b1.legal_of() == 0;
    if auto_pass {
        h1.len() == h0.len() + 2 && h1.take(h0.len() as int) == h0 && entry_is_pass(
            h1[h0.len() as int],
            b.turn,
        ) && entry_is_pass(h1[h0.len() as int + 1], b1.turn)
    } else {
        h1.len() == h0.len() + 1 && h1.take(h0.len() as int) == h0 && entry_is_pass(
            h1.last(),
            b.turn,
        )
    }
}

/// The most recent action of `t` in the record `h`.
pub open spec fn last_action_spec(h: Seq<History>, t: Turn) -> Option<Action>
    decreases h.len(),
{
    if h.len() == 0 {
        None
    } else if h.last().turn == t {
        Some(h.last().action)
    } else {
        last_action_spec(h.drop_last(), t)
    }
}

} // verus!
