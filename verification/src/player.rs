//! The move choosers: a random robot and a search-driven robot.
//!
//! Both implement the `Player` capability; an interactive chooser can be
//! added by the surrounding program, since reading input is not this
//! library's business.

use vstd::prelude::*;
use crate::bits;
use crate::bits::{low_bit, move_list, single_bit};
use crate::bitboard;
use crate::board::Board;
use crate::minimax;
use crate::minimax::minimax_spec;
use crate::position::Position;
use crate::ui_board::UiBoard;

verus! {

/// What a player wants to do with its turn.
#[derive(Debug, Clone, Copy, PartialEq, Eq, Structural)]
pub enum Action {
    Move(Position),
    Pass,
    GiveUp,
}

/// An action that respects the rules at `b`: a pass only when no move is
/// left, a move only at a cell that flips something.  Giving up is always
/// allowed.
pub open spec fn action_fits(b: Board, a: Action) -> bool {
    match a {
        Action::Move(p) => p.wf() && b.flips_spec(p.spec_bits()) != 0,
        Action::Pass => b.legal_of() == 0,
        Action::GiveUp => true,
    }
}

/// A move chooser.
pub trait Player {
    fn action(&mut self, board: &UiBoard) -> (r: Action)
        requires
            board.wf(),
        ensures
            action_fits(board.raw_spec(), r),
    ;
}

/// Chooses a uniformly random legal move.
pub struct RobotPlayer {}

/// Chooses the move with the best alpha-beta score.
pub struct CleverRobotPlayer {}

impl Default for RobotPlayer {
    fn default() -> Self {
        Self::new()
    }
}

impl Default for CleverRobotPlayer {
    fn default() -> Self {
        Self::new()
    }
}

impl RobotPlayer {
    pub fn new() -> Self {
        RobotPlayer {  }
    }
}

impl CleverRobotPlayer {
    pub fn new() -> Self {
        CleverRobotPlayer {  }
    }
}

/// Relies on rand::random: draws a value of the distribution of `T`;
/// nothing is promised of the outcome.
pub assume_specification<T>[ rand::random::<T> ]() -> (r: T)
    where
        rand::distributions::Standard: rand::distributions::Distribution<T>,
;

impl RobotPlayer {
    /// Picks one of the legal moves at random, or passes when there is
    /// none; it never gives up, and the move taken is always legal.
    pub fn choose_action(&self, board: &UiBoard) -> (r: Action)
        requires
            board.wf(),
        ensures
            action_fits(board.raw_spec(), r),
            (r is Pass) <==> board.raw_spec().legal_of() == 0,
            board.raw_spec().legal_of() != 0 ==> (r matches Action::Move(p)
                && board.raw_spec().legal_of() & p.spec_bits() == p.spec_bits()),
    {
        let raw = *board.raw_board();
        let vec = board.raw_board().legal_moves_as_vec();

        if vec.is_empty() {
            proof {
                if raw.legal_of() != 0 {
                    assert(move_list(raw.legal_of()).len() >= 1);
                }
            }
            Action::Pass
        } else {
            let rnd: usize = rand::random();
            let mov = vec[rnd % vec.len()];
            proof {
                let legal = raw.legal_of();
                let j = (rnd % vec.len()) as int;
                bits::lemma_move_list_props(legal);
                assert(single_bit(mov) && legal & mov == mov);
                crate::board::lemma_own_opp_occupied(raw);
                bitboard::lemma_legal_matches_reversible(raw.own_mask(), raw.opp_mask(), mov);
                assert(legal & mov != 0);
                bits::lemma_count_zero(legal);
            }
            Action::Move(Position::new(mov))
        }
    }
}

impl Player for RobotPlayer {
    fn action(&mut self, board: &UiBoard) -> (r: Action) {
        self.choose_action(board)
    }
}

/// The move with the best score, first one winning ties: the moves of
/// `ms` are tried in order against the running best `(bm, bs)`, and only
/// a strictly better score replaces the incumbent.
pub open spec fn best_from(b: Board, ms: Seq<u64>, depth: int, bm: u64, bs: int) -> (u64, int)
    decreases ms.len(),
{
    if ms.len() == 0 {
        (bm, bs)
    } else {
        let s = minimax_spec(b.place_spec(ms[0]), b.turn, depth);
        if s > bs {
            best_from(b, ms.drop_first(), depth, ms[0], s)
        } else {
            best_from(b, ms.drop_first(), depth, bm, bs)
        }
    }
}

/// The depth the search robot uses: full width near the endgame, five
/// plies otherwise.
pub open spec fn search_depth(holes: int) -> int {
    if holes <= 14 {
        14
    } else {
        5
    }
}

impl CleverRobotPlayer {
    /// Scores every legal move by `minimax` and takes the best, the
    /// first-seen move winning ties; passes when there is no move.
    pub fn choose_action(&self, board: &UiBoard) -> (r: Action)
        requires
            board.wf(),
        ensures
            action_fits(board.raw_spec(), r),
            ({
                let b = board.raw_spec();
                let depth = search_depth(64 - bits::count_bits(b.occupied()));
                if b.legal_of() == 0 {
                    r == Action::Pass
                } else {
                    r matches Action::Move(p) && p.spec_bits() == best_from(
                        b,
                        move_list(b.legal_of()),
                        depth,
                        0,
                        i32::MIN as int,
                    ).0
                }
            }),
    {
        let raw = *board.raw_board();
        let mut moves = raw.legal_moves();
        let turn = raw.turn;
        let ghost all = moves;

        if moves == 0 {
            Action::Pass
        } else {
            let mut best_score: i32 = i32::MIN;
            let mut best_move: u64 = 0;
            let holes = raw.count_hole();
            let depth: i32 = if holes <= 14 {
                14
            } else {
                5
            };

            proof {
                assert(moves & moves == moves) by (bit_vector);
            }
            while moves != 0
                invariant
                    raw.wf(),
                    raw == board.raw_spec(),
                    turn == raw.turn,
                    all == raw.legal_of(),
                    all != 0,
                    raw.legal_of() & moves == moves,
                    depth == search_depth(64 - bits::count_bits(raw.occupied())),
                    best_from(raw, move_list(moves), depth as int, best_move, best_score as int)
                        == best_from(
                        raw,
                        move_list(all),
                        depth as int,
                        0,
                        i32::MIN as int,
                    ),
                    moves == all ==> best_move == 0 && best_score == i32::MIN,
                    moves != all ==> best_score > i32::MIN && single_bit(best_move)
                        && raw.legal_of() & best_move == best_move,
                decreases moves,
            {
                proof {
                    bits::lemma_low_bit(moves);
                    bits::lemma_subset_trans(low_bit(moves), moves, raw.legal_of());
                    bits::lemma_subset_trans(moves & !low_bit(moves), moves, raw.legal_of());
                    crate::board::lemma_own_opp_occupied(raw);
                    bitboard::lemma_legal_matches_reversible(
                        raw.own_mask(),
                        raw.opp_mask(),
                        low_bit(moves),
                    );
                }
                let mov = 1u64 << moves.trailing_zeros();
                let mut child = raw.clone();
                child.put_stone(mov);
                let score = minimax::minimax(&child, turn, depth);

                proof {
                    minimax::lemma_minimax_bounds(child, turn, depth as int);
                    assert(move_list(moves) == seq![mov] + move_list(moves & !mov));
                    assert((seq![mov] + move_list(moves & !mov)).drop_first() =~= move_list(
                        moves & !mov,
                    ));
                    assert(move_list(moves)[0] == mov);
                }
                if score > best_score {
                    best_score = score;
                    best_move = mov;
                }
                moves &= !mov;
            }
            proof {
                assert(move_list(0u64) =~= Seq::<u64>::empty());
                crate::board::lemma_own_opp_occupied(raw);
                bitboard::lemma_legal_matches_reversible(raw.own_mask(), raw.opp_mask(), best_move);
            }
            Action::Move(Position::new(best_move))
        }
    }
}

impl Player for CleverRobotPlayer {
    fn action(&mut self, board: &UiBoard) -> (r: Action) {
        self.choose_action(board)
    }
}

} // verus!
