//! The game state: two stone masks and the side to move.
//!
//! `Board` is the node type of the search tree, so it stays compact and
//! copyable.  Placing a stone and passing are the only transitions; both
//! keep the two masks disjoint, and a placement always grows the stone
//! count by exactly one.

use vstd::prelude::*;
use crate::bitboard;
use crate::bitboard::{BitBoard, Move, Moves};
use crate::bits;
use crate::bits::{count_bits, low_bit, move_list, single_bit};

verus! {

/// The side to move.
#[derive(Debug, Copy, Clone, PartialEq, Eq, Structural)]
pub enum Turn {
    Black,
    White,
}

impl Turn {
    /// The other side.
    pub open spec fn opposit_spec(self) -> Turn {
        match self {
            Turn::Black => Turn::White,
            Turn::White => Turn::Black,
        }
    }

    pub fn is_black(&self) -> (r: bool)
        ensures
            r == (*self == Turn::Black),
    {
        match *self {
            Turn::Black => true,
            Turn::White => false,
        }
    }

    pub fn opposit(&self) -> (r: Turn)
        ensures
            r == self.opposit_spec(),
    {
        match *self {
            Turn::Black => Turn::White,
            Turn::White => Turn::Black,
        }
    }
}

/// One position of the game: the stones of each color and whose turn it
/// is.  The two masks never share a bit.
#[derive(Debug, Copy, Clone, PartialEq, Eq, Structural)]
pub struct Board {
    pub black: BitBoard,
    pub white: BitBoard,
    pub turn: Turn,
}

/// The canonical four-stone starting position, black to move.
pub open spec fn start_board() -> Board {
    Board { black: 0x0000_0008_1000_0000, white: 0x0000_0010_0800_0000, turn: Turn::Black }
}

impl Default for Board {
    /// The starting position.
    fn default() -> (r: Self)
        ensures
            r == start_board(),
    {
        Self::new()
    }
}

impl Board {
    /// The board invariant: no cell holds two stones.
    pub open spec fn wf(self) -> bool {
        self.black & self.white == 0
    }

    /// All occupied cells.
    pub open spec fn occupied(self) -> u64 {
        self.black | self.white
    }

    /// The stones of the side to move.
    pub open spec fn own_mask(self) -> u64 {
        if self.turn == Turn::Black {
            self.black
        } else {
            self.white
        }
    }

    /// The stones of the side not to move.
    pub open spec fn opp_mask(self) -> u64 {
        if self.turn == Turn::Black {
            self.white
        } else {
            self.black
        }
    }

    /// The stones of `t`.
    pub open spec fn side_mask(self, t: Turn) -> u64 {
        if t == Turn::Black {
            self.black
        } else {
            self.white
        }
    }

    /// The stones the side to move would flip by playing at `mov`.
    pub open spec fn flips_spec(self, mov: u64) -> u64 {
        bitboard::reversible_spec(self.own_mask(), self.opp_mask(), mov)
    }

    /// The legal destinations of `t`.
    pub open spec fn legal_for(self, t: Turn) -> u64 {
        bitboard::legal_mask(self.side_mask(t), self.side_mask(t.opposit_spec()))
    }

    /// The legal destinations of the side to move.
    pub open spec fn legal_of(self) -> u64 {
        self.legal_for(self.turn)
    }

    /// The position after the side to move plays at `mov`: the new stone
    /// and the flipped run join the mover's mask, the flipped run leaves
    /// the opponent's mask, and the turn changes hands.
    pub open spec fn place_spec(self, mov: u64) -> Board {
        let rev = self.flips_spec(mov);
        if self.turn == Turn::Black {
            Board { black: self.black ^ (mov | rev), white: self.white ^ rev, turn: Turn::White }
        } else {
            Board { black: self.black ^ rev, white: self.white ^ (mov | rev), turn: Turn::Black }
        }
    }

    /// The position after the side to move passes.
    pub open spec fn pass_spec(self) -> Board {
        Board { black: self.black, white: self.white, turn: self.turn.opposit_spec() }
    }

    /// The game ends when the board is full or neither side can move.
    pub open spec fn game_over_spec(self) -> bool {
        count_bits(self.occupied()) == 64 || (self.legal_for(Turn::Black) == 0 && self.legal_for(
            Turn::White,
        ) == 0)
    }

    /// The successor positions: one per legal move; a single forced pass
    /// when only the opponent can move; none when the game is over.
    pub open spec fn children_spec(self) -> Seq<Board> {
        if self.legal_of() == 0 {
            if count_bits(self.occupied()) == 64 || self.legal_for(self.turn.opposit_spec())
                == 0 {
                Seq::empty()
            } else {
                seq![self.pass_spec()]
            }
        } else {
            move_list(self.legal_of()).map_values(|mv: u64| self.place_spec(mv))
        }
    }

    /// Creates the starting position.
    pub fn new() -> (r: Self)
        ensures
            r == start_board(),
            r.wf(),
    {
        proof {
            assert(0x0000_0008_1000_0000u64 & 0x0000_0010_0800_0000u64 == 0) by (bit_vector);
        }
        Board {
            black: 0x00_00_00_08_10_00_00_00,
            white: 0x00_00_00_10_08_00_00_00,
            turn: Turn::Black,
        }
    }

    pub fn count_black(&self) -> (r: u32)
        ensures
            r == count_bits(self.black),
    {
        bits::count_ones_u64(self.black)
    }

    pub fn count_white(&self) -> (r: u32)
        ensures
            r == count_bits(self.white),
    {
        bits::count_ones_u64(self.white)
    }

    pub fn count_stone(&self) -> (r: u32)
        ensures
            r == count_bits(self.occupied()),
    {
        bits::count_ones_u64(self.black | self.white)
    }

    pub fn count_hole(&self) -> (r: u32)
        ensures
            r == 64 - count_bits(self.occupied()),
    {
        proof {
            bits::lemma_count_bits_le_64(self.black | self.white);
        }
        64 - bits::count_ones_u64(self.black | self.white)
    }

    /// The stones the side to move would flip by playing at `mov`.
    pub fn reversible_stones(&self, mov: Move) -> (r: BitBoard)
        ensures
            r == self.flips_spec(mov),
    {
        if self.is_black_turn() {
            bitboard::reversible_stones(self.black, self.white, mov)
        } else {
            bitboard::reversible_stones(self.white, self.black, mov)
        }
    }

    pub fn count_reversible_stones(&self, mov: Move) -> (r: u32)
        ensures
            r == count_bits(self.flips_spec(mov)),
    {
        bits::count_ones_u64(self.reversible_stones(mov))
    }

    /// Hands the turn to the other side; the stones do not move.
    pub fn pass(&mut self) -> (r: &Self)
        ensures
            *final(self) == old(self).pass_spec(),
            *r == *final(self),
    {
        self.turn = self.turn.opposit();
        self
    }

    /// Plays the side to move at `mov`, which must be a legal move: the
    /// flipped run changes hands and the new stone is placed.  The masks
    /// stay disjoint and the total stone count grows by exactly one.
    pub fn put_stone(&mut self, mov: Move) -> (r: &Self)
        requires
            old(self).wf(),
            single_bit(mov),
            old(self).flips_spec(mov) != 0,
        ensures
            *final(self) == old(self).place_spec(mov),
            final(self).wf(),
            count_bits(final(self).black) + count_bits(final(self).white) == count_bits(
                old(self).black,
            ) + count_bits(old(self).white) + 1,
            *r == *final(self),
    {
        proof {
            lemma_place_keeps_board(*self, mov);
        }
        if self.is_black_turn() {
            let rev = bitboard::reversible_stones(self.black, self.white, mov);
            self.black ^= mov | rev;
            self.white ^= rev;
            self.turn = Turn::White;
        } else {
            let rev = bitboard::reversible_stones(self.white, self.black, mov);
            self.white ^= mov | rev;
            self.black ^= rev;
            self.turn = Turn::Black;
        }
        self
    }

    pub fn legal_moves(&self) -> (r: Moves)
        requires
            self.wf(),
        ensures
            r == self.legal_of(),
            forall|p: u64|
                single_bit(p) ==> ((#[trigger] (r & p) != 0) <==> (p & self.occupied() == 0
                    && self.flips_spec(p) != 0)),
    {
        self.legal_moves_for_player(self.turn)
    }

    fn legal_moves_for_player(&self, turn: Turn) -> (r: Moves)
        requires
            self.wf(),
        ensures
            r == self.legal_for(turn),
            turn == self.turn ==> forall|p: u64|
                single_bit(p) ==> ((#[trigger] (r & p) != 0) <==> (p & self.occupied() == 0
                    && self.flips_spec(p) != 0)),
    {
        if turn.is_black() {
            let r = bitboard::legal_moves(self.black, self.white);
            proof {
                lemma_and_comm_u64(self.white, self.black);
            }
            r
        } else {
            proof {
                lemma_and_comm_u64(self.white, self.black);
                lemma_or_comm_u64(self.white, self.black);
            }
            let r = bitboard::legal_moves(self.white, self.black);
            r
        }
    }

    /// The legal moves of the side to move, lowest cell first, one
    /// single-bit mask per entry.
    pub fn legal_moves_as_vec(&self) -> (r: Vec<Move>)
        requires
            self.wf(),
        ensures
            r@ == move_list(self.legal_of()),
    {
        let mut moves = self.legal_moves();
        let ghost all = moves;
        let mut vec: Vec<Move> = Vec::new();

        while moves != 0
            invariant
                vec@ + move_list(moves) == move_list(all),
            decreases moves,
        {
            proof {
                bits::lemma_low_bit(moves);
            }
            let mov = 1u64 << moves.trailing_zeros();
            proof {
                assert(mov == low_bit(moves));
                assert(move_list(moves) == seq![mov] + move_list(moves & !mov));
                assert((vec@ + seq![mov]) + move_list(moves & !mov) =~= vec@ + move_list(moves));
            }
            vec.push(mov);
            moves &= !mov;
        }
        proof {
            assert(vec@ =~= vec@ + move_list(0u64));
        }
        vec
    }

    pub fn is_black_turn(&self) -> (r: bool)
        ensures
            r == (self.turn == Turn::Black),
    {
        self.turn == Turn::Black
    }

    /// A cell is a legal move exactly when playing there flips at least
    /// one stone.
    pub fn is_legal_move(&self, mov: Move) -> (r: bool)
        ensures
            r == (self.flips_spec(mov) != 0),
    {
        proof {
            bits::lemma_count_zero(self.flips_spec(mov));
        }
        self.count_reversible_stones(mov) > 0
    }

    /// The game is over when the board is full, or when neither black nor
    /// white has a legal move left.
    pub fn is_game_over(&self) -> (r: bool)
        requires
            self.wf(),
        ensures
            r == self.game_over_spec(),
    {
        let filled = self.count_hole() == 0;
        let no_black = self.legal_moves_for_player(Turn::Black) == 0;
        let no_white = self.legal_moves_for_player(Turn::White) == 0;
        filled || (no_black && no_white)
    }

    /// Enumerates the successor positions of this node, in the order of
    /// `children_spec`: every legal move applied, or one forced pass, or
    /// nothing at a terminal position.
    pub fn children(&self) -> (r: Vec<Board>)
        requires
            self.wf(),
        ensures
            r@ == self.children_spec(),
            forall|i: int| 0 <= i < r@.len() ==> (#[trigger] r@[i]).wf(),
    {
        let mut vec: Vec<Board> = Vec::new();
        let mut moves = self.legal_moves();
        let ghost all = moves;

        if moves == 0 {
            if self.count_hole() == 0 || self.legal_moves_for_player(self.turn.opposit()) == 0 {
                // no child: the game is over
            } else {
                // pass
                let mut child = self.clone();
                child.pass();
                vec.push(child);
            }
            return vec;
        }

        proof {
            assert(moves & moves == moves) by (bit_vector);
        }
        while moves != 0
            invariant
                self.wf(),
                all == self.legal_of(),
                self.legal_of() & moves == moves,
                vec@ + move_list(moves).map_values(|mv: u64| self.place_spec(mv)) == move_list(
                    all,
                ).map_values(|mv: u64| self.place_spec(mv)),
                forall|i: int| 0 <= i < vec@.len() ==> (#[trigger] vec@[i]).wf(),
            decreases moves,
        {
            proof {
                bits::lemma_low_bit(moves);
                bits::lemma_subset_trans(low_bit(moves), moves, self.legal_of());
                bits::lemma_subset_trans(moves & !low_bit(moves), moves, self.legal_of());
                lemma_own_opp_occupied(*self);
                bitboard::lemma_legal_matches_reversible(
                    self.own_mask(),
                    self.opp_mask(),
                    low_bit(moves),
                );
            }
            let mov = 1u64 << moves.trailing_zeros();
            let mut child = self.clone();

            child.put_stone(mov);
            proof {
                let f = |mv: u64| self.place_spec(mv);
                assert(move_list(moves) == seq![mov] + move_list(moves & !mov));
                assert((vec@ + seq![child]) + move_list(moves & !mov).map_values(f) =~= vec@
                    + move_list(moves).map_values(f));
            }
            vec.push(child);
            moves &= !mov;
        }
        proof {
            let f = |mv: u64| self.place_spec(mv);
            assert(vec@ =~= vec@ + move_list(0u64).map_values(f));
        }
        vec
    }
}

/// `&` commutes; `legal_mask` takes its two sides in either role.
proof fn lemma_and_comm_u64(a: u64, b: u64)
    by (bit_vector)
    ensures
        a & b == b & a,
{
}

proof fn lemma_or_comm_u64(a: u64, b: u64)
    by (bit_vector)
    ensures
        a | b == b | a,
{
}

/// The side masks cover the occupied cells in either turn order.
pub proof fn lemma_own_opp_occupied(b: Board)
    ensures
        b.own_mask() | b.opp_mask() == b.occupied(),
        b.wf() ==> b.own_mask() & b.opp_mask() == 0,
{
    lemma_and_comm_u64(b.white, b.black);
    lemma_or_comm_u64(b.white, b.black);
}

/// Placing a legal stone keeps the masks disjoint and adds one stone in
/// total: the flipped run only changes color.
pub proof fn lemma_place_keeps_board(b: Board, mov: u64)
    requires
        b.wf(),
        single_bit(mov),
        b.flips_spec(mov) != 0,
    ensures
        b.place_spec(mov).wf(),
        count_bits(b.place_spec(mov).black) + count_bits(b.place_spec(mov).white) == count_bits(
            b.black,
        ) + count_bits(b.white) + 1,
{
    let own = b.own_mask();
    let opp = b.opp_mask();
    let rev = b.flips_spec(mov);
    lemma_own_opp_occupied(b);
    bitboard::lemma_reversible_subset(own, opp, mov);
    assert((own | opp) & mov == 0);
    lemma_put_pieces(own, opp, mov, rev);
    lemma_and_comm_u64(opp ^ rev, own ^ (mov | rev));
    bits::lemma_count_or_disjoint(own, mov | rev);
    bits::lemma_count_or_disjoint(mov, rev);
    bits::lemma_count_single(mov);
    bits::lemma_count_xor_subset(opp, rev);
}

/// The bit-level heart of `lemma_place_keeps_board`.
proof fn lemma_put_pieces(own: u64, opp: u64, mov: u64, rev: u64)
    by (bit_vector)
    requires
        own & opp == 0,
        rev & opp == rev,
        (own | opp) & mov == 0,
    ensures
        (own ^ (mov | rev)) & (opp ^ rev) == 0,
        own & (mov | rev) == 0,
        mov & rev == 0,
        own ^ (mov | rev) == own | (mov | rev),
        rev & opp == rev,
        rev & own == 0,
{
}

/// The base positional weight of each cell, in board order: index 0 is
/// `a1` (bit 63), index 63 is `h8` (bit 0).  Corners score highly, the
/// cells next to a corner invite the opponent to take it and score low.
pub open spec fn base_table() -> Seq<i32> {
    seq![
        30i32, -12i32, 0i32, 0i32, 0i32, 0i32, -12i32, 30i32,
        -12i32, -15i32, -3i32, -3i32, -3i32, -3i32, -15i32, -12i32,
        0i32, -3i32, 0i32, 0i32, 0i32, 0i32, -3i32, 0i32,
        -1i32, -3i32, -1i32, -1i32, -1i32, 0i32, 0i32, -1i32,
        -1i32, -3i32, 0i32, 0i32, 0i32, 0i32, -3i32, -1i32,
        0i32, -3i32, 0i32, 0i32, 0i32, 0i32, -3i32, 0i32,
        -12i32, -15i32, -3i32, -3i32, -3i32, -3i32, -15i32, -12i32,
        30i32, -12i32, 0i32, 0i32, 0i32, 0i32, -12i32, 30i32,
    ]
}

/// The cell `a1`, as a mask.
pub const CORNER_A1: u64 = 0x8000_0000_0000_0000;
/// The cell `h1`, as a mask.
pub const CORNER_H1: u64 = 0x0100_0000_0000_0000;
/// The cell `a8`, as a mask.
pub const CORNER_A8: u64 = 0x0000_0000_0000_0080;
/// The cell `h8`, as a mask.
pub const CORNER_H8: u64 = 0x0000_0000_0000_0001;

/// The weight table after the corner rule: once a corner is occupied (by
/// either color), its three neighbours no longer invite a capture and are
/// neutralized to a small positive value.
pub open spec fn adjusted_table(occ: u64) -> Seq<i32> {
    let t0 = base_table();
    let t1 = if occ & CORNER_A1 != 0 {
        t0.update(1, 1i32).update(8, 1i32).update(9, 1i32)
    } else {
        t0
    };
    let t2 = if occ & CORNER_H1 != 0 {
        t1.update(6, 1i32).update(14, 1i32).update(15, 1i32)
    } else {
        t1
    };
    let t3 = if occ & CORNER_A8 != 0 {
        t2.update(48, 1i32).update(49, 1i32).update(57, 1i32)
    } else {
        t2
    };
    if occ & CORNER_H8 != 0 {
        t3.update(54, 1i32).update(55, 1i32).update(62, 1i32)
    } else {
        t3
    }
}

/// Every weight lies between the worst penalty and the corner bonus.
proof fn lemma_weight_range(occ: u64)
    ensures
        adjusted_table(occ).len() == 64,
        forall|j: int| 0 <= j < 64 ==> -15 <= #[trigger] adjusted_table(occ)[j] <= 30,
{
    assert forall|j: int| 0 <= j < 64 implies -15 <= #[trigger] adjusted_table(occ)[j] <= 30 by {
        assert(-15 <= base_table()[j] <= 30);
    }
}

/// The positional weights of the stones of `m`, summed; `occ` drives the
/// corner rule.
pub open spec fn wsum(m: u64, occ: u64) -> int
    decreases m,
    via wsum_decreases
{
    if m == 0 {
        0
    } else {
        adjusted_table(occ)[63 - vstd::std_specs::bits::u64_trailing_zeros(m) as int] + wsum(
            m & !low_bit(m),
            occ,
        )
    }
}

#[via_fn]
proof fn wsum_decreases(m: u64, occ: u64) {
    if m != 0 {
        bits::lemma_low_bit(m);
    }
}

/// The weighted sum of a mask stays between the worst penalty and the
/// best bonus per stone.
proof fn lemma_wsum_bounds(m: u64, occ: u64)
    ensures
        -15 * count_bits(m) <= wsum(m, occ) <= 30 * count_bits(m),
        -960 <= wsum(m, occ) <= 1920,
    decreases m,
{
    bits::lemma_count_bits_le_64(m);
    if m == 0 {
    } else {
        bits::lemma_low_bit(m);
        bits::lemma_count_drop_low(m);
        lemma_wsum_bounds(m & !low_bit(m), occ);
        lemma_weight_range(occ);
        vstd::std_specs::bits::axiom_u64_trailing_zeros(m);
    }
}

impl Board {
    /// One side of the positional heuristic: raw stone count on a full
    /// board, weighted cell sum otherwise.
    pub open spec fn single_score_spec(self, t: Turn) -> int {
        if count_bits(self.occupied()) == 64 {
            count_bits(self.side_mask(t)) as int
        } else {
            wsum(self.side_mask(t), self.occupied())
        }
    }

    /// The static evaluation from the point of view of `t`: own single
    /// score minus the opponent's.
    pub open spec fn eval_spec(self, t: Turn) -> int {
        self.single_score_spec(t) - self.single_score_spec(t.opposit_spec())
    }

    /// The static positional score of this position for `turn`.
    pub fn eval_score(&self, turn: Turn) -> (r: i32)
        ensures
            r == self.eval_spec(turn),
            -2880 <= r <= 2880,
    {
        self.eval_score_single(turn) - self.eval_score_single(turn.opposit())
    }

    fn eval_score_single(&self, turn: Turn) -> (r: i32)
        ensures
            r == self.single_score_spec(turn),
            -960 <= r <= 1920,
    {
        let mut bitboard: u64 = if turn.is_black() {
            self.black
        } else {
            self.white
        };
        let ghost own = bitboard;
        let occ = self.black | self.white;

        let holes = self.count_hole();

        if holes == 0 {
            proof {
                bits::lemma_count_bits_le_64(bitboard);
            }
            return bits::count_ones_u64(bitboard) as i32;
        }

        let mut score_table: Vec<i32> = vec![
            30, -12, 0, 0, 0, 0, -12, 30,
            -12, -15, -3, -3, -3, -3, -15, -12,
            0, -3, 0, 0, 0, 0, -3, 0,
            -1, -3, -1, -1, -1, 0, 0, -1,
            -1, -3, 0, 0, 0, 0, -3, -1,
            0, -3, 0, 0, 0, 0, -3, 0,
            -12, -15, -3, -3, -3, -3, -15, -12,
            30, -12, 0, 0, 0, 0, -12, 30,
        ];
        proof {
            assert(score_table@ =~= base_table());
        }

        if occ & CORNER_A1 != 0 {
            score_table[1] = 1;
            score_table[8] = 1;
            score_table[9] = 1;
        }
        if occ & CORNER_H1 != 0 {
            score_table[6] = 1;
            score_table[14] = 1;
            score_table[15] = 1;
        }
        if occ & CORNER_A8 != 0 {
            score_table[48] = 1;
            score_table[49] = 1;
            score_table[57] = 1;
        }
        if occ & CORNER_H8 != 0 {
            score_table[54] = 1;
            score_table[55] = 1;
            score_table[62] = 1;
        }
        proof {
            assert(score_table@ =~= adjusted_table(occ));
            lemma_wsum_bounds(own, occ);
        }
        let mut score: i32 = 0;
        while bitboard != 0
            invariant
                score == wsum(own, occ) - wsum(bitboard, occ),
                score_table@ == adjusted_table(occ),
                -960 <= wsum(own, occ) <= 1920,
                -960 <= wsum(bitboard, occ) <= 1920,
            decreases bitboard,
        {
            proof {
                bits::lemma_low_bit(bitboard);
                lemma_wsum_bounds(bitboard & !low_bit(bitboard), occ);
                lemma_weight_range(occ);
                vstd::std_specs::bits::axiom_u64_trailing_zeros(bitboard);
            }
            let index = bitboard.trailing_zeros();
            score += score_table[63 - (index as usize)];
            bitboard &= !(1u64 << index);
        }
        score
    }
}

/// The static evaluation lies within the band of the positional table.
pub proof fn lemma_eval_bounds(b: Board, me: Turn)
    ensures
        -2880 <= b.eval_spec(me) <= 2880,
{
    lemma_single_bounds(b, me);
    lemma_single_bounds(b, me.opposit_spec());
}

proof fn lemma_single_bounds(b: Board, t: Turn)
    ensures
        -960 <= b.single_score_spec(t) <= 1920,
{
    bits::lemma_count_bits_le_64(b.side_mask(t));
    lemma_wsum_bounds(b.side_mask(t), b.occupied());
}

/// Every successor of a well-formed position is well formed.
pub proof fn lemma_children_spec_wf(b: Board)
    requires
        b.wf(),
    ensures
        forall|i: int|
            0 <= i < b.children_spec().len() ==> (#[trigger] b.children_spec()[i]).wf(),
{
    if b.legal_of() == 0 {
    } else {
        let legal = b.legal_of();
        bits::lemma_move_list_props(legal);
        assert forall|i: int| 0 <= i < b.children_spec().len() implies (
        #[trigger] b.children_spec()[i]).wf() by {
            let mv = move_list(legal)[i];
            assert(single_bit(mv) && legal & mv == mv);
            lemma_own_opp_occupied(b);
            bitboard::lemma_legal_matches_reversible(b.own_mask(), b.opp_mask(), mv);
            assert(legal & mv != 0);
            lemma_place_keeps_board(b, mv);
            assert(b.children_spec()[i] == b.place_spec(mv));
        }
    }
}

/// The two terminal conditions: a full board is over, and so is a board
/// where neither color has a legal move left, empty cells or not.
pub proof fn lemma_game_over_conditions(b: Board)
    ensures
        count_bits(b.occupied()) == 64 ==> b.game_over_spec(),
        (b.legal_for(Turn::Black) == 0 && b.legal_for(Turn::White) == 0) ==> b.game_over_spec(),
{
}


/// A node has no successor exactly when the game is over: the forced
/// pass keeps the search going whenever one side can still move.
pub proof fn lemma_children_empty_iff_over(b: Board)
    requires
        b.wf(),
    ensures
        (b.children_spec().len() == 0) <==> b.game_over_spec(),
{
    if b.legal_of() != 0 {
        // at least one move, and the game cannot be over: the move mask
        // lives on empty cells of a full board, and a stuck side has an
        // empty move mask by definition
        assert(b.children_spec().len() > 0);
        if count_bits(b.occupied()) == 64 {
            bits::lemma_count_full(b.occupied());
            bitboard::lemma_legal_mask_empty_cells(b.own_mask(), b.opp_mask());
            lemma_own_opp_occupied(b);
            let lg = b.legal_of();
            assert(lg & u64::MAX == lg) by (bit_vector);
        }
        assert(!b.game_over_spec());
    } else {
        if b.children_spec().len() == 0 {
            assert(b.game_over_spec());
        }
        if b.game_over_spec() {
            if count_bits(b.occupied()) == 64 {
                bits::lemma_count_full(b.occupied());
                bitboard::lemma_legal_mask_empty_cells(
                    b.side_mask(b.turn.opposit_spec()),
                    b.side_mask(b.turn),
                );
                lemma_or_comm_u64(b.white, b.black);
                let lg = b.legal_for(b.turn.opposit_spec());
                assert(lg & u64::MAX == lg) by (bit_vector);
            }
            assert(b.children_spec().len() == 0);
        }
    }
}

} // verus!
