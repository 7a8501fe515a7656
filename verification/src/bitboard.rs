//! Bit-parallel board primitives.
//!
//! A board side is a `u64` mask: bit 63 is cell `a1` (top left), bit 0 is
//! cell `h8` (bottom right); bit `63 - (row * 8 + col)` is the cell at
//! zero-based `row`/`col`.  `legal_moves` and `reversible_stones` implement
//! the capture rule of the game over such masks.

use vstd::prelude::*;
use crate::bits::single_bit;

verus! {

/// A set of cells: one bit per cell, bit 63 = `a1`, bit 0 = `h8`.
pub type BitBoard = u64;

/// A single move: a `BitBoard` with exactly one bit set.
pub type Move = u64;

/// A set of moves: a `BitBoard` with one bit per candidate cell.
pub type Moves = u64;

/// One of the eight scan directions on the board.
#[derive(Clone, Copy, PartialEq, Eq, Structural, Debug)]
pub enum Direction {
    Up,
    Down,
    Left,
    Right,
    UpLeft,
    UpRight,
    DownLeft,
    DownRight,
}

/// Cells reachable by moving one row up.
pub const MASK_UP: u64 = 0xffff_ffff_ffff_ff00;
/// Cells reachable by moving one row down.
pub const MASK_DOWN: u64 = 0x00ff_ffff_ffff_ffff;
/// Cells reachable by moving one column left (clears column `h`).
pub const MASK_LEFT: u64 = 0xfefe_fefe_fefe_fefe;
/// Cells reachable by moving one column right (clears column `a`).
pub const MASK_RIGHT: u64 = 0x7f7f_7f7f_7f7f_7f7f;
/// Cells reachable by moving one step up-left.
pub const MASK_UP_LEFT: u64 = 0xfefe_fefe_fefe_fe00;
/// Cells reachable by moving one step up-right.
pub const MASK_UP_RIGHT: u64 = 0x7f7f_7f7f_7f7f_7f00;
/// Cells reachable by moving one step down-left.
pub const MASK_DOWN_LEFT: u64 = 0x00fe_fefe_fefe_fefe;
/// Cells reachable by moving one step down-right.
pub const MASK_DOWN_RIGHT: u64 = 0x007f_7f7f_7f7f_7f7f;

pub open spec fn shift_up(x: u64) -> u64 {
    (x << 8) & MASK_UP
}

pub open spec fn shift_down(x: u64) -> u64 {
    (x >> 8) & MASK_DOWN
}

pub open spec fn shift_left(x: u64) -> u64 {
    (x << 1) & MASK_LEFT
}

pub open spec fn shift_right(x: u64) -> u64 {
    (x >> 1) & MASK_RIGHT
}

pub open spec fn shift_up_left(x: u64) -> u64 {
    (x << 9) & MASK_UP_LEFT
}

pub open spec fn shift_up_right(x: u64) -> u64 {
    (x << 7) & MASK_UP_RIGHT
}

pub open spec fn shift_down_left(x: u64) -> u64 {
    (x >> 7) & MASK_DOWN_LEFT
}

pub open spec fn shift_down_right(x: u64) -> u64 {
    (x >> 9) & MASK_DOWN_RIGHT
}

/// Every cell of `x` moved one step in `direction`; cells that would cross
/// the board edge are dropped.
pub open spec fn shift_spec(x: u64, direction: Direction) -> u64 {
    match direction {
        Direction::Up => shift_up(x),
        Direction::Down => shift_down(x),
        Direction::Left => shift_left(x),
        Direction::Right => shift_right(x),
        Direction::UpLeft => shift_up_left(x),
        Direction::UpRight => shift_up_right(x),
        Direction::DownLeft => shift_down_left(x),
        Direction::DownRight => shift_down_right(x),
    }
}

/// `x` moved `n` steps in `direction`.
pub open spec fn shift_iter(x: u64, direction: Direction, n: nat) -> u64
    decreases n,
{
    if n == 0 {
        x
    } else {
        shift_spec(shift_iter(x, direction, (n - 1) as nat), direction)
    }
}

/// Moves every cell of `position` one step in `direction`, dropping cells
/// that would cross the board edge.
pub fn shift(position: Move, direction: Direction) -> (r: Move)
    ensures
        r == shift_spec(position, direction),
{
    match direction {
        Direction::Up => (position << 8) & MASK_UP,
        Direction::Down => (position >> 8) & MASK_DOWN,
        Direction::Left => (position << 1) & MASK_LEFT,
        Direction::Right => (position >> 1) & MASK_RIGHT,
        Direction::UpLeft => (position << 9) & MASK_UP_LEFT,
        Direction::UpRight => (position << 7) & MASK_UP_RIGHT,
        Direction::DownLeft => (position >> 7) & MASK_DOWN_LEFT,
        Direction::DownRight => (position >> 9) & MASK_DOWN_RIGHT,
    }
}

/// Walking from `cur` in `direction`, does a (possibly empty) run of `opp`
/// cells end on an `own` cell within `fuel` steps?
pub open spec fn ends_on_own(own: u64, opp: u64, cur: u64, direction: Direction, fuel: nat) -> bool
    decreases fuel,
{
    if fuel == 0 {
        false
    } else if cur & opp != 0 {
        ends_on_own(own, opp, shift_spec(cur, direction), direction, (fuel - 1) as nat)
    } else {
        cur & own != 0
    }
}

/// The maximal run of `opp` cells reached from `cur` walking in `direction`,
/// cut off after `fuel` steps.
pub open spec fn opp_run(opp: u64, cur: u64, direction: Direction, fuel: nat) -> u64
    decreases fuel,
{
    if fuel == 0 {
        0
    } else if cur & opp != 0 {
        cur | opp_run(opp, shift_spec(cur, direction), direction, (fuel - 1) as nat)
    } else {
        0
    }
}

/// The stones flipped in `direction` when `own` plays at `pos`: the run of
/// `opp` stones adjacent to `pos` in that direction, provided the run is
/// closed off by an `own` stone.  A run can span at most six cells, so a
/// fuel of seven covers every board line.
pub open spec fn dir_flips(own: u64, opp: u64, pos: u64, direction: Direction) -> u64 {
    let start = shift_spec(pos, direction);
    if ends_on_own(own, opp, start, direction, 7) {
        opp_run(opp, start, direction, 7)
    } else {
        0
    }
}

/// All stones flipped when `own` plays at `pos`: the union of the flipped
/// runs of the eight directions, or nothing when `pos` is already occupied.
pub open spec fn reversible_spec(own: u64, opp: u64, pos: u64) -> u64 {
    if (own | opp) & pos != 0 {
        0
    } else {
        dir_flips(own, opp, pos, Direction::Up) | dir_flips(own, opp, pos, Direction::Down)
            | dir_flips(own, opp, pos, Direction::Left) | dir_flips(
            own,
            opp,
            pos,
            Direction::Right,
        ) | dir_flips(own, opp, pos, Direction::UpLeft) | dir_flips(
            own,
            opp,
            pos,
            Direction::UpRight,
        ) | dir_flips(own, opp, pos, Direction::DownLeft) | dir_flips(
            own,
            opp,
            pos,
            Direction::DownRight,
        )
    }
}

/// Column sentinel of the horizontal slides: columns `b` through `g`.
pub const H_SENTINEL: u64 = 0x7e7e_7e7e_7e7e_7e7e;
/// Row sentinel of the vertical slides: rows 2 through 7.
pub const V_SENTINEL: u64 = 0x00ff_ffff_ffff_ff00;
/// Sentinel of the diagonal slides: the inner six-by-six block.
pub const B_SENTINEL: u64 = 0x007e_7e7e_7e7e_7e00;

/// The empty cells that capture a run of `white` stones lying to their
/// right (east), computed by six shift-and-mask slides.
pub open spec fn block_left(black: u64, white: u64) -> u64 {
    let m = white & H_SENTINEL;
    let t1 = m & (black << 1);
    let t2 = t1 | (m & (t1 << 1));
    let t3 = t2 | (m & (t2 << 1));
    let t4 = t3 | (m & (t3 << 1));
    let t5 = t4 | (m & (t4 << 1));
    let t6 = t5 | (m & (t5 << 1));
    !(black | white) & (t6 << 1)
}

/// A capture toward the east: the slide result agrees with the directional
/// scan of `dir_flips`.
proof fn lemma_block_left_scan(black: u64, white: u64, p: u64)
    requires
        black & white == 0,
        single_bit(p),
        p & (black | white) == 0,
    ensures
        (block_left(black, white) & p != 0) <==> (dir_flips(black, white, p, Direction::Right)
            != 0),
{
    lemma_bit_algebra();
    let s1 = shift_right(p);
    let s2 = shift_right(s1);
    let s3 = shift_right(s2);
    let s4 = shift_right(s3);
    let s5 = shift_right(s4);
    let s6 = shift_right(s5);
    let s7 = shift_right(s6);
    let s8 = shift_right(s7);
    let d = Direction::Right;
    assert(shift_spec(p, d) == s1);
    assert(ends_on_own(black, white, s8, d, 0) == false);
    assert(ends_on_own(black, white, s1, d, 7) == (if s1 & white != 0 {
        ends_on_own(black, white, s2, d, 6)
    } else {
        s1 & black != 0
    }));
    assert(ends_on_own(black, white, s2, d, 6) == (if s2 & white != 0 {
        ends_on_own(black, white, s3, d, 5)
    } else {
        s2 & black != 0
    }));
    assert(ends_on_own(black, white, s3, d, 5) == (if s3 & white != 0 {
        ends_on_own(black, white, s4, d, 4)
    } else {
        s3 & black != 0
    }));
    assert(ends_on_own(black, white, s4, d, 4) == (if s4 & white != 0 {
        ends_on_own(black, white, s5, d, 3)
    } else {
        s4 & black != 0
    }));
    assert(ends_on_own(black, white, s5, d, 3) == (if s5 & white != 0 {
        ends_on_own(black, white, s6, d, 2)
    } else {
        s5 & black != 0
    }));
    assert(ends_on_own(black, white, s6, d, 2) == (if s6 & white != 0 {
        ends_on_own(black, white, s7, d, 1)
    } else {
        s6 & black != 0
    }));
    assert(ends_on_own(black, white, s7, d, 1) == (if s7 & white != 0 {
        false
    } else {
        s7 & black != 0
    }));
    if s1 & white != 0 {
        assert(opp_run(white, s1, d, 7) == s1 | opp_run(white, s2, d, 6));
        assert(s1 != 0);
        assert(opp_run(white, s1, d, 7) != 0);
    } else {
        assert(opp_run(white, s1, d, 7) == 0);
    }
    assert((dir_flips(black, white, p, d) != 0) == (s1 & white != 0 && ends_on_own(
        black,
        white,
        s2,
        d,
        6,
    )));
    assert((block_left(black, white) & p != 0) <==> (s1 & white != 0 && (if s2 & white != 0 {
        if s3 & white != 0 {
            if s4 & white != 0 {
                if s5 & white != 0 {
                    if s6 & white != 0 {
                        if s7 & white != 0 {
                            false
                        } else {
                            s7 & black != 0
                        }
                    } else {
                        s6 & black != 0
                    }
                } else {
                    s5 & black != 0
                }
            } else {
                s4 & black != 0
            }
        } else {
            s3 & black != 0
        }
    } else {
        s2 & black != 0
    }))) by (bit_vector)
        requires
            black & white == 0,
            p != 0,
            p & ((p - 1) as u64) == 0,
            p & (black | white) == 0,
            s1 == shift_right(p),
            s2 == shift_right(s1),
            s3 == shift_right(s2),
            s4 == shift_right(s3),
            s5 == shift_right(s4),
            s6 == shift_right(s5),
            s7 == shift_right(s6),
    ;
}

/// Eight steps in one direction always leave the board.
proof fn lemma_shift_iter_dies(x: u64, direction: Direction)
    ensures
        shift_iter(x, direction, 8) == 0,
{
    let x1 = shift_spec(x, direction);
    let x2 = shift_spec(x1, direction);
    let x3 = shift_spec(x2, direction);
    let x4 = shift_spec(x3, direction);
    let x5 = shift_spec(x4, direction);
    let x6 = shift_spec(x5, direction);
    let x7 = shift_spec(x6, direction);
    let x8 = shift_spec(x7, direction);
    assert(shift_iter(x, direction, 0) == x);
    assert(shift_iter(x, direction, 1) == x1);
    assert(shift_iter(x, direction, 2) == x2);
    assert(shift_iter(x, direction, 3) == x3);
    assert(shift_iter(x, direction, 4) == x4);
    assert(shift_iter(x, direction, 5) == x5);
    assert(shift_iter(x, direction, 6) == x6);
    assert(shift_iter(x, direction, 7) == x7);
    assert(shift_iter(x, direction, 8) == x8);
    match direction {
        Direction::Up => {
            assert(x8 == 0) by (bit_vector)
                requires
                    x1 == shift_up(x),
                    x2 == shift_up(x1),
                    x3 == shift_up(x2),
                    x4 == shift_up(x3),
                    x5 == shift_up(x4),
                    x6 == shift_up(x5),
                    x7 == shift_up(x6),
                    x8 == shift_up(x7),
            ;
        },
        Direction::Down => {
            assert(x8 == 0) by (bit_vector)
                requires
                    x1 == shift_down(x),
                    x2 == shift_down(x1),
                    x3 == shift_down(x2),
                    x4 == shift_down(x3),
                    x5 == shift_down(x4),
                    x6 == shift_down(x5),
                    x7 == shift_down(x6),
                    x8 == shift_down(x7),
            ;
        },
        Direction::Left => {
            assert(x8 == 0) by (bit_vector)
                requires
                    x1 == shift_left(x),
                    x2 == shift_left(x1),
                    x3 == shift_left(x2),
                    x4 == shift_left(x3),
                    x5 == shift_left(x4),
                    x6 == shift_left(x5),
                    x7 == shift_left(x6),
                    x8 == shift_left(x7),
            ;
        },
        Direction::Right => {
            assert(x8 == 0) by (bit_vector)
                requires
                    x1 == shift_right(x),
                    x2 == shift_right(x1),
                    x3 == shift_right(x2),
                    x4 == shift_right(x3),
                    x5 == shift_right(x4),
                    x6 == shift_right(x5),
                    x7 == shift_right(x6),
                    x8 == shift_right(x7),
            ;
        },
        Direction::UpLeft => {
            assert(x8 == 0) by (bit_vector)
                requires
                    x1 == shift_up_left(x),
                    x2 == shift_up_left(x1),
                    x3 == shift_up_left(x2),
                    x4 == shift_up_left(x3),
                    x5 == shift_up_left(x4),
                    x6 == shift_up_left(x5),
                    x7 == shift_up_left(x6),
                    x8 == shift_up_left(x7),
            ;
        },
        Direction::UpRight => {
            assert(x8 == 0) by (bit_vector)
                requires
                    x1 == shift_up_right(x),
                    x2 == shift_up_right(x1),
                    x3 == shift_up_right(x2),
                    x4 == shift_up_right(x3),
                    x5 == shift_up_right(x4),
                    x6 == shift_up_right(x5),
                    x7 == shift_up_right(x6),
                    x8 == shift_up_right(x7),
            ;
        },
        Direction::DownLeft => {
            assert(x8 == 0) by (bit_vector)
                requires
                    x1 == shift_down_left(x),
                    x2 == shift_down_left(x1),
                    x3 == shift_down_left(x2),
                    x4 == shift_down_left(x3),
                    x5 == shift_down_left(x4),
                    x6 == shift_down_left(x5),
                    x7 == shift_down_left(x6),
                    x8 == shift_down_left(x7),
            ;
        },
        Direction::DownRight => {
            assert(x8 == 0) by (bit_vector)
                requires
                    x1 == shift_down_right(x),
                    x2 == shift_down_right(x1),
                    x3 == shift_down_right(x2),
                    x4 == shift_down_right(x3),
                    x5 == shift_down_right(x4),
                    x6 == shift_down_right(x5),
                    x7 == shift_down_right(x6),
                    x8 == shift_down_right(x7),
            ;
        },
    }
}

/// Common bit identities, shared by the proofs in this crate.
pub proof fn lemma_bit_algebra()
    by (bit_vector)
    ensures
        forall|a: u64, b: u64, c: u64| #[trigger] ((a | b) | c) == a | (b | c),
        forall|a: u64| #[trigger] (a | 0u64) == a,
        forall|a: u64| #[trigger] (0u64 | a) == a,
        forall|a: u64| #[trigger] (a & 0u64) == 0u64,
        forall|a: u64| #[trigger] (0u64 & a) == 0u64,
        forall|a: u64, b: u64| #[trigger] (a & b) != 0 ==> a != 0 && b != 0,
        forall|a: u64, b: u64| ((#[trigger] (a | b)) != 0) == (a != 0 || b != 0),
        forall|a: u64, b: u64, c: u64| #[trigger] ((a | b) & c) == (a & c) | (b & c),
        forall|c: u64, t: u64| #[trigger] ((!c & t) & c) == 0,
        forall|c: u64, o: u64| c & ((c - 1) as u64) == 0 && #[trigger] (c & o) != 0 ==> c & o == c,
        forall|x: u64|
            x & ((x - 1) as u64) == 0 ==> #[trigger] shift_up(x) & ((shift_up(x) - 1) as u64)
                == 0,
        forall|x: u64|
            x & ((x - 1) as u64) == 0 ==> #[trigger] shift_down(x) & ((shift_down(x) - 1) as u64)
                == 0,
        forall|x: u64|
            x & ((x - 1) as u64) == 0 ==> #[trigger] shift_left(x) & ((shift_left(x) - 1) as u64)
                == 0,
        forall|x: u64|
            x & ((x - 1) as u64) == 0 ==> #[trigger] shift_right(x) & ((shift_right(x)
                - 1) as u64) == 0,
        forall|x: u64|
            x & ((x - 1) as u64) == 0 ==> #[trigger] shift_up_left(x) & ((shift_up_left(x)
                - 1) as u64) == 0,
        forall|x: u64|
            x & ((x - 1) as u64) == 0 ==> #[trigger] shift_up_right(x) & ((shift_up_right(x)
                - 1) as u64) == 0,
        forall|x: u64|
            x & ((x - 1) as u64) == 0 ==> #[trigger] shift_down_left(x) & ((shift_down_left(x)
                - 1) as u64) == 0,
        forall|x: u64|
            x & ((x - 1) as u64) == 0 ==> #[trigger] shift_down_right(x) & ((shift_down_right(x)
                - 1) as u64) == 0,
{
}

/// The run of stones flipped in `direction` when `own` plays at `position`;
/// empty when the run is not closed off by an `own` stone.
fn scan_dir(own: u64, opp: u64, position: u64, direction: Direction) -> (r: u64)
    ensures
        r == dir_flips(own, opp, position, direction),
{
    let mut pos = shift(position, direction);
    let mut rev: u64 = 0;
    let ghost mut i: nat = 1;
    proof {
        lemma_shift_iter_dies(position, direction);
        lemma_bit_algebra();
        assert(shift_iter(position, direction, 0) == position);
        assert(shift_iter(position, direction, 1) == shift_spec(position, direction));
    }
    while pos != 0 && (pos & opp) != 0
        invariant
            1 <= i <= 8,
            pos == shift_iter(position, direction, i),
            shift_iter(position, direction, 8) == 0,
            dir_flips(own, opp, position, direction) == (if ends_on_own(
                own,
                opp,
                pos,
                direction,
                (8 - i) as nat,
            ) {
                rev | opp_run(opp, pos, direction, (8 - i) as nat)
            } else {
                0u64
            }),
        decreases 8 - i,
    {
        proof {
            lemma_bit_algebra();
            if i == 8 {
                assert(pos == 0);
            }
            assert(ends_on_own(own, opp, pos, direction, (8 - i) as nat) == ends_on_own(
                own,
                opp,
                shift_spec(pos, direction),
                direction,
                (8 - (i + 1)) as nat,
            ));
            assert(opp_run(opp, pos, direction, (8 - i) as nat) == pos | opp_run(
                opp,
                shift_spec(pos, direction),
                direction,
                (8 - (i + 1)) as nat,
            ));
        }
        rev = rev | pos;
        pos = shift(pos, direction);
        proof {
            i = i + 1;
        }
    }
    proof {
        lemma_bit_algebra();
        if pos != 0 && i == 8 {
            assert(pos == 0);
        }
    }
    if pos & own == 0 {
        0
    } else {
        rev
    }
}

/// Finds the stones flipped if `black` plays at `position`: for each of the
/// eight directions, the adjacent run of `white` stones closed off by a
/// `black` stone.  Empty when `position` is occupied or nothing flips.
pub fn reversible_stones(black: BitBoard, white: BitBoard, position: Move) -> (r: BitBoard)
    ensures
        r == reversible_spec(black, white, position),
{
    // Make sure no stone sits at `position`.
    if (black | white) & position != 0 {
        return 0;
    }
    scan_dir(black, white, position, Direction::Up) | scan_dir(
        black,
        white,
        position,
        Direction::Down,
    ) | scan_dir(black, white, position, Direction::Left) | scan_dir(
        black,
        white,
        position,
        Direction::Right,
    ) | scan_dir(black, white, position, Direction::UpLeft) | scan_dir(
        black,
        white,
        position,
        Direction::UpRight,
    ) | scan_dir(black, white, position, Direction::DownLeft) | scan_dir(
        black,
        white,
        position,
        Direction::DownRight,
    )
}

/// The empty cells that capture a run of `white` stones lying left (west),
/// computed by six shift-and-mask slides.
pub open spec fn block_right(black: u64, white: u64) -> u64 {
    let m = white & H_SENTINEL;
    let t1 = m & (black >> 1);
    let t2 = t1 | (m & (t1 >> 1));
    let t3 = t2 | (m & (t2 >> 1));
    let t4 = t3 | (m & (t3 >> 1));
    let t5 = t4 | (m & (t4 >> 1));
    let t6 = t5 | (m & (t5 >> 1));
    !(black | white) & (t6 >> 1)
}

/// The slide result of `block_right` agrees with the directional scan of
/// `dir_flips`.
proof fn lemma_block_right_scan(black: u64, white: u64, p: u64)
    requires
        black & white == 0,
        single_bit(p),
        p & (black | white) == 0,
    ensures
        (block_right(black, white) & p != 0) <==> (dir_flips(black, white, p, Direction::Left)
            != 0),
{
    lemma_bit_algebra();
    let s1 = shift_left(p);
    let s2 = shift_left(s1);
    let s3 = shift_left(s2);
    let s4 = shift_left(s3);
    let s5 = shift_left(s4);
    let s6 = shift_left(s5);
    let s7 = shift_left(s6);
    let s8 = shift_left(s7);
    let d = Direction::Left;
    assert(shift_spec(p, d) == s1);
    assert(ends_on_own(black, white, s8, d, 0) == false);
    assert(ends_on_own(black, white, s1, d, 7) == (if s1 & white != 0 {
        ends_on_own(black, white, s2, d, 6)
    } else {
        s1 & black != 0
    }));
    assert(ends_on_own(black, white, s2, d, 6) == (if s2 & white != 0 {
        ends_on_own(black, white, s3, d, 5)
    } else {
        s2 & black != 0
    }));
    assert(ends_on_own(black, white, s3, d, 5) == (if s3 & white != 0 {
        ends_on_own(black, white, s4, d, 4)
    } else {
        s3 & black != 0
    }));
    assert(ends_on_own(black, white, s4, d, 4) == (if s4 & white != 0 {
        ends_on_own(black, white, s5, d, 3)
    } else {
        s4 & black != 0
    }));
    assert(ends_on_own(black, white, s5, d, 3) == (if s5 & white != 0 {
        ends_on_own(black, white, s6, d, 2)
    } else {
        s5 & black != 0
    }));
    assert(ends_on_own(black, white, s6, d, 2) == (if s6 & white != 0 {
        ends_on_own(black, white, s7, d, 1)
    } else {
        s6 & black != 0
    }));
    assert(ends_on_own(black, white, s7, d, 1) == (if s7 & white != 0 {
        false
    } else {
        s7 & black != 0
    }));
    if s1 & white != 0 {
        assert(opp_run(white, s1, d, 7) == s1 | opp_run(white, s2, d, 6));
        assert(s1 != 0);
        assert(opp_run(white, s1, d, 7) != 0);
    } else {
        assert(opp_run(white, s1, d, 7) == 0);
    }
    assert((dir_flips(black, white, p, d) != 0) == (s1 & white != 0 && ends_on_own(
        black,
        white,
        s2,
        d,
        6,
    )));
    assert((block_right(black, white) & p != 0) <==> (s1 & white != 0 && (if s2 & white != 0 {
        if s3 & white != 0 {
            if s4 & white != 0 {
                if s5 & white != 0 {
                    if s6 & white != 0 {
                        if s7 & white != 0 {
                            false
                        } else {
                            s7 & black != 0
                        }
                    } else {
                        s6 & black != 0
                    }
                } else {
                    s5 & black != 0
                }
            } else {
                s4 & black != 0
            }
        } else {
            s3 & black != 0
        }
    } else {
        s2 & black != 0
    }))) by (bit_vector)
        requires
            black & white == 0,
            p != 0,
            p & ((p - 1) as u64) == 0,
            p & (black | white) == 0,
            s1 == shift_left(p),
            s2 == shift_left(s1),
            s3 == shift_left(s2),
            s4 == shift_left(s3),
            s5 == shift_left(s4),
            s6 == shift_left(s5),
            s7 == shift_left(s6),
    ;
}

/// The empty cells that capture a run of `white` stones lying below them (south),
/// computed by six shift-and-mask slides.
pub open spec fn block_up(black: u64, white: u64) -> u64 {
    let m = white & V_SENTINEL;
    let t1 = m & (black << 8);
    let t2 = t1 | (m & (t1 << 8));
    let t3 = t2 | (m & (t2 << 8));
    let t4 = t3 | (m & (t3 << 8));
    let t5 = t4 | (m & (t4 << 8));
    let t6 = t5 | (m & (t5 << 8));
    !(black | white) & (t6 << 8)
}

/// The slide result of `block_up` agrees with the directional scan of
/// `dir_flips`.
proof fn lemma_block_up_scan(black: u64, white: u64, p: u64)
    requires
        black & white == 0,
        single_bit(p),
        p & (black | white) == 0,
    ensures
        (block_up(black, white) & p != 0) <==> (dir_flips(black, white, p, Direction::Down)
            != 0),
{
    lemma_bit_algebra();
    let s1 = shift_down(p);
    let s2 = shift_down(s1);
    let s3 = shift_down(s2);
    let s4 = shift_down(s3);
    let s5 = shift_down(s4);
    let s6 = shift_down(s5);
    let s7 = shift_down(s6);
    let s8 = shift_down(s7);
    let d = Direction::Down;
    assert(shift_spec(p, d) == s1);
    assert(ends_on_own(black, white, s8, d, 0) == false);
    assert(ends_on_own(black, white, s1, d, 7) == (if s1 & white != 0 {
        ends_on_own(black, white, s2, d, 6)
    } else {
        s1 & black != 0
    }));
    assert(ends_on_own(black, white, s2, d, 6) == (if s2 & white != 0 {
        ends_on_own(black, white, s3, d, 5)
    } else {
        s2 & black != 0
    }));
    assert(ends_on_own(black, white, s3, d, 5) == (if s3 & white != 0 {
        ends_on_own(black, white, s4, d, 4)
    } else {
        s3 & black != 0
    }));
    assert(ends_on_own(black, white, s4, d, 4) == (if s4 & white != 0 {
        ends_on_own(black, white, s5, d, 3)
    } else {
        s4 & black != 0
    }));
    assert(ends_on_own(black, white, s5, d, 3) == (if s5 & white != 0 {
        ends_on_own(black, white, s6, d, 2)
    } else {
        s5 & black != 0
    }));
    assert(ends_on_own(black, white, s6, d, 2) == (if s6 & white != 0 {
        ends_on_own(black, white, s7, d, 1)
    } else {
        s6 & black != 0
    }));
    assert(ends_on_own(black, white, s7, d, 1) == (if s7 & white != 0 {
        false
    } else {
        s7 & black != 0
    }));
    if s1 & white != 0 {
        assert(opp_run(white, s1, d, 7) == s1 | opp_run(white, s2, d, 6));
        assert(s1 != 0);
        assert(opp_run(white, s1, d, 7) != 0);
    } else {
        assert(opp_run(white, s1, d, 7) == 0);
    }
    assert((dir_flips(black, white, p, d) != 0) == (s1 & white != 0 && ends_on_own(
        black,
        white,
        s2,
        d,
        6,
    )));
    assert((block_up(black, white) & p != 0) <==> (s1 & white != 0 && (if s2 & white != 0 {
        if s3 & white != 0 {
            if s4 & white != 0 {
                if s5 & white != 0 {
                    if s6 & white != 0 {
                        if s7 & white != 0 {
                            false
                        } else {
                            s7 & black != 0
                        }
                    } else {
                        s6 & black != 0
                    }
                } else {
                    s5 & black != 0
                }
            } else {
                s4 & black != 0
            }
        } else {
            s3 & black != 0
        }
    } else {
        s2 & black != 0
    }))) by (bit_vector)
        requires
            black & white == 0,
            p != 0,
            p & ((p - 1) as u64) == 0,
            p & (black | white) == 0,
            s1 == shift_down(p),
            s2 == shift_down(s1),
            s3 == shift_down(s2),
            s4 == shift_down(s3),
            s5 == shift_down(s4),
            s6 == shift_down(s5),
            s7 == shift_down(s6),
    ;
}

/// The empty cells that capture a run of `white` stones lying above them (north),
/// computed by six shift-and-mask slides.
pub open spec fn block_down(black: u64, white: u64) -> u64 {
    let m = white & V_SENTINEL;
    let t1 = m & (black >> 8);
    let t2 = t1 | (m & (t1 >> 8));
    let t3 = t2 | (m & (t2 >> 8));
    let t4 = t3 | (m & (t3 >> 8));
    let t5 = t4 | (m & (t4 >> 8));
    let t6 = t5 | (m & (t5 >> 8));
    !(black | white) & (t6 >> 8)
}

/// The slide result of `block_down` agrees with the directional scan of
/// `dir_flips`.
proof fn lemma_block_down_scan(black: u64, white: u64, p: u64)
    requires
        black & white == 0,
        single_bit(p),
        p & (black | white) == 0,
    ensures
        (block_down(black, white) & p != 0) <==> (dir_flips(black, white, p, Direction::Up)
            != 0),
{
    lemma_bit_algebra();
    let s1 = shift_up(p);
    let s2 = shift_up(s1);
    let s3 = shift_up(s2);
    let s4 = shift_up(s3);
    let s5 = shift_up(s4);
    let s6 = shift_up(s5);
    let s7 = shift_up(s6);
    let s8 = shift_up(s7);
    let d = Direction::Up;
    assert(shift_spec(p, d) == s1);
    assert(ends_on_own(black, white, s8, d, 0) == false);
    assert(ends_on_own(black, white, s1, d, 7) == (if s1 & white != 0 {
        ends_on_own(black, white, s2, d, 6)
    } else {
        s1 & black != 0
    }));
    assert(ends_on_own(black, white, s2, d, 6) == (if s2 & white != 0 {
        ends_on_own(black, white, s3, d, 5)
    } else {
        s2 & black != 0
    }));
    assert(ends_on_own(black, white, s3, d, 5) == (if s3 & white != 0 {
        ends_on_own(black, white, s4, d, 4)
    } else {
        s3 & black != 0
    }));
    assert(ends_on_own(black, white, s4, d, 4) == (if s4 & white != 0 {
        ends_on_own(black, white, s5, d, 3)
    } else {
        s4 & black != 0
    }));
    assert(ends_on_own(black, white, s5, d, 3) == (if s5 & white != 0 {
        ends_on_own(black, white, s6, d, 2)
    } else {
        s5 & black != 0
    }));
    assert(ends_on_own(black, white, s6, d, 2) == (if s6 & white != 0 {
        ends_on_own(black, white, s7, d, 1)
    } else {
        s6 & black != 0
    }));
    assert(ends_on_own(black, white, s7, d, 1) == (if s7 & white != 0 {
        false
    } else {
        s7 & black != 0
    }));
    if s1 & white != 0 {
        assert(opp_run(white, s1, d, 7) == s1 | opp_run(white, s2, d, 6));
        assert(s1 != 0);
        assert(opp_run(white, s1, d, 7) != 0);
    } else {
        assert(opp_run(white, s1, d, 7) == 0);
    }
    assert((dir_flips(black, white, p, d) != 0) == (s1 & white != 0 && ends_on_own(
        black,
        white,
        s2,
        d,
        6,
    )));
    assert((block_down(black, white) & p != 0) <==> (s1 & white != 0 && (if s2 & white != 0 {
        if s3 & white != 0 {
            if s4 & white != 0 {
                if s5 & white != 0 {
                    if s6 & white != 0 {
                        if s7 & white != 0 {
                            false
                        } else {
                            s7 & black != 0
                        }
                    } else {
                        s6 & black != 0
                    }
                } else {
                    s5 & black != 0
                }
            } else {
                s4 & black != 0
            }
        } else {
            s3 & black != 0
        }
    } else {
        s2 & black != 0
    }))) by (bit_vector)
        requires
            black & white == 0,
            p != 0,
            p & ((p - 1) as u64) == 0,
            p & (black | white) == 0,
            s1 == shift_up(p),
            s2 == shift_up(s1),
            s3 == shift_up(s2),
            s4 == shift_up(s3),
            s5 == shift_up(s4),
            s6 == shift_up(s5),
            s7 == shift_up(s6),
    ;
}

/// The empty cells that capture a run of `white` stones lying to their lower right (south east),
/// computed by six shift-and-mask slides.
pub open spec fn block_up_left(black: u64, white: u64) -> u64 {
    let m = white & B_SENTINEL;
    let t1 = m & (black << 9);
    let t2 = t1 | (m & (t1 << 9));
    let t3 = t2 | (m & (t2 << 9));
    let t4 = t3 | (m & (t3 << 9));
    let t5 = t4 | (m & (t4 << 9));
    let t6 = t5 | (m & (t5 << 9));
    !(black | white) & (t6 << 9)
}

/// The slide result of `block_up_left` agrees with the directional scan of
/// `dir_flips`.
proof fn lemma_block_up_left_scan(black: u64, white: u64, p: u64)
    requires
        black & white == 0,
        single_bit(p),
        p & (black | white) == 0,
    ensures
        (block_up_left(black, white) & p != 0) <==> (dir_flips(black, white, p, Direction::DownRight)
            != 0),
{
    lemma_bit_algebra();
    let s1 = shift_down_right(p);
    let s2 = shift_down_right(s1);
    let s3 = shift_down_right(s2);
    let s4 = shift_down_right(s3);
    let s5 = shift_down_right(s4);
    let s6 = shift_down_right(s5);
    let s7 = shift_down_right(s6);
    let s8 = shift_down_right(s7);
    let d = Direction::DownRight;
    assert(shift_spec(p, d) == s1);
    assert(ends_on_own(black, white, s8, d, 0) == false);
    assert(ends_on_own(black, white, s1, d, 7) == (if s1 & white != 0 {
        ends_on_own(black, white, s2, d, 6)
    } else {
        s1 & black != 0
    }));
    assert(ends_on_own(black, white, s2, d, 6) == (if s2 & white != 0 {
        ends_on_own(black, white, s3, d, 5)
    } else {
        s2 & black != 0
    }));
    assert(ends_on_own(black, white, s3, d, 5) == (if s3 & white != 0 {
        ends_on_own(black, white, s4, d, 4)
    } else {
        s3 & black != 0
    }));
    assert(ends_on_own(black, white, s4, d, 4) == (if s4 & white != 0 {
        ends_on_own(black, white, s5, d, 3)
    } else {
        s4 & black != 0
    }));
    assert(ends_on_own(black, white, s5, d, 3) == (if s5 & white != 0 {
        ends_on_own(black, white, s6, d, 2)
    } else {
        s5 & black != 0
    }));
    assert(ends_on_own(black, white, s6, d, 2) == (if s6 & white != 0 {
        ends_on_own(black, white, s7, d, 1)
    } else {
        s6 & black != 0
    }));
    assert(ends_on_own(black, white, s7, d, 1) == (if s7 & white != 0 {
        false
    } else {
        s7 & black != 0
    }));
    if s1 & white != 0 {
        assert(opp_run(white, s1, d, 7) == s1 | opp_run(white, s2, d, 6));
        assert(s1 != 0);
        assert(opp_run(white, s1, d, 7) != 0);
    } else {
        assert(opp_run(white, s1, d, 7) == 0);
    }
    assert((dir_flips(black, white, p, d) != 0) == (s1 & white != 0 && ends_on_own(
        black,
        white,
        s2,
        d,
        6,
    )));
    assert((block_up_left(black, white) & p != 0) <==> (s1 & white != 0 && (if s2 & white != 0 {
        if s3 & white != 0 {
            if s4 & white != 0 {
                if s5 & white != 0 {
                    if s6 & white != 0 {
                        if s7 & white != 0 {
                            false
                        } else {
                            s7 & black != 0
                        }
                    } else {
                        s6 & black != 0
                    }
                } else {
                    s5 & black != 0
                }
            } else {
                s4 & black != 0
            }
        } else {
            s3 & black != 0
        }
    } else {
        s2 & black != 0
    }))) by (bit_vector)
        requires
            black & white == 0,
            p != 0,
            p & ((p - 1) as u64) == 0,
            p & (black | white) == 0,
            s1 == shift_down_right(p),
            s2 == shift_down_right(s1),
            s3 == shift_down_right(s2),
            s4 == shift_down_right(s3),
            s5 == shift_down_right(s4),
            s6 == shift_down_right(s5),
            s7 == shift_down_right(s6),
    ;
}

/// The empty cells that capture a run of `white` stones lying to their lower left (south west),
/// computed by six shift-and-mask slides.
pub open spec fn block_up_right(black: u64, white: u64) -> u64 {
    let m = white & B_SENTINEL;
    let t1 = m & (black << 7);
    let t2 = t1 | (m & (t1 << 7));
    let t3 = t2 | (m & (t2 << 7));
    let t4 = t3 | (m & (t3 << 7));
    let t5 = t4 | (m & (t4 << 7));
    let t6 = t5 | (m & (t5 << 7));
    !(black | white) & (t6 << 7)
}

/// The slide result of `block_up_right` agrees with the directional scan of
/// `dir_flips`.
proof fn lemma_block_up_right_scan(black: u64, white: u64, p: u64)
    requires
        black & white == 0,
        single_bit(p),
        p & (black | white) == 0,
    ensures
        (block_up_right(black, white) & p != 0) <==> (dir_flips(black, white, p, Direction::DownLeft)
            != 0),
{
    lemma_bit_algebra();
    let s1 = shift_down_left(p);
    let s2 = shift_down_left(s1);
    let s3 = shift_down_left(s2);
    let s4 = shift_down_left(s3);
    let s5 = shift_down_left(s4);
    let s6 = shift_down_left(s5);
    let s7 = shift_down_left(s6);
    let s8 = shift_down_left(s7);
    let d = Direction::DownLeft;
    assert(shift_spec(p, d) == s1);
    assert(ends_on_own(black, white, s8, d, 0) == false);
    assert(ends_on_own(black, white, s1, d, 7) == (if s1 & white != 0 {
        ends_on_own(black, white, s2, d, 6)
    } else {
        s1 & black != 0
    }));
    assert(ends_on_own(black, white, s2, d, 6) == (if s2 & white != 0 {
        ends_on_own(black, white, s3, d, 5)
    } else {
        s2 & black != 0
    }));
    assert(ends_on_own(black, white, s3, d, 5) == (if s3 & white != 0 {
        ends_on_own(black, white, s4, d, 4)
    } else {
        s3 & black != 0
    }));
    assert(ends_on_own(black, white, s4, d, 4) == (if s4 & white != 0 {
        ends_on_own(black, white, s5, d, 3)
    } else {
        s4 & black != 0
    }));
    assert(ends_on_own(black, white, s5, d, 3) == (if s5 & white != 0 {
        ends_on_own(black, white, s6, d, 2)
    } else {
        s5 & black != 0
    }));
    assert(ends_on_own(black, white, s6, d, 2) == (if s6 & white != 0 {
        ends_on_own(black, white, s7, d, 1)
    } else {
        s6 & black != 0
    }));
    assert(ends_on_own(black, white, s7, d, 1) == (if s7 & white != 0 {
        false
    } else {
        s7 & black != 0
    }));
    if s1 & white != 0 {
        assert(opp_run(white, s1, d, 7) == s1 | opp_run(white, s2, d, 6));
        assert(s1 != 0);
        assert(opp_run(white, s1, d, 7) != 0);
    } else {
        assert(opp_run(white, s1, d, 7) == 0);
    }
    assert((dir_flips(black, white, p, d) != 0) == (s1 & white != 0 && ends_on_own(
        black,
        white,
        s2,
        d,
        6,
    )));
    assert((block_up_right(black, white) & p != 0) <==> (s1 & white != 0 && (if s2 & white != 0 {
        if s3 & white != 0 {
            if s4 & white != 0 {
                if s5 & white != 0 {
                    if s6 & white != 0 {
                        if s7 & white != 0 {
                            false
                        } else {
                            s7 & black != 0
                        }
                    } else {
                        s6 & black != 0
                    }
                } else {
                    s5 & black != 0
                }
            } else {
                s4 & black != 0
            }
        } else {
            s3 & black != 0
        }
    } else {
        s2 & black != 0
    }))) by (bit_vector)
        requires
            black & white == 0,
            p != 0,
            p & ((p - 1) as u64) == 0,
            p & (black | white) == 0,
            s1 == shift_down_left(p),
            s2 == shift_down_left(s1),
            s3 == shift_down_left(s2),
            s4 == shift_down_left(s3),
            s5 == shift_down_left(s4),
            s6 == shift_down_left(s5),
            s7 == shift_down_left(s6),
    ;
}

/// The empty cells that capture a run of `white` stones lying to their upper right (north east),
/// computed by six shift-and-mask slides.
pub open spec fn block_down_left(black: u64, white: u64) -> u64 {
    let m = white & B_SENTINEL;
    let t1 = m & (black >> 7);
    let t2 = t1 | (m & (t1 >> 7));
    let t3 = t2 | (m & (t2 >> 7));
    let t4 = t3 | (m & (t3 >> 7));
    let t5 = t4 | (m & (t4 >> 7));
    let t6 = t5 | (m & (t5 >> 7));
    !(black | white) & (t6 >> 7)
}

/// The slide result of `block_down_left` agrees with the directional scan of
/// `dir_flips`.
proof fn lemma_block_down_left_scan(black: u64, white: u64, p: u64)
    requires
        black & white == 0,
        single_bit(p),
        p & (black | white) == 0,
    ensures
        (block_down_left(black, white) & p != 0) <==> (dir_flips(black, white, p, Direction::UpRight)
            != 0),
{
    lemma_bit_algebra();
    let s1 = shift_up_right(p);
    let s2 = shift_up_right(s1);
    let s3 = shift_up_right(s2);
    let s4 = shift_up_right(s3);
    let s5 = shift_up_right(s4);
    let s6 = shift_up_right(s5);
    let s7 = shift_up_right(s6);
    let s8 = shift_up_right(s7);
    let d = Direction::UpRight;
    assert(shift_spec(p, d) == s1);
    assert(ends_on_own(black, white, s8, d, 0) == false);
    assert(ends_on_own(black, white, s1, d, 7) == (if s1 & white != 0 {
        ends_on_own(black, white, s2, d, 6)
    } else {
        s1 & black != 0
    }));
    assert(ends_on_own(black, white, s2, d, 6) == (if s2 & white != 0 {
        ends_on_own(black, white, s3, d, 5)
    } else {
        s2 & black != 0
    }));
    assert(ends_on_own(black, white, s3, d, 5) == (if s3 & white != 0 {
        ends_on_own(black, white, s4, d, 4)
    } else {
        s3 & black != 0
    }));
    assert(ends_on_own(black, white, s4, d, 4) == (if s4 & white != 0 {
        ends_on_own(black, white, s5, d, 3)
    } else {
        s4 & black != 0
    }));
    assert(ends_on_own(black, white, s5, d, 3) == (if s5 & white != 0 {
        ends_on_own(black, white, s6, d, 2)
    } else {
        s5 & black != 0
    }));
    assert(ends_on_own(black, white, s6, d, 2) == (if s6 & white != 0 {
        ends_on_own(black, white, s7, d, 1)
    } else {
        s6 & black != 0
    }));
    assert(ends_on_own(black, white, s7, d, 1) == (if s7 & white != 0 {
        false
    } else {
        s7 & black != 0
    }));
    if s1 & white != 0 {
        assert(opp_run(white, s1, d, 7) == s1 | opp_run(white, s2, d, 6));
        assert(s1 != 0);
        assert(opp_run(white, s1, d, 7) != 0);
    } else {
        assert(opp_run(white, s1, d, 7) == 0);
    }
    assert((dir_flips(black, white, p, d) != 0) == (s1 & white != 0 && ends_on_own(
        black,
        white,
        s2,
        d,
        6,
    )));
    assert((block_down_left(black, white) & p != 0) <==> (s1 & white != 0 && (if s2 & white != 0 {
        if s3 & white != 0 {
            if s4 & white != 0 {
                if s5 & white != 0 {
                    if s6 & white != 0 {
                        if s7 & white != 0 {
                            false
                        } else {
                            s7 & black != 0
                        }
                    } else {
                        s6 & black != 0
                    }
                } else {
                    s5 & black != 0
                }
            } else {
                s4 & black != 0
            }
        } else {
            s3 & black != 0
        }
    } else {
        s2 & black != 0
    }))) by (bit_vector)
        requires
            black & white == 0,
            p != 0,
            p & ((p - 1) as u64) == 0,
            p & (black | white) == 0,
            s1 == shift_up_right(p),
            s2 == shift_up_right(s1),
            s3 == shift_up_right(s2),
            s4 == shift_up_right(s3),
            s5 == shift_up_right(s4),
            s6 == shift_up_right(s5),
            s7 == shift_up_right(s6),
    ;
}

/// The empty cells that capture a run of `white` stones lying to their upper left (north west),
/// computed by six shift-and-mask slides.
pub open spec fn block_down_right(black: u64, white: u64) -> u64 {
    let m = white & B_SENTINEL;
    let t1 = m & (black >> 9);
    let t2 = t1 | (m & (t1 >> 9));
    let t3 = t2 | (m & (t2 >> 9));
    let t4 = t3 | (m & (t3 >> 9));
    let t5 = t4 | (m & (t4 >> 9));
    let t6 = t5 | (m & (t5 >> 9));
    !(black | white) & (t6 >> 9)
}

/// The slide result of `block_down_right` agrees with the directional scan of
/// `dir_flips`.
proof fn lemma_block_down_right_scan(black: u64, white: u64, p: u64)
    requires
        black & white == 0,
        single_bit(p),
        p & (black | white) == 0,
    ensures
        (block_down_right(black, white) & p != 0) <==> (dir_flips(black, white, p, Direction::UpLeft)
            != 0),
{
    lemma_bit_algebra();
    let s1 = shift_up_left(p);
    let s2 = shift_up_left(s1);
    let s3 = shift_up_left(s2);
    let s4 = shift_up_left(s3);
    let s5 = shift_up_left(s4);
    let s6 = shift_up_left(s5);
    let s7 = shift_up_left(s6);
    let s8 = shift_up_left(s7);
    let d = Direction::UpLeft;
    assert(shift_spec(p, d) == s1);
    assert(ends_on_own(black, white, s8, d, 0) == false);
    assert(ends_on_own(black, white, s1, d, 7) == (if s1 & white != 0 {
        ends_on_own(black, white, s2, d, 6)
    } else {
        s1 & black != 0
    }));
    assert(ends_on_own(black, white, s2, d, 6) == (if s2 & white != 0 {
        ends_on_own(black, white, s3, d, 5)
    } else {
        s2 & black != 0
    }));
    assert(ends_on_own(black, white, s3, d, 5) == (if s3 & white != 0 {
        ends_on_own(black, white, s4, d, 4)
    } else {
        s3 & black != 0
    }));
    assert(ends_on_own(black, white, s4, d, 4) == (if s4 & white != 0 {
        ends_on_own(black, white, s5, d, 3)
    } else {
        s4 & black != 0
    }));
    assert(ends_on_own(black, white, s5, d, 3) == (if s5 & white != 0 {
        ends_on_own(black, white, s6, d, 2)
    } else {
        s5 & black != 0
    }));
    assert(ends_on_own(black, white, s6, d, 2) == (if s6 & white != 0 {
        ends_on_own(black, white, s7, d, 1)
    } else {
        s6 & black != 0
    }));
    assert(ends_on_own(black, white, s7, d, 1) == (if s7 & white != 0 {
        false
    } else {
        s7 & black != 0
    }));
    if s1 & white != 0 {
        assert(opp_run(white, s1, d, 7) == s1 | opp_run(white, s2, d, 6));
        assert(s1 != 0);
        assert(opp_run(white, s1, d, 7) != 0);
    } else {
        assert(opp_run(white, s1, d, 7) == 0);
    }
    assert((dir_flips(black, white, p, d) != 0) == (s1 & white != 0 && ends_on_own(
        black,
        white,
        s2,
        d,
        6,
    )));
    assert((block_down_right(black, white) & p != 0) <==> (s1 & white != 0 && (if s2 & white != 0 {
        if s3 & white != 0 {
            if s4 & white != 0 {
                if s5 & white != 0 {
                    if s6 & white != 0 {
                        if s7 & white != 0 {
                            false
                        } else {
                            s7 & black != 0
                        }
                    } else {
                        s6 & black != 0
                    }
                } else {
                    s5 & black != 0
                }
            } else {
                s4 & black != 0
            }
        } else {
            s3 & black != 0
        }
    } else {
        s2 & black != 0
    }))) by (bit_vector)
        requires
            black & white == 0,
            p != 0,
            p & ((p - 1) as u64) == 0,
            p & (black | white) == 0,
            s1 == shift_up_left(p),
            s2 == shift_up_left(s1),
            s3 == shift_up_left(s2),
            s4 == shift_up_left(s3),
            s5 == shift_up_left(s4),
            s6 == shift_up_left(s5),
            s7 == shift_up_left(s6),
    ;
}

/// All legal destinations for `black` against `white`: the union of the
/// eight directional slide results.
pub open spec fn legal_mask(black: u64, white: u64) -> u64 {
    block_left(black, white) | block_right(black, white) | block_up(black, white) | block_down(
        black,
        white,
    ) | block_up_left(black, white) | block_up_right(black, white) | block_down_left(black, white)
        | block_down_right(black, white)
}

/// Splitting a union of eight masks under `&` and under a test for zero.
proof fn lemma_or8(
    x1: u64, x2: u64, x3: u64, x4: u64, x5: u64, x6: u64, x7: u64, x8: u64, p: u64,
)
    by (bit_vector)
    ensures
        (((x1 | x2 | x3 | x4 | x5 | x6 | x7 | x8) & p) != 0) == ((x1 & p) != 0 || (x2 & p) != 0
            || (x3 & p) != 0 || (x4 & p) != 0 || (x5 & p) != 0 || (x6 & p) != 0 || (x7 & p) != 0
            || (x8 & p) != 0),
        ((x1 | x2 | x3 | x4 | x5 | x6 | x7 | x8) != 0) == (x1 != 0 || x2 != 0 || x3 != 0 || x4
            != 0 || x5 != 0 || x6 != 0 || x7 != 0 || x8 != 0),
{
}

/// A mask disjoint from `c` cannot meet a single-bit value inside `c`.
proof fn lemma_subset_disjoint(m: u64, c: u64, p: u64)
    by (bit_vector)
    requires
        m & c == 0,
        p & ((p - 1) as u64) == 0,
        p & c != 0,
    ensures
        m & p == 0,
{
}

/// `&` commutes.
proof fn lemma_and_comm(a: u64, b: u64)
    by (bit_vector)
    ensures
        a & b == b & a,
{
}

/// A cell holds a legal move exactly when it is empty and flips at least
/// one stone: the slide-based move generator and the directional scan of
/// `reversible_spec` agree on every cell of every well-formed board.
#[verifier::rlimit(80)]
pub proof fn lemma_legal_matches_reversible(black: u64, white: u64, p: u64)
    requires
        black & white == 0,
        single_bit(p),
    ensures
        (legal_mask(black, white) & p != 0) <==> (p & (black | white) == 0 && reversible_spec(
            black,
            white,
            p,
        ) != 0),
{
    lemma_bit_algebra();
    lemma_and_comm(black | white, p);
    lemma_or8(
        block_left(black, white),
        block_right(black, white),
        block_up(black, white),
        block_down(black, white),
        block_up_left(black, white),
        block_up_right(black, white),
        block_down_left(black, white),
        block_down_right(black, white),
        p,
    );
    if p & (black | white) == 0 {
        lemma_block_left_scan(black, white, p);
        lemma_block_right_scan(black, white, p);
        lemma_block_up_scan(black, white, p);
        lemma_block_down_scan(black, white, p);
        lemma_block_up_left_scan(black, white, p);
        lemma_block_up_right_scan(black, white, p);
        lemma_block_down_left_scan(black, white, p);
        lemma_block_down_right_scan(black, white, p);
        lemma_or8(
            dir_flips(black, white, p, Direction::Up),
            dir_flips(black, white, p, Direction::Down),
            dir_flips(black, white, p, Direction::Left),
            dir_flips(black, white, p, Direction::Right),
            dir_flips(black, white, p, Direction::UpLeft),
            dir_flips(black, white, p, Direction::UpRight),
            dir_flips(black, white, p, Direction::DownLeft),
            dir_flips(black, white, p, Direction::DownRight),
            p,
        );
    } else {
        assert((black | white) & p != 0);
        assert(reversible_spec(black, white, p) == 0);
        lemma_legal_mask_empty_cells(black, white);
        lemma_subset_disjoint(legal_mask(black, white), black | white, p);
    }
}

/// Finds all legal moves for the `black` player: the empty cells from which
/// some direction holds a run of `white` stones closed off by a `black`
/// stone.  Stated both as the slide formula `legal_mask` and cell by cell
/// against the directional scan `reversible_spec`.
pub fn legal_moves(black: BitBoard, white: BitBoard) -> (moves: Moves)
    requires
        black & white == 0,
    ensures
        moves == legal_mask(black, white),
        forall|p: u64|
            single_bit(p) ==> ((#[trigger] (moves & p) != 0) <==> (p & (black | white) == 0
                && reversible_spec(black, white, p) != 0)),
{
    let hole = !(black | white);
    let mut moves: Moves = 0;
    let mut tmp: BitBoard;
    let mut mask: BitBoard;

    // left
    mask = white & H_SENTINEL;
    tmp = mask & (black << 1);
    tmp |= mask & (tmp << 1);
    tmp |= mask & (tmp << 1);
    tmp |= mask & (tmp << 1);
    tmp |= mask & (tmp << 1);
    tmp |= mask & (tmp << 1);
    let mv_left = hole & (tmp << 1);

    // right
    tmp = mask & (black >> 1);
    tmp |= mask & (tmp >> 1);
    tmp |= mask & (tmp >> 1);
    tmp |= mask & (tmp >> 1);
    tmp |= mask & (tmp >> 1);
    tmp |= mask & (tmp >> 1);
    let mv_right = hole & (tmp >> 1);

    // up
    mask = white & V_SENTINEL;
    tmp = mask & (black << 8);
    tmp |= mask & (tmp << 8);
    tmp |= mask & (tmp << 8);
    tmp |= mask & (tmp << 8);
    tmp |= mask & (tmp << 8);
    tmp |= mask & (tmp << 8);
    let mv_up = hole & (tmp << 8);

    // down
    tmp = mask & (black >> 8);
    tmp |= mask & (tmp >> 8);
    tmp |= mask & (tmp >> 8);
    tmp |= mask & (tmp >> 8);
    tmp |= mask & (tmp >> 8);
    tmp |= mask & (tmp >> 8);
    let mv_down = hole & (tmp >> 8);

    // upper-left
    mask = white & B_SENTINEL;
    tmp = mask & (black << 9);
    tmp |= mask & (tmp << 9);
    tmp |= mask & (tmp << 9);
    tmp |= mask & (tmp << 9);
    tmp |= mask & (tmp << 9);
    tmp |= mask & (tmp << 9);
    let mv_up_left = hole & (tmp << 9);

    // upper-right
    tmp = mask & (black << 7);
    tmp |= mask & (tmp << 7);
    tmp |= mask & (tmp << 7);
    tmp |= mask & (tmp << 7);
    tmp |= mask & (tmp << 7);
    tmp |= mask & (tmp << 7);
    let mv_up_right = hole & (tmp << 7);

    // down-left
    tmp = mask & (black >> 7);
    tmp |= mask & (tmp >> 7);
    tmp |= mask & (tmp >> 7);
    tmp |= mask & (tmp >> 7);
    tmp |= mask & (tmp >> 7);
    tmp |= mask & (tmp >> 7);
    let mv_down_left = hole & (tmp >> 7);

    // down-right
    tmp = mask & (black >> 9);
    tmp |= mask & (tmp >> 9);
    tmp |= mask & (tmp >> 9);
    tmp |= mask & (tmp >> 9);
    tmp |= mask & (tmp >> 9);
    tmp |= mask & (tmp >> 9);
    let mv_down_right = hole & (tmp >> 9);

    moves = mv_left | mv_right | mv_up | mv_down | mv_up_left | mv_up_right | mv_down_left
        | mv_down_right;
    proof {
        assert(mv_left == block_left(black, white));
        assert(mv_right == block_right(black, white));
        assert(mv_up == block_up(black, white));
        assert(mv_down == block_down(black, white));
        assert(mv_up_left == block_up_left(black, white));
        assert(mv_up_right == block_up_right(black, white));
        assert(mv_down_left == block_down_left(black, white));
        assert(mv_down_right == block_down_right(black, white));
        assert forall|p: u64| single_bit(p) implies ((#[trigger] (moves & p) != 0) <==> (p & (
        black | white) == 0 && reversible_spec(black, white, p) != 0)) by {
            lemma_legal_matches_reversible(black, white, p);
        }
    }
    moves
}

/// A one-step shift keeps a mask of at most one bit at most one bit.
proof fn lemma_shift_keeps_single(x: u64, direction: Direction)
    requires
        x & ((x - 1) as u64) == 0,
    ensures
        shift_spec(x, direction) & ((shift_spec(x, direction) - 1) as u64) == 0,
{
    lemma_bit_algebra();
    match direction {
        Direction::Up => assert(shift_up(x) & ((shift_up(x) - 1) as u64) == 0),
        Direction::Down => assert(shift_down(x) & ((shift_down(x) - 1) as u64) == 0),
        Direction::Left => assert(shift_left(x) & ((shift_left(x) - 1) as u64) == 0),
        Direction::Right => assert(shift_right(x) & ((shift_right(x) - 1) as u64) == 0),
        Direction::UpLeft => assert(shift_up_left(x) & ((shift_up_left(x) - 1) as u64) == 0),
        Direction::UpRight => assert(shift_up_right(x) & ((shift_up_right(x) - 1) as u64) == 0),
        Direction::DownLeft => assert(shift_down_left(x) & ((shift_down_left(x) - 1) as u64)
            == 0),
        Direction::DownRight => assert(shift_down_right(x) & ((shift_down_right(x) - 1) as u64)
            == 0),
    }
}

/// A run collected from a single-bit cursor stays inside `opp`.
proof fn lemma_opp_run_subset(opp: u64, cur: u64, direction: Direction, fuel: nat)
    requires
        cur & ((cur - 1) as u64) == 0,
    ensures
        opp_run(opp, cur, direction, fuel) & opp == opp_run(opp, cur, direction, fuel),
    decreases fuel,
{
    lemma_bit_algebra();
    if fuel == 0 {
    } else if cur & opp != 0 {
        lemma_shift_keeps_single(cur, direction);
        lemma_opp_run_subset(opp, shift_spec(cur, direction), direction, (fuel - 1) as nat);
        assert(cur & opp == cur);
        let rest = opp_run(opp, shift_spec(cur, direction), direction, (fuel - 1) as nat);
        assert((cur | rest) & opp == (cur & opp) | (rest & opp));
    }
}

/// The stones flipped by a single-bit move all belong to the opponent.
pub proof fn lemma_reversible_subset(own: u64, opp: u64, pos: u64)
    requires
        crate::bits::single_bit(pos),
    ensures
        reversible_spec(own, opp, pos) & opp == reversible_spec(own, opp, pos),
{
    lemma_bit_algebra();
    if (own | opp) & pos == 0 {
        lemma_dir_flips_subset(own, opp, pos, Direction::Up);
        lemma_dir_flips_subset(own, opp, pos, Direction::Down);
        lemma_dir_flips_subset(own, opp, pos, Direction::Left);
        lemma_dir_flips_subset(own, opp, pos, Direction::Right);
        lemma_dir_flips_subset(own, opp, pos, Direction::UpLeft);
        lemma_dir_flips_subset(own, opp, pos, Direction::UpRight);
        lemma_dir_flips_subset(own, opp, pos, Direction::DownLeft);
        lemma_dir_flips_subset(own, opp, pos, Direction::DownRight);
    }
}

proof fn lemma_dir_flips_subset(own: u64, opp: u64, pos: u64, direction: Direction)
    requires
        crate::bits::single_bit(pos),
    ensures
        dir_flips(own, opp, pos, direction) & opp == dir_flips(own, opp, pos, direction),
{
    lemma_bit_algebra();
    lemma_shift_keeps_single(pos, direction);
    lemma_opp_run_subset(opp, shift_spec(pos, direction), direction, 7);
}

/// The mask of the single cell at zero-based `row` and `col`: bit
/// `63 - (row * 8 + col)`, so that `a1` is bit 63 and `h8` is bit 0.
pub open spec fn cell_at(row: u64, col: u64) -> u64 {
    1u64 << ((63 - row * 8 - col) as u64)
}

/// The shift-and-mask encoding matches the compass reference: each
/// direction moves a cell one step along its row, column or diagonal,
/// and drops it at the board edge.
pub proof fn lemma_shift_geometry(row: u64, col: u64)
    requires
        row < 8,
        col < 8,
    ensures
        cell_at(row, col) == (1u64 << 63) >> ((row * 8 + col) as u64),
        shift_spec(cell_at(row, col), Direction::Up) == (if row > 0 {
            cell_at((row - 1) as u64, col)
        } else {
            0u64
        }),
        shift_spec(cell_at(row, col), Direction::Down) == (if row < 7 {
            cell_at((row + 1) as u64, col)
        } else {
            0u64
        }),
        shift_spec(cell_at(row, col), Direction::Left) == (if col > 0 {
            cell_at(row, (col - 1) as u64)
        } else {
            0u64
        }),
        shift_spec(cell_at(row, col), Direction::Right) == (if col < 7 {
            cell_at(row, (col + 1) as u64)
        } else {
            0u64
        }),
        shift_spec(cell_at(row, col), Direction::UpLeft) == (if row > 0 && col > 0 {
            cell_at((row - 1) as u64, (col - 1) as u64)
        } else {
            0u64
        }),
        shift_spec(cell_at(row, col), Direction::UpRight) == (if row > 0 && col < 7 {
            cell_at((row - 1) as u64, (col + 1) as u64)
        } else {
            0u64
        }),
        shift_spec(cell_at(row, col), Direction::DownLeft) == (if row < 7 && col > 0 {
            cell_at((row + 1) as u64, (col - 1) as u64)
        } else {
            0u64
        }),
        shift_spec(cell_at(row, col), Direction::DownRight) == (if row < 7 && col < 7 {
            cell_at((row + 1) as u64, (col + 1) as u64)
        } else {
            0u64
        }),
{
    assert(cell_at(row, col) == (1u64 << 63) >> ((row * 8 + col) as u64) && shift_up(
        cell_at(row, col),
    ) == (if row > 0 {
        cell_at((row - 1) as u64, col)
    } else {
        0u64
    }) && shift_down(cell_at(row, col)) == (if row < 7 {
        cell_at((row + 1) as u64, col)
    } else {
        0u64
    }) && shift_left(cell_at(row, col)) == (if col > 0 {
        cell_at(row, (col - 1) as u64)
    } else {
        0u64
    }) && shift_right(cell_at(row, col)) == (if col < 7 {
        cell_at(row, (col + 1) as u64)
    } else {
        0u64
    }) && shift_up_left(cell_at(row, col)) == (if row > 0 && col > 0 {
        cell_at((row - 1) as u64, (col - 1) as u64)
    } else {
        0u64
    }) && shift_up_right(cell_at(row, col)) == (if row > 0 && col < 7 {
        cell_at((row - 1) as u64, (col + 1) as u64)
    } else {
        0u64
    }) && shift_down_left(cell_at(row, col)) == (if row < 7 && col > 0 {
        cell_at((row + 1) as u64, (col - 1) as u64)
    } else {
        0u64
    }) && shift_down_right(cell_at(row, col)) == (if row < 7 && col < 7 {
        cell_at((row + 1) as u64, (col + 1) as u64)
    } else {
        0u64
    })) by (bit_vector)
        requires
            row < 8 && col < 8,
    ;
}


/// Legal destinations are empty cells: the move mask never meets a stone.
pub proof fn lemma_legal_mask_empty_cells(black: u64, white: u64)
    ensures
        legal_mask(black, white) & (black | white) == 0,
{
    lemma_bit_algebra();
    let occ = black | white;
    lemma_or8(
        block_left(black, white),
        block_right(black, white),
        block_up(black, white),
        block_down(black, white),
        block_up_left(black, white),
        block_up_right(black, white),
        block_down_left(black, white),
        block_down_right(black, white),
        occ,
    );
    assert(block_left(black, white) & occ == 0);
    assert(block_right(black, white) & occ == 0);
    assert(block_up(black, white) & occ == 0);
    assert(block_down(black, white) & occ == 0);
    assert(block_up_left(black, white) & occ == 0);
    assert(block_up_right(black, white) & occ == 0);
    assert(block_down_left(black, white) & occ == 0);
    assert(block_down_right(black, white) & occ == 0);
}

} // verus!
