//! Single cells and cell sets as the UI layers see them.
//!
//! A `Position` wraps a mask with exactly one bit set; `Positions` wraps
//! an arbitrary mask.  Both use the board numbering of `bitboard`: bit 63
//! is `a1`, bit 0 is `h8`, so the cell at column `x` and row `y` (both
//! zero-based, `a1` at the origin) is bit `63 - (y * 8 + x)`.

use vstd::prelude::*;
use vstd::string::StringSliceAdditionalSpecFns;
use crate::bitboard::cell_at;
use crate::bits;
use crate::bits::{low_bit, single_bit};

verus! {

/// A single cell of the board.
#[derive(Clone, Copy, PartialEq, Eq, Structural, Debug)]
pub struct Position(u64);

/// A set of cells of the board.
#[derive(Clone, Copy, PartialEq, Eq, Structural, Debug)]
pub struct Positions(u64);

/// The cell mask a two-byte notation such as `d3` denotes, or nothing
/// when the text is not a column letter followed by a row digit.
pub open spec fn parse_position_spec(bytes: Seq<u8>) -> Option<u64> {
    if bytes.len() == 2 && 'a' as u8 <= bytes[0] <= 'h' as u8 && '1' as u8 <= bytes[1] <= '8'
        as u8 {
        Some(
            (1u64 << 63) >> ((bytes[1] - '1' as u8) as u64 * 8 + (bytes[0] - 'a' as u8) as u64),
        )
    } else {
        None
    }
}

impl Position {
    /// The wrapped mask.
    pub closed spec fn spec_bits(self) -> u64 {
        self.0
    }

    /// A position is well formed when it holds exactly one cell.
    pub open spec fn wf(self) -> bool {
        single_bit(self.spec_bits())
    }

    /// Wraps a mask that must hold exactly one cell.
    pub fn new(position: u64) -> (r: Self)
        requires
            single_bit(position),
        ensures
            r.spec_bits() == position,
            r.wf(),
    {
        Position(position)
    }

    /// The cell at column `x` and row `y`, or nothing when either falls
    /// off the board.
    pub fn from_xy(x: i32, y: i32) -> (r: Option<Self>)
        ensures
            r is Some <==> (0 <= x <= 7 && 0 <= y <= 7),
            r matches Some(p) ==> p.spec_bits() == (1u64 << 63) >> (y * 8 + x) as u64 && p.wf(),
    {
        if 0 <= x && x <= 7 && 0 <= y && y <= 7 {
            let sh: u64 = (y * 8 + x) as u64;
            proof {
                assert((1u64 << 63) >> sh != 0 && ((1u64 << 63) >> sh) & ((((1u64 << 63) >> sh)
                    - 1) as u64) == 0) by (bit_vector)
                    requires
                        sh <= 63,
                ;
            }
            Some(Position((1u64 << 63) >> sh))
        } else {
            None
        }
    }

    /// The wrapped mask.
    pub fn as_bits(&self) -> (r: u64)
        ensures
            r == self.spec_bits(),
    {
        self.0
    }

    /// Wraps a mask, provided it holds exactly one cell.
    pub fn from_bits(position: u64) -> (r: Option<Self>)
        ensures
            r is Some <==> single_bit(position),
            r matches Some(p) ==> p.spec_bits() == position && p.wf(),
    {
        proof {
            bits::lemma_count_zero(position);
            if bits::count_bits(position) == 1 {
                bits::lemma_count_one_single(position);
            }
            if single_bit(position) {
                bits::lemma_count_single(position);
            }
        }
        if bits::count_ones_u64(position) != 1 {
            None
        } else {
            Some(Position(position))
        }
    }

    /// Parses a two-character notation such as `d3`: a column letter
    /// `a`..`h` followed by a row digit `1`..`8`.
    pub fn from_str(position_str: &str) -> (r: Result<Self, ()>)
        ensures
            r matches Ok(p) ==> parse_position_spec(position_str.spec_bytes()) == Some(
                p.spec_bits(),
            ) && p.wf(),
            r is Err ==> parse_position_spec(position_str.spec_bytes()) is None,
    {
        let ascii = position_str.as_bytes();

        if ascii.len() != 2 {
            return Err(());
        }

        let col: i32 = (ascii[0] as i32) - ('a' as i32);
        let row: i32 = (ascii[1] as i32) - ('1' as i32);

        if 0 <= col && col <= 7 && 0 <= row && row <= 7 {
            let sh: u64 = (row * 8 + col) as u64;
            proof {
                assert((1u64 << 63) >> sh != 0 && ((1u64 << 63) >> sh) & ((((1u64 << 63) >> sh)
                    - 1) as u64) == 0) by (bit_vector)
                    requires
                        sh <= 63,
                ;
            }
            Ok(Position((1u64 << 63) >> sh))
        } else {
            Err(())
        }
    }

    /// The zero-based column of the cell, `a` being column zero.
    pub fn x(&self) -> (r: i32)
        ensures
            r == vstd::std_specs::bits::u64_leading_zeros(self.spec_bits()) % 8,
    {
        proof {
            vstd::std_specs::bits::axiom_u64_leading_zeros(self.0);
        }
        (self.0.leading_zeros() % 8) as i32
    }

    /// The zero-based row of the cell, row `1` being row zero.
    pub fn y(&self) -> (r: i32)
        ensures
            r == vstd::std_specs::bits::u64_leading_zeros(self.spec_bits()) / 8,
    {
        proof {
            vstd::std_specs::bits::axiom_u64_leading_zeros(self.0);
        }
        (self.0.leading_zeros() / 8) as i32
    }
}

impl Positions {
    /// The wrapped mask.
    pub closed spec fn spec_bits(self) -> u64 {
        self.0
    }

    /// Wraps a set of cells.
    pub fn new(bits: u64) -> (r: Self)
        ensures
            r.spec_bits() == bits,
    {
        Positions(bits)
    }

    /// The full board.
    pub fn fill() -> (r: Self)
        ensures
            r.spec_bits() == 0xffff_ffff_ffff_ffffu64,
    {
        Self::new(0xffff_ffff_ffff_ffff)
    }

    /// The empty set.
    pub fn empty() -> (r: Self)
        ensures
            r.spec_bits() == 0,
    {
        Self::new(0)
    }

    /// The wrapped mask.
    pub fn as_bits(&self) -> (r: u64)
        ensures
            r == self.spec_bits(),
    {
        self.0
    }

    /// Whether `pos` lies in this set.
    pub fn contains(&self, pos: Position) -> (r: bool)
        ensures
            r == (pos.spec_bits() & self.spec_bits() != 0),
    {
        pos.as_bits() & self.0 != 0
    }

    /// Takes the lowest cell out of the set and returns it, or returns
    /// nothing once the set is empty.
    pub fn next(&mut self) -> (r: Option<Position>)
        ensures
            old(self).spec_bits() == 0 ==> r is None && *final(self) == *old(self),
            old(self).spec_bits() != 0 ==> (r matches Some(p) && p.spec_bits() == low_bit(
                old(self).spec_bits(),
            ) && p.wf() && final(self).spec_bits() == old(self).spec_bits() & !low_bit(
                old(self).spec_bits(),
            )),
    {
        if self.0 != 0 {
            proof {
                bits::lemma_low_bit(self.0);
            }
            let mov = 1u64 << self.0.trailing_zeros();
            self.0 &= !mov;
            Some(Position(mov))
        } else {
            None
        }
    }
}

/// The coordinate read-back of a single cell: the cell at `row`/`col`
/// has exactly `row * 8 + col` leading zero bits, so `x` returns its
/// column and `y` its row.
pub proof fn lemma_cell_coordinates(row: u64, col: u64)
    requires
        row < 8,
        col < 8,
    ensures
        vstd::std_specs::bits::u64_leading_zeros(cell_at(row, col)) == row * 8 + col,
{
    let p = cell_at(row, col);
    assert(p != 0 && p == 1u64 << ((63 - row * 8 - col) as u64)) by (bit_vector)
        requires
            row < 8 && col < 8 && p == cell_at(row, col),
    ;
    vstd::std_specs::bits::axiom_u64_leading_zeros(p);
    let t = vstd::std_specs::bits::u64_leading_zeros(p);
    let tu = t as u64;
    assert(t < 64);
    assert((p >> ((63 - tu) as u64)) & 1u64 != 0);
    assert(tu == row * 8 + col) by (bit_vector)
        requires
            row < 8 && col < 8,
            p == 1u64 << ((63 - row * 8 - col) as u64),
            tu < 64,
            (p >> ((63 - tu) as u64)) & 1u64 != 0,
    ;
}

} // verus!
