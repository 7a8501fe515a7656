//! Bit-counting helpers over `u64` masks.

use vstd::prelude::*;

verus! {

/// True when `x` has exactly one bit set.
pub open spec fn single_bit(x: u64) -> bool {
    x != 0 && x & ((x - 1) as u64) == 0
}

/// The number of set bits in `x`.
pub open spec fn count_bits(x: u64) -> nat
    decreases x,
{
    if x == 0 {
        0
    } else {
        ((x % 2) + count_bits(x / 2)) as nat
    }
}

/// Counts the set bits of `x`.
pub fn count_ones_u64(x: u64) -> (r: u32)
    ensures
        r == count_bits(x),
{
    let mut v = x;
    let mut n: u32 = 0;
    proof {
        lemma_count_bits_le_64(x);
    }
    while v != 0
        invariant
            n + count_bits(v) == count_bits(x),
            count_bits(x) <= 64,
        decreases v,
    {
        proof {
            assert(v & 1 == v % 2) by (bit_vector);
            assert(v >> 1u64 == v / 2) by (bit_vector);
        }
        n = n + (v & 1) as u32;
        v = v >> 1u64;
    }
    n
}

/// No 64-bit value has more than 64 set bits.
pub proof fn lemma_count_bits_le_64(x: u64)
    ensures
        count_bits(x) <= 64,
{
    lemma_count_bits_le_width(x, 64u64);
}

proof fn lemma_count_bits_le_width(x: u64, n: u64)
    requires
        n <= 64,
        x < (1u64 << n) || n == 64,
    ensures
        count_bits(x) <= n,
    decreases n,
{
    if x == 0 {
    } else if n == 0 {
        assert(x < 1u64 << 0u64 ==> x == 0) by (bit_vector);
    } else {
        assert(x / 2 < (1u64 << ((n - 1) as u64)) || n - 1 == 64)
            by (bit_vector)
            requires n <= 64 && n >= 1 && (x < (1u64 << n) || n == 64),
        ;
        lemma_count_bits_le_width(x / 2, (n - 1) as u64);
    }
}

/// Counting a union of disjoint masks adds the counts.
pub proof fn lemma_count_or_disjoint(a: u64, b: u64)
    requires
        a & b == 0,
    ensures
        count_bits(a | b) == count_bits(a) + count_bits(b),
    decreases a + b,
{
    lemma_halves_or(a, b);
    if a == 0 {
        assert((a | b) == b);
    } else if b == 0 {
        assert((a | b) == a);
    } else {
        lemma_count_or_disjoint(a / 2, b / 2);
        assert(count_bits(a | b) == (a | b) % 2 + count_bits((a | b) / 2));
    }
}

proof fn lemma_halves_or(a: u64, b: u64)
    by (bit_vector)
    requires
        a & b == 0,
    ensures
        (a | b) / 2 == (a / 2) | (b / 2),
        (a | b) % 2 == a % 2 + b % 2,
        (a / 2) & (b / 2) == 0,
        a == 0 ==> (a | b) == b,
        b == 0 ==> (a | b) == a,
{
}

/// Removing a subset `b` from `a` by xor removes its count.
pub proof fn lemma_count_xor_subset(a: u64, b: u64)
    requires
        b & a == b,
    ensures
        count_bits(a) == count_bits(a ^ b) + count_bits(b),
    decreases a,
{
    lemma_halves_xor(a, b);
    if a == 0 {
        assert(b == 0);
        assert((a ^ b) == 0);
    } else {
        lemma_count_xor_subset(a / 2, b / 2);
        assert(count_bits(a ^ b) == (a ^ b) % 2 + count_bits((a ^ b) / 2));
    }
}

proof fn lemma_halves_xor(a: u64, b: u64)
    by (bit_vector)
    requires
        b & a == b,
    ensures
        (a ^ b) / 2 == (a / 2) ^ (b / 2),
        a % 2 == (a ^ b) % 2 + b % 2,
        (b / 2) & (a / 2) == b / 2,
        a == 0 ==> b == 0 && (a ^ b) == 0,
        a != 0 ==> a / 2 < a,
{
}

/// A single-bit mask counts as one.
pub proof fn lemma_count_single(p: u64)
    requires
        single_bit(p),
    ensures
        count_bits(p) == 1,
    decreases p,
{
    if p == 1 {
        assert(count_bits(1u64) == 1 + count_bits(0u64));
    } else {
        assert(p % 2 == 0 && p / 2 != 0 && (p / 2) & (((p / 2) - 1) as u64) == 0) by (bit_vector)
            requires
                p != 0 && p != 1 && p & ((p - 1) as u64) == 0,
        ;
        lemma_count_single(p / 2);
    }
}

/// Only the empty mask counts as zero.
pub proof fn lemma_count_zero(x: u64)
    ensures
        (count_bits(x) == 0) <==> (x == 0),
    decreases x,
{
    if x != 0 && x % 2 == 0 {
        lemma_count_zero(x / 2);
    }
}

/// The lowest set bit of `m`.
pub open spec fn low_bit(m: u64) -> u64 {
    1u64 << (vstd::std_specs::bits::u64_trailing_zeros(m) as u64)
}

/// Facts about the lowest set bit of a non-empty mask.
pub proof fn lemma_low_bit(m: u64)
    requires
        m != 0,
    ensures
        single_bit(low_bit(m)),
        low_bit(m) & m == low_bit(m),
        m & low_bit(m) == low_bit(m),
        (m & !low_bit(m)) < m,
        (m & !low_bit(m)) & low_bit(m) == 0,
        m & (m & !low_bit(m)) == m & !low_bit(m),
        (m & !low_bit(m)) | low_bit(m) == m,
{
    vstd::std_specs::bits::axiom_u64_trailing_zeros(m);
    let t = vstd::std_specs::bits::u64_trailing_zeros(m) as u64;
    let l = low_bit(m);
    assert(l != 0 && l & ((l - 1) as u64) == 0 && l & m == l && m & l == l && (m & !l) < m && (m
        & !l) & l == 0 && m & (m & !l) == m & !l && (m & !l) | l == m) by (bit_vector)
        requires
            t < 64 && (m >> t) & 1u64 == 1u64 && l == 1u64 << t && m != 0,
    ;
}

/// The set bits of `m`, lowest first, each as a mask of its own.
pub open spec fn move_list(m: u64) -> Seq<u64>
    decreases m,
    via move_list_decreases
{
    if m == 0 {
        Seq::empty()
    } else {
        seq![low_bit(m)] + move_list(m & !low_bit(m))
    }
}

#[via_fn]
proof fn move_list_decreases(m: u64) {
    if m != 0 {
        lemma_low_bit(m);
    }
}

/// Every entry of `move_list(m)` is a single bit of `m`.
pub proof fn lemma_move_list_props(m: u64)
    ensures
        forall|j: int|
            0 <= j < move_list(m).len() ==> single_bit(#[trigger] move_list(m)[j]) && m
                & move_list(m)[j] == move_list(m)[j],
    decreases m,
{
    if m != 0 {
        lemma_low_bit(m);
        let l = low_bit(m);
        let rest = m & !l;
        lemma_move_list_props(rest);
        assert forall|j: int| 0 <= j < move_list(m).len() implies single_bit(
            #[trigger] move_list(m)[j],
        ) && m & move_list(m)[j] == move_list(m)[j] by {
            if j == 0 {
                assert(move_list(m)[0] == l);
            } else {
                assert(move_list(m)[j] == move_list(rest)[j - 1]);
                lemma_subset_trans(move_list(rest)[j - 1], rest, m);
            }
        }
    }
}

/// Subset chains: a mask inside `b` stays inside any mask containing `b`.
pub proof fn lemma_subset_trans(a: u64, b: u64, c: u64)
    by (bit_vector)
    requires
        b & a == a,
        c & b == b,
    ensures
        c & a == a,
{
}

/// Dropping the lowest set bit lowers the count by one.
pub proof fn lemma_count_drop_low(m: u64)
    requires
        m != 0,
    ensures
        count_bits(m & !low_bit(m)) + 1 == count_bits(m),
{
    lemma_low_bit(m);
    lemma_count_or_disjoint(m & !low_bit(m), low_bit(m));
    lemma_count_single(low_bit(m));
}

/// A mask that counts one bit is a single bit.
pub proof fn lemma_count_one_single(x: u64)
    requires
        count_bits(x) == 1,
    ensures
        single_bit(x),
    decreases x,
{
    if x % 2 == 1 {
        lemma_count_zero(x / 2);
        assert(x != 0 && x & ((x - 1) as u64) == 0) by (bit_vector)
            requires
                x % 2 == 1 && x / 2 == 0,
        ;
    } else {
        lemma_count_one_single(x / 2);
        let y = x / 2;
        assert(x != 0 && x & ((x - 1) as u64) == 0) by (bit_vector)
            requires
                x % 2 == 0 && y == x / 2 && y != 0 && y & ((y - 1) as u64) == 0,
        ;
    }
}


/// Only the full mask counts sixty-four bits.
pub proof fn lemma_count_full(x: u64)
    requires
        count_bits(x) == 64,
    ensures
        x == u64::MAX,
{
    lemma_count_full_width(x, 64u64);
}

proof fn lemma_count_full_width(x: u64, n: u64)
    requires
        n <= 64,
        x < (1u64 << n) || n == 64,
        count_bits(x) == n,
    ensures
        n == 64 ==> x == u64::MAX,
        n < 64 ==> x == ((1u64 << n) - 1) as u64,
    decreases n,
{
    if n == 0 {
        assert(x < 1u64 << n ==> x == 0 && ((1u64 << n) - 1) as u64 == 0) by (bit_vector)
            requires
                n == 0,
        ;
    } else {
        assert(x / 2 < (1u64 << ((n - 1) as u64)) || n - 1 == 64)
            by (bit_vector)
            requires n <= 64 && n >= 1 && (x < (1u64 << n) || n == 64),
        ;
        lemma_count_bits_le_width(x / 2, (n - 1) as u64);
        assert(x % 2 == 1 && count_bits(x / 2) == n - 1);
        lemma_count_full_width(x / 2, (n - 1) as u64);
        let y = x / 2;
        assert(x == (if n == 64 { u64::MAX } else { ((1u64 << n) - 1) as u64 })) by (bit_vector)
            requires
                1 <= n <= 64,
                x % 2 == 1,
                y == x / 2,
                (n - 1 == 64 && y == u64::MAX) || (n - 1 < 64 && y == ((1u64 << ((n
                    - 1) as u64)) - 1) as u64),
        ;
    }
}

} // verus!
