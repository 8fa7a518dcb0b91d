//! Bitboards: one bit per square, a1 = bit 0 to h8 = bit 63.
use vstd::prelude::*;

verus! {

/// Bit `i` (0 = a1, 63 = h8) of a bitboard.
pub open spec fn bit(b: u64, i: u64) -> bool {
    (b >> i) & 1u64 == 1u64
}

/// The number of set bits among squares `0..n`.
pub open spec fn bits_below(b: u64, n: int) -> nat
    decreases n,
{
    if n <= 0 {
        0
    } else {
        bits_below(b, n - 1) + if bit(b, (n - 1) as u64) {
            1nat
        } else {
            0nat
        }
    }
}

/// The number of set bits of a bitboard.
pub open spec fn popcount(b: u64) -> nat {
    bits_below(b, 64)
}

/// `u64::count_ones`: the number of ones in the binary representation.
#[verifier::external_body]
pub(crate) fn count_ones(b: u64) -> (r: u32)
    ensures
        r == popcount(b),
{
    b.count_ones()
}

/// Bitwise facts about single bits, for indices on the board.
pub proof fn lemma_bit_ops(a: u64, b: u64, i: u64)
    requires
        i < 64,
    ensures
        bit(a & b, i) == (bit(a, i) && bit(b, i)),
        bit(a | b, i) == (bit(a, i) || bit(b, i)),
        bit(a ^ b, i) == (bit(a, i) != bit(b, i)),
        bit(!a, i) == !bit(a, i),
        bit(1u64 << i, i),
        bit(0u64, i) == false,
{
    assert(((a & b) >> i) & 1u64 == 1u64 <==> ((a >> i) & 1u64 == 1u64 && (b >> i) & 1u64
        == 1u64)) by (bit_vector)
        requires
            i < 64,
    ;
    assert(((a | b) >> i) & 1u64 == 1u64 <==> ((a >> i) & 1u64 == 1u64 || (b >> i) & 1u64
        == 1u64)) by (bit_vector)
        requires
            i < 64,
    ;
    assert(((a ^ b) >> i) & 1u64 == 1u64 <==> ((a >> i) & 1u64 == 1u64) != ((b >> i) & 1u64
        == 1u64)) by (bit_vector)
        requires
            i < 64,
    ;
    assert(((!a) >> i) & 1u64 == 1u64 <==> !((a >> i) & 1u64 == 1u64)) by (bit_vector)
        requires
            i < 64,
    ;
    assert(((1u64 << i) >> i) & 1u64 == 1u64) by (bit_vector)
        requires
            i < 64,
    ;
    assert((0u64 >> i) & 1u64 != 1u64) by (bit_vector);
}

/// A single-square bitboard has exactly that bit.
pub proof fn lemma_single_bit(i: u64, j: u64)
    requires
        i < 64,
        j < 64,
    ensures
        bit(1u64 << i, j) == (i == j),
{
    assert((((1u64 << i) >> j) & 1u64 == 1u64) == (i == j)) by (bit_vector)
        requires
            i < 64,
            j < 64,
    ;
}

/// Counting over more squares never counts fewer bits.
pub proof fn lemma_bits_below_mono(b: u64, m: int, n: int)
    requires
        m <= n,
    ensures
        bits_below(b, m) <= bits_below(b, n),
    decreases n - m,
{
    if m < n {
        lemma_bits_below_mono(b, m, n - 1);
    }
}

/// A bitboard has at most 64 set bits.
pub proof fn lemma_popcount_bound(b: u64)
    ensures
        popcount(b) <= 64,
{
    lemma_bits_below_bound(b, 64);
}

/// Among `n` squares at most `n` bits are set.
pub proof fn lemma_bits_below_bound(b: u64, n: int)
    requires
        n >= 0,
    ensures
        bits_below(b, n) <= n,
    decreases n,
{
    if n > 0 {
        lemma_bits_below_bound(b, n - 1);
    }
}

/// Test bit `i` of `b` in executable code.
#[inline]
pub fn has_bit(b: u64, i: u64) -> (r: bool)
    requires
        i < 64,
    ensures
        r == bit(b, i),
{
    (b >> i) & 1u64 == 1u64
}

/// The bitboard with only square `i` set.
#[inline]
pub fn square_bb(i: u64) -> (r: u64)
    requires
        i < 64,
    ensures
        r == 1u64 << i,
        forall|j: u64| j < 64 ==> (bit(r, j) <==> j == i),
{
    proof {
        assert forall|j: u64| j < 64 implies (bit(1u64 << i, j) <==> j == i) by {
            lemma_single_bit(i, j);
        }
    }
    1u64 << i
}

/// The sum of `f` over the squares `0..n` whose bit is set in `b`.
pub open spec fn sum_squares(b: u64, f: spec_fn(u64) -> int, n: int) -> int
    decreases n,
{
    if n <= 0 {
        0
    } else {
        sum_squares(b, f, n - 1) + if bit(b, (n - 1) as u64) {
            f((n - 1) as u64)
        } else {
            0
        }
    }
}

/// A sum of terms bounded by `k` is bounded by `k` times the number of squares.
pub proof fn lemma_sum_squares_bound(b: u64, f: spec_fn(u64) -> int, n: int, k: int)
    requires
        0 <= n <= 64,
        k >= 0,
        forall|i: u64| i < 64 ==> -k <= #[trigger] f(i) <= k,
    ensures
        -k * n <= sum_squares(b, f, n) <= k * n,
    decreases n,
{
    if n > 0 {
        lemma_sum_squares_bound(b, f, n - 1, k);
        let t = f((n - 1) as u64);
        assert(-k <= t <= k);
        assert(k * n == k * (n - 1) + k && -k * n == -k * (n - 1) - k) by (nonlinear_arith);
    }
}

/// The lowest set square of `b` at or above `i`, or 64 when there is none.
pub open spec fn lowest_from(b: u64, i: int) -> int
    decreases 64 - i,
{
    if i >= 64 {
        64
    } else if bit(b, i as u64) {
        i
    } else {
        lowest_from(b, i + 1)
    }
}

/// The lowest set square of `b`, or 64 when `b` is empty.
pub open spec fn lowest_square(b: u64) -> int {
    lowest_from(b, 0)
}

/// Finds the lowest set square, as the bitboard iterator yields first.
pub fn first_square(b: u64) -> (r: Option<u8>)
    ensures
        match r {
            None => lowest_square(b) == 64,
            Some(s) => s as int == lowest_square(b) && s < 64 && bit(b, s as u64),
        },
{
    let mut i: u64 = 0;
    while i < 64
        invariant
            i <= 64,
            lowest_square(b) == lowest_from(b, i as int),
        decreases 64 - i,
    {
        if has_bit(b, i) {
            return Some(i as u8);
        }
        i = i + 1;
    }
    None
}

/// Counts the set bits of `b`.
pub fn popcnt(b: u64) -> (r: u32)
    ensures
        r == popcount(b),
        r <= 64,
{
    proof {
        lemma_popcount_bound(b);
    }
    count_ones(b)
}

} // verus!
