//! Single-precision numbers carried as their IEEE-754 binary32 bit patterns.
//!
//! The schema's numeric fields are `f32` values. The library holds each one
//! as its bit pattern (`f32::to_bits`), and decides the schema's range checks
//! on those patterns exactly as IEEE-754 compares the numbers. Whole
//! numbers carried through binary32 arithmetic are rounded here as IEEE-754
//! rounds them.
use vstd::prelude::*;
use vstd::arithmetic::power2::{
    lemma2_to64, lemma2_to64_rest, lemma_pow2_adds, lemma_pow2_pos, lemma_pow2_strictly_increases,
    lemma_pow2_unfold, pow2,
};

verus! {

/// Bit pattern of `0.0`.
pub const ZERO: u32 = 0x0000_0000;

/// Bit pattern of `0.001` (the nearest binary32 value).
pub const ONE_THOUSANDTH: u32 = 0x3A83_126F;

/// Bit pattern of `0.1` (the nearest binary32 value).
pub const ONE_TENTH: u32 = 0x3DCC_CCCD;

/// Bit pattern of `0.5`.
pub const HALF: u32 = 0x3F00_0000;

/// Bit pattern of `1.0`.
pub const ONE: u32 = 0x3F80_0000;

/// Bit pattern of `4.0`.
pub const FOUR: u32 = 0x4080_0000;

/// Bit pattern of `20.0`.
pub const TWENTY: u32 = 0x41A0_0000;

/// The sign bit is set.
pub open spec fn is_negative(bits: u32) -> bool {
    bits >= 0x8000_0000
}

/// The pattern without its sign bit.
pub open spec fn magnitude(bits: u32) -> int {
    (bits % 0x8000_0000) as int
}

/// All exponent bits set and a nonzero fraction: not a number.
pub open spec fn is_nan(bits: u32) -> bool {
    magnitude(bits) > 0x7F80_0000
}

/// Position of a number on the real line: non-NaN patterns order by their
/// signed magnitude, and the two zeros share position 0.
pub open spec fn order_key(bits: u32) -> int {
    if is_negative(bits) {
        -magnitude(bits)
    } else {
        magnitude(bits)
    }
}

/// IEEE-754 `a <= b`: false whenever either side is NaN.
pub open spec fn le(a: u32, b: u32) -> bool {
    !is_nan(a) && !is_nan(b) && order_key(a) <= order_key(b)
}

/// `(lo..=hi).contains(&v)`, that is `lo <= v && v <= hi`.
pub open spec fn within(v: u32, lo: u32, hi: u32) -> bool {
    le(lo, v) && le(v, hi)
}

/// IEEE-754 `a > b`: false whenever either side is NaN.
pub open spec fn gt(a: u32, b: u32) -> bool {
    !is_nan(a) && !is_nan(b) && order_key(a) > order_key(b)
}

/// Whether the number with pattern `a` is greater than that with pattern `b`.
pub fn greater(a: u32, b: u32) -> (r: bool)
    ensures
        r == gt(a, b),
{
    !nan(a) && !nan(b) && key(a) > key(b)
}

/// Whether the number with pattern `v` lies in the closed range `lo..=hi`.
pub fn in_range(v: u32, lo: u32, hi: u32) -> (r: bool)
    ensures
        r == within(v, lo, hi),
{
    let kv = key(v);
    let klo = key(lo);
    let khi = key(hi);
    !nan(v) && !nan(lo) && !nan(hi) && klo <= kv && kv <= khi
}

fn nan(bits: u32) -> (r: bool)
    ensures
        r == is_nan(bits),
{
    bits % 0x8000_0000 > 0x7F80_0000
}

fn key(bits: u32) -> (k: i64)
    ensures
        k == order_key(bits),
{
    let m = (bits % 0x8000_0000) as i64;
    if bits >= 0x8000_0000 {
        -m
    } else {
        m
    }
}


/// Number of binary digits of `n` (0 for 0).
pub open spec fn bit_length(n: nat) -> nat
    decreases n,
{
    if n == 0 {
        0
    } else {
        1 + bit_length(n / 2)
    }
}

/// `n / d` rounded to the nearest integer, ties to the even one.
pub open spec fn round_half_even(n: int, d: int) -> int {
    let f = n / d;
    let r = n % d;
    if 2 * r > d || (2 * r == d && f % 2 == 1) {
        f + 1
    } else {
        f
    }
}

/// `n as f32` for a whole number `n`: binary32 keeps 24 significant bits,
/// rounding to nearest, ties to even. The value is again a whole number.
pub open spec fn whole_to_binary32(n: nat) -> int {
    if bit_length(n) <= 24 {
        n as int
    } else {
        let k = (bit_length(n) - 24) as nat;
        round_half_even(n as int, pow2(k) as int) * pow2(k)
    }
}

/// `(p / q).round()` computed in binary32, for whole numbers `p >= q > 0`
/// where `p` is itself a binary32 value: the quotient is first rounded to
/// 24 significant bits (nearest, ties to even), then to a whole number
/// (halves away from zero).
pub open spec fn rounded_binary32_quotient(p: nat, q: nat) -> int {
    let l = bit_length(p / q);
    if l >= 24 {
        let k = (l - 24) as nat;
        round_half_even(p as int, (q * pow2(k)) as int) * pow2(k)
    } else {
        let s = (24 - l) as nat;
        let m = round_half_even((p * pow2(s)) as int, q as int);
        (m + pow2((s - 1) as nat)) / pow2(s) as int
    }
}

/// A number has fewer binary digits than any power of two above it, and
/// at least as many as any power at or below it.
pub proof fn lemma_bit_length_bounds(n: nat)
    ensures
        n < pow2(bit_length(n)),
        n > 0 ==> pow2((bit_length(n) - 1) as nat) <= n,
    decreases n,
{
    lemma_pow2_pos(bit_length(n));
    if n > 0 {
        lemma_bit_length_bounds(n / 2);
        lemma_pow2_unfold(bit_length(n));
        if n / 2 > 0 {
            lemma_pow2_unfold((bit_length(n) - 1) as nat);
        } else {
            assert(bit_length(0) == 0);
            lemma2_to64();
        }
    }
}

/// Below `2^m` a number has at most `m` binary digits.
pub proof fn lemma_bit_length_at_most(n: nat, m: nat)
    requires
        n < pow2(m),
    ensures
        bit_length(n) <= m,
{
    lemma_bit_length_bounds(n);
    if bit_length(n) > m {
        lemma_pow2_strictly_increases(m, (bit_length(n) - 1) as nat);
        if m == (bit_length(n) - 1) as nat {
        }
    }
}

fn bit_len(n: u64) -> (l: u64)
    ensures
        l == bit_length(n as nat),
        l <= 64,
{
    let mut cur = n;
    let mut l: u64 = 0;
    proof {
        lemma_bit_length_bounds(n as nat);
        lemma2_to64();
        lemma_bit_length_at_most(n as nat, 64);
    }
    while cur > 0
        invariant
            bit_length(n as nat) == l + bit_length(cur as nat),
            bit_length(n as nat) <= 64,
        decreases cur,
    {
        cur = cur / 2;
        l = l + 1;
    }
    l
}

fn power_of_two(k: u64) -> (r: u64)
    requires
        k <= 40,
    ensures
        r == pow2(k as nat),
{
    let mut r: u64 = 1;
    let mut i: u64 = 0;
    proof {
        lemma2_to64();
        lemma2_to64_rest();
    }
    while i < k
        invariant
            i <= k <= 40,
            r == pow2(i as nat),
            pow2(41) == 0x200_0000_0000,
        decreases k - i,
    {
        proof {
            lemma_pow2_unfold((i + 1) as nat);
            lemma_pow2_strictly_increases((i + 1) as nat, 41);
        }
        r = r * 2;
        i = i + 1;
    }
    r
}

fn round_even(n: u64, d: u64) -> (r: u64)
    requires
        d > 0,
        n / d < u64::MAX,
    ensures
        r == round_half_even(n as int, d as int),
        r <= n / d + 1,
{
    let f = n / d;
    let rem = n % d;
    if rem > d - rem || (rem == d - rem && f % 2 == 1) {
        f + 1
    } else {
        f
    }
}

/// `n as f32`, as the whole number it is.
pub fn whole_to_f32_value(n: u64) -> (r: u64)
    requires
        n <= 0x10_0000_0000,
    ensures
        r == whole_to_binary32(n as nat),
        r <= pow2(bit_length(n as nat)),
{
    proof {
        lemma_bit_length_bounds(n as nat);
    }
    let l = bit_len(n);
    if l <= 24 {
        proof {
            lemma_pow2_pos(l as nat);
        }
        n
    } else {
        proof {
            lemma2_to64();
            lemma2_to64_rest();
            lemma_bit_length_at_most(n as nat, 37);
            lemma_pow2_adds(24, (l - 24) as nat);
        }
        let k = l - 24;
        let d = power_of_two(k);
        let m = round_even(n, d);
        proof {
            let big = pow2(24) as int;
            assert(n < big * d);
            assert((n as int) / (d as int) < big) by (nonlinear_arith)
                requires
                    n < big * d,
                    d > 0,
            ;
            assert(m * d <= big * d) by (nonlinear_arith)
                requires
                    m <= big,
                    d > 0,
            ;
        }
        m * d
    }
}

/// `(p as f32 / q as f32).round()` for whole `p >= q > 0` where `p` is a
/// binary32 value.
pub fn rounded_f32_quotient(p: u64, q: u64) -> (r: u64)
    requires
        0 < q <= 16,
        q <= p <= 0x20_0000_0000,
    ensures
        r == rounded_binary32_quotient(p as nat, q as nat),
{
    let f0 = p / q;
    proof {
        assert(f0 <= p) by (nonlinear_arith)
            requires
                f0 == p / q,
                q > 0,
        ;
        lemma_bit_length_bounds(f0 as nat);
        lemma2_to64();
        lemma2_to64_rest();
        lemma_bit_length_at_most(f0 as nat, 38);
        assert(p < q * pow2(bit_length(f0 as nat))) by (nonlinear_arith)
            requires
                f0 == p / q,
                f0 < pow2(bit_length(f0 as nat)),
                q > 0,
        ;
    }
    let l = bit_len(f0);
    if l >= 24 {
        let k = l - 24;
        let pk = power_of_two(k);
        proof {
            lemma_pow2_pos(k as nat);
            lemma_pow2_strictly_increases(k as nat, 15);
            assert(q * pk <= 16 * 32768) by (nonlinear_arith)
                requires
                    q <= 16,
                    pk < 32768,
            ;
            assert(q * pk > 0) by (nonlinear_arith)
                requires
                    q > 0,
                    pk > 0,
            ;
        }
        let d = q * pk;
        let m = round_even(p, d);
        proof {
            lemma_pow2_adds(24, k as nat);
            let big = pow2(24) as int;
            assert(p < d * big) by (nonlinear_arith)
                requires
                    p < q * (big * pk),
                    d == q * pk,
            ;
            assert((p as int) / (d as int) < big) by (nonlinear_arith)
                requires
                    p < d * big,
                    d > 0,
            ;
            assert(m * pk <= big * pk) by (nonlinear_arith)
                requires
                    m <= big,
                    pk > 0,
            ;
        }
        m * pk
    } else {
        let s = 24 - l;
        let ps = power_of_two(s);
        proof {
            lemma_pow2_adds(l as nat, s as nat);
            let big = pow2(24) as int;
            assert(p * ps < q * big) by (nonlinear_arith)
                requires
                    p < q * pow2(l as nat),
                    big == pow2(l as nat) * ps,
                    ps > 0,
            ;
            lemma_pow2_unfold(s as nat);
        }
        let n = p * ps;
        let m = round_even(n, q);
        let half = power_of_two(s - 1);
        (m + half) / ps
    }
}

} // verus!
