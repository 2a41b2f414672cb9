//! Exact integer helpers: absolute value, floor square root, and a
//! truncating multiply-then-divide, the primitives of the fixed-point
//! geometry.

use vstd::prelude::*;

verus! {

/// Magnitude bound on the first factor of `muldiv_trunc`.
pub const MULDIV_LIMIT_A: i128 = 50_000_000_000_000_000_000;

/// Magnitude bound on the second factor of `muldiv_trunc`; together with
/// `MULDIV_LIMIT_A` the product stays within an `i128`.
pub const MULDIV_LIMIT_B: i128 = 2_000_000_000;

/// Upper bound (exclusive) on the argument of `isqrt`: the square of `2^63`.
pub const ISQRT_BOUND: i128 = 85070591730234615865843651857942052864;

pub open spec fn iabs(a: int) -> int {
    if a < 0 {
        -a
    } else {
        a
    }
}

/// `r` is the floor of the square root of `n`.
pub open spec fn is_isqrt(n: int, r: int) -> bool {
    &&& 0 <= r
    &&& r * r <= n
    &&& n < (r + 1) * (r + 1)
}

/// The floor of the square root of a nonnegative integer.
pub open spec fn isqrt_spec(n: int) -> int {
    choose|r: int| is_isqrt(n, r)
}

/// Any two floor square roots of the same number coincide.
proof fn lemma_isqrt_unique(n: int, a: int, b: int)
    requires
        is_isqrt(n, a),
        is_isqrt(n, b),
    ensures
        a == b,
{
    if a < b {
        assert((a + 1) * (a + 1) <= b * b) by (nonlinear_arith)
            requires 0 <= a, 0 <= b, a + 1 <= b;
    }
    if b < a {
        assert((b + 1) * (b + 1) <= a * a) by (nonlinear_arith)
            requires 0 <= a, 0 <= b, b + 1 <= a;
    }
}

/// A value that satisfies `is_isqrt` is the value of `isqrt_spec`.
pub proof fn lemma_isqrt_value(n: int, r: int)
    requires
        is_isqrt(n, r),
    ensures
        isqrt_spec(n) == r,
{
    assert(exists|q: int| is_isqrt(n, q));
    let q = choose|q: int| is_isqrt(n, q);
    lemma_isqrt_unique(n, q, r);
}

/// Floor square root by binary search.
pub fn isqrt(n: i128) -> (r: i128)
    requires
        0 <= n < ISQRT_BOUND,
    ensures
        is_isqrt(n as int, r as int),
        r == isqrt_spec(n as int),
        0 <= r <= 9223372036854775807,
{
    let mut lo: i128 = 0;
    let mut hi: i128 = 9223372036854775808;
    assert(hi * hi == ISQRT_BOUND) by (nonlinear_arith)
        requires hi == 9223372036854775808i128;
    while lo + 1 < hi
        invariant
            0 <= lo < hi <= 9223372036854775808,
            lo * lo <= n,
            n < hi * hi,
        decreases hi - lo,
    {
        let mid = lo + (hi - lo) / 2;
        assert(lo < mid < hi);
        assert(mid * mid <= 9223372036854775808i128 * 9223372036854775808) by (nonlinear_arith)
            requires 0 <= mid <= 9223372036854775808i128;
        if mid * mid <= n {
            lo = mid;
        } else {
            hi = mid;
        }
    }
    proof {
        lemma_isqrt_value(n as int, lo as int);
    }
    lo
}

/// Multiply then divide, truncating toward zero, as fixed-point products do.
pub open spec fn muldiv_spec(a: int, b: int, d: int) -> int {
    if (a >= 0) == (b >= 0) {
        iabs(a) * iabs(b) / d
    } else {
        -(iabs(a) * iabs(b) / d)
    }
}

/// `a * b / d` truncated toward zero, exact over `i128` intermediates.
pub fn muldiv_trunc(a: i128, b: i128, d: i128) -> (r: i128)
    requires
        -MULDIV_LIMIT_A <= a <= MULDIV_LIMIT_A,
        -MULDIV_LIMIT_B <= b <= MULDIV_LIMIT_B,
        0 < d,
    ensures
        r == muldiv_spec(a as int, b as int, d as int),
{
    let neg = (a < 0) != (b < 0);
    let aa = if a < 0 { -a } else { a };
    let bb = if b < 0 { -b } else { b };
    assert(aa * bb <= MULDIV_LIMIT_A * MULDIV_LIMIT_B) by (nonlinear_arith)
        requires 0 <= aa <= MULDIV_LIMIT_A, 0 <= bb <= MULDIV_LIMIT_B;
    assert(0 <= aa * bb) by (nonlinear_arith)
        requires 0 <= aa, 0 <= bb;
    let q = (aa * bb) / d;
    if neg {
        -q
    } else {
        q
    }
}

/// The magnitude of a truncating multiply-divide is bounded by the divided
/// product of the argument bounds.
pub proof fn lemma_muldiv_bound(a: int, b: int, d: int, ba: int, bb: int)
    requires
        iabs(a) <= ba,
        iabs(b) <= bb,
        0 < d,
    ensures
        iabs(muldiv_spec(a, b, d)) <= ba * bb / d,
{
    assert(0 <= iabs(a) * iabs(b)) by (nonlinear_arith)
        requires 0 <= iabs(a), 0 <= iabs(b);
    assert(iabs(a) * iabs(b) <= ba * bb) by (nonlinear_arith)
        requires 0 <= iabs(a) <= ba, 0 <= iabs(b) <= bb;
    vstd::arithmetic::div_mod::lemma_div_is_ordered(iabs(a) * iabs(b), ba * bb, d);
    vstd::arithmetic::div_mod::lemma_div_pos_is_pos(iabs(a) * iabs(b), d);
}

/// When the product of the argument magnitudes is at most `m * d`, the
/// truncating multiply-divide has magnitude at most `m`.
pub proof fn lemma_muldiv_le(a: int, b: int, d: int, m: int)
    requires
        iabs(a) * iabs(b) <= m * d,
        0 < d,
        0 <= m,
    ensures
        iabs(muldiv_spec(a, b, d)) <= m,
{
    assert(0 <= iabs(a) * iabs(b)) by (nonlinear_arith)
        requires 0 <= iabs(a), 0 <= iabs(b);
    vstd::arithmetic::div_mod::lemma_div_is_ordered(iabs(a) * iabs(b), m * d, d);
    vstd::arithmetic::div_mod::lemma_div_multiples_vanish(m, d);
    vstd::arithmetic::div_mod::lemma_div_pos_is_pos(iabs(a) * iabs(b), d);
}

} // verus!
