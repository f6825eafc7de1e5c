use vstd::prelude::*;
use vstd::arithmetic::div_mod::{lemma_div_is_ordered, lemma_div_multiples_vanish};

verus! {

/// Sub-units in one unit of length: lengths are fixed-point numbers with
/// `UNIT` standing for 1.
pub const UNIT: i64 = 1024;

/// Largest magnitude of a coordinate; arithmetic on vectors saturates here.
pub const COORD_MAX: i64 = 0x100_0000_0000;

/// Largest magnitude of a position coordinate: half of `COORD_MAX`, so that
/// the difference of two positions is always representable.
pub const POS_MAX: i64 = 0x80_0000_0000;

/// `v` forced into `[lo, hi]`.
pub open spec fn clamp_int(v: int, lo: int, hi: int) -> int {
    if v < lo {
        lo
    } else if v > hi {
        hi
    } else {
        v
    }
}

/// `v` forced into the representable coordinate range.
pub open spec fn sat(v: int) -> int {
    clamp_int(v, -COORD_MAX as int, COORD_MAX as int)
}

pub open spec fn abs(v: int) -> int {
    if v < 0 {
        -v
    } else {
        v
    }
}

/// Quotient of `n` by `d`, rounded toward zero.
pub open spec fn tquot(n: int, d: int) -> int {
    let q = abs(n) / abs(d);
    if (n < 0) != (d < 0) {
        -q
    } else {
        q
    }
}

/// Quotient of `n` by `d`, rounded away from zero.
pub open spec fn aquot(n: int, d: int) -> int {
    let q = (abs(n) + abs(d) - 1) / abs(d);
    if (n < 0) != (d < 0) {
        -q
    } else {
        q
    }
}

/// `c` moved one step toward zero (zero stays zero).
pub open spec fn toward_zero(c: int) -> int {
    if c > 0 {
        c - 1
    } else if c < 0 {
        c + 1
    } else {
        0
    }
}

/// Fixed-point product, rounded toward zero, saturated.
pub open spec fn fx_mul(a: int, b: int) -> int {
    sat(tquot(a * b, UNIT as int))
}

/// Fixed-point quotient, rounded toward zero, saturated. A zero divisor
/// saturates toward the sign of the dividend, and `0 / 0` is `0`.
pub open spec fn fx_div(a: int, b: int) -> int {
    if b == 0 {
        if a > 0 {
            COORD_MAX as int
        } else if a < 0 {
            -COORD_MAX as int
        } else {
            0
        }
    } else {
        sat(tquot(a * UNIT as int, b))
    }
}

/// `r` is the integer square root of `n`.
pub open spec fn is_root(n: int, r: int) -> bool {
    0 <= r && r * r <= n && n < (r + 1) * (r + 1)
}

/// The integer square root (floor of the square root) of `n`.
pub open spec fn isqrt(n: int) -> int {
    choose|r: int| is_root(n, r)
}

pub proof fn lemma_square_monotonic(a: int, b: int)
    requires
        0 <= a <= b,
    ensures
        a * a <= b * b,
{
    assert(a * a <= b * b) by (nonlinear_arith)
        requires
            0 <= a <= b,
    ;
}

/// At most one integer square root exists.
pub proof fn lemma_root_unique(n: int, a: int, b: int)
    requires
        is_root(n, a),
        is_root(n, b),
    ensures
        a == b,
{
    if a < b {
        lemma_square_monotonic(a + 1, b);
    } else if b < a {
        lemma_square_monotonic(b + 1, a);
    }
}

/// A root that was found is the one `isqrt` names.
pub proof fn lemma_isqrt_is(n: int, r: int)
    requires
        is_root(n, r),
    ensures
        isqrt(n) == r,
{
    assert(is_root(n, isqrt(n)));
    lemma_root_unique(n, r, isqrt(n));
}

/// Every non-negative integer has an integer square root.
pub proof fn lemma_isqrt_root(n: int)
    requires
        n >= 0,
    ensures
        is_root(n, isqrt(n)),
    decreases n,
{
    if n == 0 {
        assert(is_root(0, 0));
    } else {
        lemma_isqrt_root(n - 1);
        let r = isqrt(n - 1);
        if (r + 1) * (r + 1) <= n {
            assert((r + 1) * (r + 1) == r * r + 2 * r + 1) by (nonlinear_arith);
            assert((r + 2) * (r + 2) == r * r + 4 * r + 4) by (nonlinear_arith);
            assert(is_root(n, r + 1));
        } else {
            assert(is_root(n, r));
        }
    }
}

/// A square strictly below another has the smaller non-negative base.
pub proof fn lemma_square_lt(a: int, b: int)
    requires
        0 <= a,
        0 <= b,
        a * a < b * b,
    ensures
        a < b,
{
    if a >= b {
        lemma_square_monotonic(b, a);
    }
}

pub proof fn lemma_isqrt_zero()
    ensures
        isqrt(0) == 0,
{
    assert(is_root(0, 0));
    lemma_isqrt_is(0, 0);
}

/// A square root of a number below `b * b` is below `b`.
pub proof fn lemma_root_below(n: int, r: int, b: int)
    requires
        is_root(n, r),
        0 <= b,
        n < b * b,
    ensures
        r < b,
        n > 0 ==> r > 0,
{
    if r >= b {
        lemma_square_monotonic(b, r);
    }
    if n > 0 && r == 0 {
        assert((r + 1) * (r + 1) == 1);
    }
}

/// The integer square root, by bisection.
pub fn int_sqrt(n: u128) -> (r: u64)
    requires
        n < 0x1_0000_0000_0000_0000_0000_0000_0000,
    ensures
        is_root(n as int, r as int),
        r == isqrt(n as int),
{
    let mut lo: u128 = 0;
    let mut hi: u128 = 0x100_0000_0000_0000;
    assert(hi * hi == 0x1_0000_0000_0000_0000_0000_0000_0000) by (nonlinear_arith)
        requires
            hi == 0x100_0000_0000_0000,
    ;
    while lo + 1 < hi
        invariant
            lo < hi <= 0x100_0000_0000_0000,
            lo * lo <= n,
            n < hi * hi,
        decreases hi - lo,
    {
        let mid: u128 = lo + (hi - lo) / 2;
        assert(mid * mid <= 0x1_0000_0000_0000_0000_0000_0000_0000) by (nonlinear_arith)
            requires
                mid < 0x100_0000_0000_0000,
        ;
        if mid * mid <= n {
            lo = mid;
        } else {
            hi = mid;
        }
    }
    proof {
        assert(hi == lo + 1);
        lemma_isqrt_is(n as int, lo as int);
    }
    lo as u64
}

/// `v` saturated into the coordinate range.
pub fn saturate(v: i128) -> (r: i64)
    ensures
        r == sat(v as int),
{
    if v < -(COORD_MAX as i128) {
        -COORD_MAX
    } else if v > COORD_MAX as i128 {
        COORD_MAX
    } else {
        v as i64
    }
}

/// Quotient rounded toward zero.
pub fn trunc_div(n: i128, d: i128) -> (r: i128)
    requires
        d != 0,
        n > i128::MIN,
        d > i128::MIN,
    ensures
        r == tquot(n as int, d as int),
{
    let an: i128 = if n < 0 { -n } else { n };
    let ad: i128 = if d < 0 { -d } else { d };
    let q: i128 = an / ad;
    if (n < 0) != (d < 0) {
        -q
    } else {
        q
    }
}

/// Quotient rounded away from zero.
pub fn away_div(n: i128, d: i128) -> (r: i128)
    requires
        d != 0,
        -0x1000_0000_0000_0000_0000_0000_0000_0000 <= n <= 0x1000_0000_0000_0000_0000_0000_0000_0000,
        -0x1000_0000_0000_0000_0000_0000_0000_0000 <= d <= 0x1000_0000_0000_0000_0000_0000_0000_0000,
    ensures
        r == aquot(n as int, d as int),
{
    let an: i128 = if n < 0 { -n } else { n };
    let ad: i128 = if d < 0 { -d } else { d };
    let q: i128 = (an + ad - 1) / ad;
    if (n < 0) != (d < 0) {
        -q
    } else {
        q
    }
}

/// Fixed-point product of two coordinates.
pub fn mul_fixed(a: i64, b: i64) -> (r: i64)
    ensures
        r == fx_mul(a as int, b as int),
{
    assert(-0x4000_0000_0000_0000_0000_0000_0000_0000 <= a * b <= 0x4000_0000_0000_0000_0000_0000_0000_0000)
        by (nonlinear_arith)
        requires
            -0x8000_0000_0000_0000 <= a <= 0x7fff_ffff_ffff_ffff,
            -0x8000_0000_0000_0000 <= b <= 0x7fff_ffff_ffff_ffff,
    ;
    let p: i128 = a as i128 * b as i128;
    saturate(trunc_div(p, UNIT as i128))
}

/// Fixed-point quotient of two coordinates.
pub fn div_fixed(a: i64, b: i64) -> (r: i64)
    ensures
        r == fx_div(a as int, b as int),
{
    if b == 0 {
        if a > 0 {
            COORD_MAX
        } else if a < 0 {
            -COORD_MAX
        } else {
            0
        }
    } else {
        let n: i128 = a as i128 * 1024;
        saturate(trunc_div(n, b as i128))
    }
}

/// A non-negative multiple of `m` divided by `m` is at most the multiplier.
pub proof fn lemma_div_le(a: int, m: int, s: int)
    requires
        0 <= a <= m * s,
        m > 0,
    ensures
        a / m <= s,
{
    lemma_div_is_ordered(a, m * s, m);
    lemma_div_multiples_vanish(s, m);
}

} // verus!
