use vstd::prelude::*;
use vstd::arithmetic::div_mod::{
    lemma_div_by_multiple, lemma_div_is_ordered, lemma_div_pos_is_pos,
};
use crate::constants::{BRIGHT_MAX, SCALE};

verus! {

/// Magnitude of a mathematical integer.
pub open spec fn abs_int(a: int) -> int {
    if a >= 0 {
        a
    } else {
        -a
    }
}

/// Division rounding towards zero, exactly as Rust's `/` behaves on signed
/// integers. Spec-level `/` is Euclidean, so contracts about executable
/// divisions are phrased through this function instead.
pub open spec fn tdiv(a: int, b: int) -> int
    recommends
        b != 0,
{
    if (a < 0) != (b < 0) {
        -(abs_int(a) / abs_int(b))
    } else {
        abs_int(a) / abs_int(b)
    }
}

/// A quotient rounded towards zero is bounded by any bound on the dividend:
/// if `|x| <= c * d` then `|x / d| <= c`.
pub proof fn lemma_tdiv_le(x: int, d: int, c: int)
    requires
        1 <= d,
        0 <= c,
        -(c * d) <= x <= c * d,
    ensures
        -c <= tdiv(x, d) <= c,
{
    let m = abs_int(x);
    lemma_div_is_ordered(m, c * d, d);
    lemma_div_by_multiple(c, d);
    lemma_div_pos_is_pos(m, d);
}

/// A non-positive dividend over a positive divisor stays non-positive.
pub proof fn lemma_tdiv_nonpos(x: int, d: int)
    requires
        1 <= d,
        x <= 0,
    ensures
        tdiv(x, d) <= 0,
{
    lemma_div_pos_is_pos(abs_int(x), d);
}

/// Truncating division on 128-bit integers.
pub fn tdiv_i128(a: i128, b: i128) -> (r: i128)
    requires
        b != 0,
        a > i128::MIN,
        b > i128::MIN,
    ensures
        r as int == tdiv(a as int, b as int),
{
    let neg: bool = (a < 0) != (b < 0);
    let ma: u128 = if a < 0 {
        (-a) as u128
    } else {
        a as u128
    };
    let mb: u128 = if b < 0 {
        (-b) as u128
    } else {
        b as u128
    };
    let q: u128 = ma / mb;
    proof {
        assert(ma as int <= ma as int * mb as int) by (nonlinear_arith)
            requires 1 <= mb as int, 0 <= ma as int;
        lemma_tdiv_le(ma as int, mb as int, ma as int);
    }
    if neg {
        -(q as i128)
    } else {
        q as i128
    }
}

/// Bounds on two factors bound their product.
pub proof fn lemma_abs_mul_le(a: int, b: int, ca: int, cb: int)
    requires
        -ca <= a <= ca,
        -cb <= b <= cb,
        0 <= ca,
        0 <= cb,
    ensures
        -(ca * cb) <= a * b <= ca * cb,
{
    assert(-(ca * cb) <= a * b <= ca * cb) by (nonlinear_arith)
        requires -ca <= a <= ca, -cb <= b <= cb, 0 <= ca, 0 <= cb;
}

/// Bounds on the factors of a fixed-point product bound the product:
/// if `|a| <= ca`, `|b| <= cb` and `ca * cb <= c * SCALE` then `|fmul(a, b)| <= c`.
pub proof fn lemma_fmul_le(a: int, b: int, ca: int, cb: int, c: int)
    requires
        -ca <= a <= ca,
        -cb <= b <= cb,
        0 <= ca,
        0 <= cb,
        0 <= c,
        ca * cb <= c * (SCALE as int),
    ensures
        -c <= fmul(a, b) <= c,
{
    lemma_abs_mul_le(a, b, ca, cb);
    lemma_tdiv_le(a * b, SCALE as int, c);
}

/// Holds when `r` is the integer square root (rounded down) of `n`.
pub open spec fn is_sqrt_floor(n: int, r: int) -> bool {
    0 <= r && r * r <= n && n < (r + 1) * (r + 1)
}

/// The integer square root of a non-negative integer, rounded down.
pub open spec fn sqrt_floor(n: int) -> int
    recommends
        n >= 0,
{
    choose|r: int| is_sqrt_floor(n, r)
}

/// Every non-negative integer has an integer square root.
pub proof fn lemma_sqrt_floor_exists(n: int)
    requires
        n >= 0,
    ensures
        is_sqrt_floor(n, sqrt_floor(n)),
    decreases n,
{
    if n == 0 {
        assert(is_sqrt_floor(0, 0));
    } else {
        lemma_sqrt_floor_exists(n - 1);
        let r = sqrt_floor(n - 1);
        if (r + 1) * (r + 1) <= n {
            assert(n < (r + 2) * (r + 2)) by (nonlinear_arith)
                requires n - 1 < (r + 1) * (r + 1), 0 <= r;
            assert(is_sqrt_floor(n, r + 1));
        } else {
            assert(is_sqrt_floor(n, r));
        }
    }
    let w = choose|x: int| is_sqrt_floor(n, x);
    assert(is_sqrt_floor(n, w));
}

/// The integer square root is unique: any witness is the square root.
pub proof fn lemma_sqrt_floor_unique(n: int, r: int)
    requires
        is_sqrt_floor(n, r),
    ensures
        sqrt_floor(n) == r,
{
    assert(is_sqrt_floor(n, r));
    let r2 = choose|x: int| is_sqrt_floor(n, x);
    if r2 < r {
        assert((r2 + 1) * (r2 + 1) <= r * r) by (nonlinear_arith)
            requires 0 <= r2 + 1, r2 + 1 <= r;
        assert(false);
    }
    if r < r2 {
        assert((r + 1) * (r + 1) <= r2 * r2) by (nonlinear_arith)
            requires 0 <= r + 1, r + 1 <= r2;
        assert(false);
    }
}

/// Integer square root by bisection: the largest `r` with `r * r <= n`.
pub fn isqrt(n: u128) -> (r: u128)
    requires
        (n as int) < 0x4000_0000_0000_0000_0000_0000_0000_0000,
    ensures
        r as int == sqrt_floor(n as int),
        is_sqrt_floor(n as int, r as int),
{
    let mut lo: u128 = 0;
    let mut hi: u128 = 0x8000_0000_0000_0000;
    proof {
        assert((hi as int) * (hi as int) == 0x4000_0000_0000_0000_0000_0000_0000_0000)
            by (nonlinear_arith)
            requires hi as int == 0x8000_0000_0000_0000;
    }
    while lo + 1 < hi
        invariant
            lo < hi,
            hi <= 0x8000_0000_0000_0000,
            (lo as int) * (lo as int) <= n as int,
            (n as int) < (hi as int) * (hi as int),
        decreases hi - lo,
    {
        let mid: u128 = lo + (hi - lo) / 2;
        proof {
            assert((mid as int) * (mid as int) <= 0x4000_0000_0000_0000_0000_0000_0000_0000)
                by (nonlinear_arith)
                requires 0 <= mid as int, mid as int <= 0x8000_0000_0000_0000;
        }
        if mid * mid <= n {
            lo = mid;
        } else {
            hi = mid;
        }
    }
    proof {
        lemma_sqrt_floor_unique(n as int, lo as int);
    }
    lo
}

/// Product of two fixed-point values: the double-width product scaled back
/// down, rounding towards zero.
pub open spec fn fmul(a: int, b: int) -> int {
    tdiv(a * b, SCALE as int)
}

/// Quotient of two fixed-point values, rounding towards zero.
pub open spec fn fdiv(a: int, b: int) -> int
    recommends
        b != 0,
{
    tdiv(a * (SCALE as int), b)
}

/// Fixed-point multiplication.
pub fn mul_fixed(a: i64, b: i64) -> (r: i64)
    requires
        i64::MIN <= fmul(a as int, b as int) <= i64::MAX,
    ensures
        r as int == fmul(a as int, b as int),
{
    proof {
        lemma_i64_product_fits(a as int, b as int);
    }
    let p: i128 = (a as i128) * (b as i128);
    let q: i128 = tdiv_i128(p, SCALE as i128);
    q as i64
}

/// The product of two 64-bit values always fits comfortably in 128 bits.
pub proof fn lemma_i64_product_fits(a: int, b: int)
    requires
        i64::MIN <= a <= i64::MAX,
        i64::MIN <= b <= i64::MAX,
    ensures
        i128::MIN < a * b < i128::MAX,
{
    assert(i128::MIN < a * b < i128::MAX) by (nonlinear_arith)
        requires -0x8000_0000_0000_0000 <= a <= 0x7fff_ffff_ffff_ffff,
            -0x8000_0000_0000_0000 <= b <= 0x7fff_ffff_ffff_ffff;
}

/// Fixed-point division.
pub fn div_fixed(a: i64, b: i64) -> (r: i64)
    requires
        b != 0,
        i64::MIN <= fdiv(a as int, b as int) <= i64::MAX,
    ensures
        r as int == fdiv(a as int, b as int),
{
    proof {
        lemma_i64_product_fits(a as int, SCALE as int);
    }
    let p: i128 = (a as i128) * (SCALE as i128);
    let q: i128 = tdiv_i128(p, b as i128);
    q as i64
}

/// Holds when two fixed-point values differ by less than the tolerance.
pub open spec fn eps_eq(a: int, b: int) -> bool {
    abs_int(a - b) < crate::constants::EPSILON as int
}

/// Approximate equality of two fixed-point values, the shared tolerance of
/// the geometry types.
pub fn approx_eq(a: i64, b: i64) -> (r: bool)
    ensures
        r == eps_eq(a as int, b as int),
{
    let d: i128 = a as i128 - b as i128;
    let e: i128 = crate::constants::EPSILON as i128;
    -e < d && d < e
}

/// What `map_range` returns: `value` carried from the span `fs..fe` into the
/// span `ts..te` by linear interpolation.
pub open spec fn map_range_spec(value: int, fs: int, fe: int, ts: int, te: int) -> int
    recommends
        fe != fs,
{
    ts + tdiv((value - fs) * (te - ts), fe - fs)
}

/// Linearly remaps `value` from the span `from` to the span `to`.
pub fn map_range(value: i64, from: core::ops::Range<i64>, to: core::ops::Range<i64>) -> (r: i64)
    requires
        from.end != from.start,
        -(BRIGHT_MAX as int) <= value as int <= BRIGHT_MAX as int,
        -(BRIGHT_MAX as int) <= from.start as int <= BRIGHT_MAX as int,
        -(BRIGHT_MAX as int) <= from.end as int <= BRIGHT_MAX as int,
        -(BRIGHT_MAX as int) <= to.start as int <= BRIGHT_MAX as int,
        -(BRIGHT_MAX as int) <= to.end as int <= BRIGHT_MAX as int,
        i64::MIN <= map_range_spec(
            value as int,
            from.start as int,
            from.end as int,
            to.start as int,
            to.end as int,
        ) <= i64::MAX,
    ensures
        r as int == map_range_spec(
            value as int,
            from.start as int,
            from.end as int,
            to.start as int,
            to.end as int,
        ),
{
    proof {
        assert(
            -4_000_000_000_000_000_000_000_000_000_000 <= (value as int - from.start as int) * (
            to.end as int - to.start as int) <= 4_000_000_000_000_000_000_000_000_000_000
        ) by (nonlinear_arith)
            requires
                -2_000_000_000_000_000 <= value as int - from.start as int
                    <= 2_000_000_000_000_000,
                -2_000_000_000_000_000 <= to.end as int - to.start as int
                    <= 2_000_000_000_000_000,
        ;
    }
    let num: i128 = (value as i128 - from.start as i128) * (to.end as i128 - to.start as i128);
    let den: i128 = from.end as i128 - from.start as i128;
    let q: i128 = tdiv_i128(num, den);
    proof {
        let m = abs_int(num as int);
        assert(m <= m * abs_int(den as int)) by (nonlinear_arith)
            requires 0 <= m, 1 <= abs_int(den as int);
        lemma_tdiv_le(num as int, abs_int(den as int), m);
    }
    (to.start as i128 + q) as i64
}

} // verus!
