//! Q16.16 fixed-point scalars.
//!
//! A scalar is an `i32` in units of 1/65536: the number it stands for is
//! `raw / ONE`. Sums, products and quotients are formed exactly in a wider
//! integer, cut towards zero and then saturated to the range of `i32`.

use vstd::prelude::*;

verus! {

/// A fixed-point number with sixteen fractional bits.
pub type Fixed = i32;

/// The fixed-point number one.
pub const ONE: i32 = 65536;

/// `v` limited to the range of a fixed-point scalar.
pub open spec fn saturate(v: int) -> int {
    if v < i32::MIN {
        i32::MIN as int
    } else if v > i32::MAX {
        i32::MAX as int
    } else {
        v
    }
}

/// The magnitude of `v`.
pub open spec fn magnitude(v: int) -> int {
    if v >= 0 {
        v
    } else {
        -v
    }
}

/// The quotient of `a` by `b`, cut towards zero.
pub open spec fn trunc_div(a: int, b: int) -> int
    recommends
        b != 0,
{
    if (a >= 0) == (b > 0) {
        magnitude(a) / magnitude(b)
    } else {
        -(magnitude(a) / magnitude(b))
    }
}

/// The product of two fixed-point numbers, before saturation.
pub open spec fn spec_product(a: Fixed, b: Fixed) -> int {
    trunc_div(a * b, ONE as int)
}

/// The quotient of two fixed-point numbers, before saturation.
pub open spec fn spec_quotient(a: Fixed, b: Fixed) -> int
    recommends
        b != 0,
{
    trunc_div(a * ONE, b as int)
}

/// Limits a wide value to the range of a fixed-point scalar.
pub fn saturating(v: i128) -> (r: Fixed)
    ensures
        r == saturate(v as int),
{
    if v < i32::MIN as i128 {
        i32::MIN
    } else if v > i32::MAX as i128 {
        i32::MAX
    } else {
        v as i32
    }
}

/// The fixed-point number that stands for the whole number `n`.
pub fn from_int(n: i32) -> (r: Fixed)
    ensures
        r == saturate(n * ONE),
{
    saturating(wide_product(n, ONE))
}

/// The whole part of `x`, cut towards zero.
pub fn to_int(x: Fixed) -> (r: i32)
    ensures
        r == trunc_div(x as int, ONE as int),
{
    x / ONE
}

/// The saturated sum of two fixed-point numbers.
pub fn plus(a: Fixed, b: Fixed) -> (r: Fixed)
    ensures
        r == saturate(a + b),
{
    saturating(a as i128 + b as i128)
}

/// The saturated difference of two fixed-point numbers.
pub fn minus(a: Fixed, b: Fixed) -> (r: Fixed)
    ensures
        r == saturate(a - b),
{
    saturating(a as i128 - b as i128)
}

/// The saturated product of two fixed-point numbers.
pub fn times(a: Fixed, b: Fixed) -> (r: Fixed)
    ensures
        r == saturate(spec_product(a, b)),
{
    let wide: i128 = wide_product(a, b);
    saturating(wide / (ONE as i128))
}

/// The saturated quotient of two fixed-point numbers.
pub fn over(a: Fixed, b: Fixed) -> (r: Fixed)
    requires
        b != 0,
    ensures
        r == saturate(spec_quotient(a, b)),
{
    let wide: i128 = wide_product(a, ONE);
    let dividend: i128 = if wide >= 0 { wide } else { -wide };
    let divisor: i128 = if b > 0 { b as i128 } else { -(b as i128) };
    let quotient: i128 = dividend / divisor;
    if (wide >= 0) == (b > 0) {
        saturating(quotient)
    } else {
        saturating(-quotient)
    }
}

/// The exact product of two scalars as a wide integer.
pub fn wide_product(a: i32, b: i32) -> (r: i128)
    ensures
        r == a * b,
        -0x4000_0000_0000_0000 <= r <= 0x4000_0000_0000_0000,
{
    proof {
        lemma_product_bound(a as int, b as int, 0x8000_0000, 0x8000_0000);
    }
    (a as i128) * (b as i128)
}

/// A product is bounded by the product of the bounds of its factors.
pub proof fn lemma_product_bound(a: int, b: int, m: int, n: int)
    requires
        -m <= a <= m,
        -n <= b <= n,
    ensures
        -(m * n) <= a * b <= m * n,
{
    assert(-(m * n) <= a * b <= m * n) by (nonlinear_arith)
        requires
            -m <= a <= m,
            -n <= b <= n,
    ;
}

/// Whether `r` is the square root of `n`, cut to a whole number.
pub open spec fn is_floor_sqrt(n: int, r: int) -> bool {
    r >= 0 && r * r <= n && n < (r + 1) * (r + 1)
}

/// Whether `r` is the saturated square root of `n`: the root cut to a whole
/// number, or the largest scalar where the root is beyond it.
pub open spec fn is_saturated_sqrt(n: int, r: int) -> bool {
    r >= 0 && r * r <= n && (r < i32::MAX ==> n < (r + 1) * (r + 1))
}

/// The square root of `n`, cut to a whole number.
pub fn floor_sqrt(n: u64) -> (r: u32)
    ensures
        is_floor_sqrt(n as int, r as int),
{
    let mut lo: u64 = 0;
    let mut hi: u64 = 0x1_0000_0000;
    assert(n < hi * hi) by (nonlinear_arith)
        requires
            hi == 0x1_0000_0000,
            n <= u64::MAX,
    ;
    while hi - lo > 1
        invariant
            lo < hi <= 0x1_0000_0000,
            lo * lo <= n,
            n < hi * hi,
        decreases hi - lo,
    {
        let mid: u64 = lo + (hi - lo) / 2;
        assert(mid * mid < 0x1_0000_0000_0000_0000) by (nonlinear_arith)
            requires
                mid < 0x1_0000_0000,
        ;
        if mid * mid <= n {
            lo = mid;
        } else {
            hi = mid;
        }
    }
    lo as u32
}

/// The saturated square root of a sum of squares of raw scalars. Since the
/// raw values carry one factor of `ONE` each, the root of the sum of their
/// squares is again a raw fixed-point number.
pub fn saturated_sqrt(n: u64) -> (r: Fixed)
    ensures
        is_saturated_sqrt(n as int, r as int),
{
    let root: u32 = floor_sqrt(n);
    if root > i32::MAX as u32 {
        assert(i32::MAX * i32::MAX <= root * root) by (nonlinear_arith)
            requires
                root > i32::MAX,
        ;
        i32::MAX
    } else {
        root as i32
    }
}

} // verus!
