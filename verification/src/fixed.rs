//! Fixed-point scalar arithmetic.
//!
//! Every physical quantity in this library is a signed 64-bit fixed-point
//! number with a decimal scale of one million: the raw value `r` stands for
//! the real number `r / 1_000_000`. Multiplication and division truncate
//! toward zero, and every operation saturates at the `i64` range instead of
//! overflowing, so all operations are total. Each executable operation is
//! pinned exactly to a spec-level model (`fxm`, `fxd`, `sat64`, ...), so the
//! contracts of everything built on top can state results exactly.

use vstd::prelude::*;

verus! {

/// Raw representation of 1.0.
pub const FX_ONE: i64 = 1_000_000;

/// Smallest positive step; used as the epsilon floor for denominators
/// and separations.
pub const FX_EPS: i64 = 1;

/// Pi, rounded to the nearest representable value.
pub const FX_PI: i64 = 3_141_593;

/// Pi / 2, rounded.
pub const FX_HALF_PI: i64 = 1_570_796;

/// 2 * Pi, rounded.
pub const FX_TWO_PI: i64 = 6_283_185;

/// Absolute value over mathematical integers.
pub open spec fn iabs(a: int) -> int {
    if a >= 0 { a } else { -a }
}

/// Division truncating toward zero, as Rust's `/` computes it.
pub open spec fn tdiv(a: int, b: int) -> int
    recommends b != 0,
{
    if (a >= 0) == (b >= 0) { iabs(a) / iabs(b) } else { -(iabs(a) / iabs(b)) }
}

/// Saturation to the `i64` range.
pub open spec fn sat64(a: int) -> int {
    if a > i64::MAX { i64::MAX as int } else if a < i64::MIN { i64::MIN as int } else { a }
}

/// The model of fixed-point multiplication: scale the exact product back
/// down, truncating toward zero, and saturate.
pub open spec fn fxm(a: int, b: int) -> int {
    sat64(tdiv(a * b, FX_ONE as int))
}

/// The model of fixed-point division: scale the dividend up before the
/// truncating division, and saturate. Division by zero yields zero.
pub open spec fn fxd(a: int, b: int) -> int {
    if b == 0 { 0 } else { sat64(tdiv(a * (FX_ONE as int), b)) }
}

/// Saturating addition at the spec level.
pub open spec fn sadd(a: int, b: int) -> int {
    sat64(a + b)
}

/// Saturating subtraction at the spec level.
pub open spec fn ssub(a: int, b: int) -> int {
    sat64(a - b)
}

/// Saturating negation at the spec level.
pub open spec fn sneg(a: int) -> int {
    sat64(-a)
}

/// Truncating division on `i128`, computed through magnitudes.
fn div_trunc(p: i128, b: i128) -> (q: i128)
    requires
        b != 0,
        p > i128::MIN,
        b > i128::MIN,
    ensures
        q as int == tdiv(p as int, b as int),
        iabs(q as int) <= iabs(p as int),
{
    let pa: i128 = if p < 0 { -p } else { p };
    let ba: i128 = if b < 0 { -b } else { b };
    let qa: i128 = pa / ba;
    proof {
        assert(0 <= qa as int <= pa as int) by (nonlinear_arith)
            requires pa as int >= 0 && ba as int >= 1 && qa as int == pa as int / ba as int,
        ;
    }
    if (p < 0) != (b < 0) { -qa } else { qa }
}

/// Clamp an i128 intermediate into the i64 range.
fn clamp128(q: i128) -> (r: i64)
    ensures
        r as int == sat64(q as int),
{
    if q > i64::MAX as i128 {
        i64::MAX
    } else if q < i64::MIN as i128 {
        i64::MIN
    } else {
        q as i64
    }
}

/// Fixed-point product of `a` and `b`.
pub fn fx_mul(a: i64, b: i64) -> (r: i64)
    ensures
        r as int == fxm(a as int, b as int),
{
    proof {
        lemma_i64_prod_fits(a as int, b as int);
    }
    let p: i128 = (a as i128) * (b as i128);
    let q: i128 = p / (FX_ONE as i128);
    clamp128(q)
}

/// Fixed-point quotient of `a` by `b`; zero when `b` is zero.
pub fn fx_div(a: i64, b: i64) -> (r: i64)
    ensures
        r as int == fxd(a as int, b as int),
{
    if b == 0 {
        return 0;
    }
    proof {
        lemma_i64_prod_fits(a as int, FX_ONE as int);
        assert(iabs((a as int) * (FX_ONE as int)) <= 0x8000_0000_0000_0000 * 1_000_000)
            by (nonlinear_arith)
            requires -0x8000_0000_0000_0000 <= a as int <= 0x7fff_ffff_ffff_ffff,
        ;
    }
    let p: i128 = (a as i128) * (FX_ONE as i128);
    let q: i128 = div_trunc(p, b as i128);
    clamp128(q)
}

/// Saturating addition.
pub fn sat_add(a: i64, b: i64) -> (r: i64)
    ensures
        r as int == sadd(a as int, b as int),
{
    clamp128((a as i128) + (b as i128))
}

/// Saturating subtraction.
pub fn sat_sub(a: i64, b: i64) -> (r: i64)
    ensures
        r as int == ssub(a as int, b as int),
{
    clamp128((a as i128) - (b as i128))
}

/// Saturating negation.
pub fn sat_neg(a: i64) -> (r: i64)
    ensures
        r as int == sneg(a as int),
{
    if a == i64::MIN { i64::MAX } else { -a }
}

/// The smaller of two values.
pub open spec fn imin(a: int, b: int) -> int {
    if a <= b { a } else { b }
}

/// The larger of two values.
pub open spec fn imax(a: int, b: int) -> int {
    if a >= b { a } else { b }
}

/// Minimum.
pub fn fx_min(a: i64, b: i64) -> (r: i64)
    ensures
        r as int == imin(a as int, b as int),
{
    if a <= b { a } else { b }
}

/// Maximum.
pub fn fx_max(a: i64, b: i64) -> (r: i64)
    ensures
        r as int == imax(a as int, b as int),
{
    if a >= b { a } else { b }
}

/// Absolute value, saturating at `i64::MAX` for `i64::MIN`.
pub fn fx_abs(a: i64) -> (r: i64)
    ensures
        r as int == sat64(iabs(a as int)),
{
    if a >= 0 { a } else { sat_neg(a) }
}

/// A product of two `i64` values fits in `i128`.
pub proof fn lemma_i64_prod_fits(a: int, b: int)
    requires
        i64::MIN <= a <= i64::MAX,
        i64::MIN <= b <= i64::MAX,
    ensures
        i128::MIN <= a * b <= i128::MAX,
{
    assert(i128::MIN <= a * b <= i128::MAX) by (nonlinear_arith)
        requires
            -0x8000_0000_0000_0000 <= a <= 0x7fff_ffff_ffff_ffff,
            -0x8000_0000_0000_0000 <= b <= 0x7fff_ffff_ffff_ffff,
    ;
}

/// The floor square root over the naturals, defined by counting up.
pub open spec fn sqrt_floor(n: nat) -> nat
    decreases n,
{
    if n == 0 {
        0
    } else {
        let p = sqrt_floor((n - 1) as nat);
        if (p + 1) * (p + 1) <= n { p + 1 } else { p }
    }
}

/// `sqrt_floor` is the unique value whose square brackets its argument.
pub proof fn lemma_sqrt_floor(n: nat)
    ensures
        sqrt_floor(n) * sqrt_floor(n) <= n,
        n < (sqrt_floor(n) + 1) * (sqrt_floor(n) + 1),
    decreases n,
{
    if n == 0 {
        assert(sqrt_floor(n) * sqrt_floor(n) <= n && n < (sqrt_floor(n) + 1) * (sqrt_floor(n) + 1))
            by (nonlinear_arith)
            requires n == 0 && sqrt_floor(n) == 0,
        ;
    } else {
        let p = sqrt_floor((n - 1) as nat);
        lemma_sqrt_floor((n - 1) as nat);
        assert(sqrt_floor(n) == if (p + 1) * (p + 1) <= n { (p + 1) as nat } else { p });
        if (p + 1) * (p + 1) <= n {
            assert(sqrt_floor(n) == p + 1);
            assert((p + 2) * (p + 2) > n) by (nonlinear_arith)
                requires (n - 1) < (p + 1) * (p + 1) && p >= 0,
            ;
            assert(sqrt_floor(n) * sqrt_floor(n) <= n);
            assert(n < (sqrt_floor(n) + 1) * (sqrt_floor(n) + 1));
        } else {
            assert(sqrt_floor(n) == p);
            assert(sqrt_floor(n) * sqrt_floor(n) <= n);
            assert(n < (sqrt_floor(n) + 1) * (sqrt_floor(n) + 1));
        }
    }
}

/// Any value whose square brackets `n` is `sqrt_floor(n)`.
pub proof fn lemma_sqrt_floor_unique(n: nat, r: nat)
    requires
        r * r <= n,
        n < (r + 1) * (r + 1),
    ensures
        r == sqrt_floor(n),
{
    lemma_sqrt_floor(n);
    let s = sqrt_floor(n);
    assert(r == s) by (nonlinear_arith)
        requires
            r * r <= n && n < (r + 1) * (r + 1) && s * s <= n && n < (s + 1) * (s + 1)
            && r >= 0 && s >= 0,
    ;
}

/// Floor square root of a `u128`, by binary search.
pub fn isqrt_u128(x: u128) -> (r: u128)
    ensures
        r as nat == sqrt_floor(x as nat),
{
    let mut lo: u128 = 0;
    let mut hi: u128 = 0x1_0000_0000_0000_0000;
    proof {
        assert((hi as int) * (hi as int) > x as int) by (nonlinear_arith)
            requires hi == 0x1_0000_0000_0000_0000 && x <= u128::MAX,
        ;
    }
    while lo + 1 < hi
        invariant
            0 <= lo < hi <= 0x1_0000_0000_0000_0000,
            (lo as int) * (lo as int) <= x as int,
            (hi as int) * (hi as int) > x as int,
        decreases hi - lo,
    {
        let mid: u128 = lo + (hi - lo) / 2;
        proof {
            assert((mid as int) * (mid as int) <= u128::MAX) by (nonlinear_arith)
                requires
                    0 <= mid as int,
                    (mid as int) < 0x1_0000_0000_0000_0000,
            ;
        }
        let sq: u128 = mid * mid;
        if sq <= x {
            lo = mid;
        } else {
            hi = mid;
        }
    }
    proof {
        lemma_sqrt_floor_unique(x as nat, lo as nat);
    }
    lo
}

/// Model of `fx_sqrt`: the fixed-point square root of a nonnegative
/// value, zero for a negative one.
pub open spec fn sqrt_s(a: int) -> int {
    if a <= 0 { 0 } else { sat64(sqrt_floor((a * FX_ONE as int) as nat) as int) }
}

/// Fixed-point square root; negative inputs give zero.
pub fn fx_sqrt(a: i64) -> (r: i64)
    ensures
        r as int == sqrt_s(a as int),
        r >= 0,
{
    if a <= 0 {
        return 0;
    }
    proof {
        assert((a as int) * (FX_ONE as int) <= 0x8000_0000_0000_0000 * 1_000_000)
            by (nonlinear_arith)
            requires 0 < a as int <= 0x7fff_ffff_ffff_ffff,
        ;
    }
    let scaled: u128 = (a as u128) * (FX_ONE as u128);
    let q = isqrt_u128(scaled);
    if q > i64::MAX as u128 {
        i64::MAX
    } else {
        q as i64
    }
}

/// Model of scalar `nearly_equal`: the saturated difference is within
/// `eps`.
pub open spec fn nearly_equal_s(a: int, b: int, eps: int) -> bool {
    sat64(iabs(ssub(a, b))) <= eps
}

/// Are two scalars within `eps` of each other?
pub fn nearly_equal(a: i64, b: i64, eps: i64) -> (r: bool)
    ensures
        r == nearly_equal_s(a as int, b as int, eps as int),
{
    fx_abs(sat_sub(a, b)) <= eps
}

/// Remainder into `[0, m)` (Euclidean), used for angle range reduction.
pub open spec fn emod(a: int, m: int) -> int
    recommends m > 0,
{
    if a >= 0 {
        a % m
    } else {
        let k = (-a) % m;
        if k == 0 { 0 } else { m - k }
    }
}

/// Reduce an angle to `[0, FX_TWO_PI)`.
fn angle_mod(a: i64) -> (r: i64)
    ensures
        r as int == emod(a as int, FX_TWO_PI as int),
        0 <= r < FX_TWO_PI,
{
    let aa: i128 = a as i128;
    if aa >= 0 {
        (aa % (FX_TWO_PI as i128)) as i64
    } else {
        let k: i128 = (-aa) % (FX_TWO_PI as i128);
        if k == 0 { 0 } else { (FX_TWO_PI as i128 - k) as i64 }
    }
}

/// Polynomial model of cosine on the first quarter turn.
pub open spec fn cos_quarter_s(x: int) -> int {
    let x2 = tdiv(x * x, FX_ONE as int);
    let x4 = tdiv(x2 * x2, FX_ONE as int);
    let x6 = tdiv(x4 * x2, FX_ONE as int);
    FX_ONE - x2 / 2 + x4 / 24 - x6 / 720
}

/// Model of cosine on any angle: range reduction to a quarter turn,
/// then the polynomial.
pub open spec fn cos_s(a: int) -> int {
    let r = emod(a, FX_TWO_PI as int);
    if r <= FX_HALF_PI {
        cos_quarter_s(r)
    } else if r <= FX_PI {
        -cos_quarter_s(FX_PI - r)
    } else if r <= FX_PI + FX_HALF_PI {
        -cos_quarter_s(r - FX_PI)
    } else {
        cos_quarter_s(FX_TWO_PI as int - r)
    }
}

/// Model of sine, as the cosine of the angle shifted back a quarter turn.
pub open spec fn sin_s(a: int) -> int {
    cos_s(sat64(a - FX_HALF_PI as int))
}

/// Truncated-series cosine on `[0, FX_HALF_PI]`.
fn cos_quarter(x: i64) -> (r: i64)
    requires
        0 <= x <= FX_HALF_PI,
    ensures
        r as int == cos_quarter_s(x as int),
        -300_000 <= r <= 1_300_000,
{
    let x2 = fx_mul(x, x);
    proof {
        assert(fxm(x as int, x as int) <= 2_467_402 && fxm(x as int, x as int) >= 0)
            by (nonlinear_arith)
            requires 0 <= x as int <= 1_570_796,
        ;
    }
    let x4 = fx_mul(x2, x2);
    proof {
        assert(fxm(x2 as int, x2 as int) <= 6_088_073 && fxm(x2 as int, x2 as int) >= 0)
            by (nonlinear_arith)
            requires 0 <= x2 as int <= 2_467_402,
        ;
    }
    let x6 = fx_mul(x4, x2);
    proof {
        assert(fxm(x4 as int, x2 as int) <= 15_021_804 && fxm(x4 as int, x2 as int) >= 0)
            by (nonlinear_arith)
            requires 0 <= x4 as int <= 6_088_073 && 0 <= x2 as int <= 2_467_402,
        ;
    }
    FX_ONE - x2 / 2 + x4 / 24 - x6 / 720
}

/// Fixed-point cosine of an angle in fixed-point radians.
pub fn fx_cos(a: i64) -> (r: i64)
    ensures
        r as int == cos_s(a as int),
{
    let m = angle_mod(a);
    if m <= FX_HALF_PI {
        cos_quarter(m)
    } else if m <= FX_PI {
        let c = cos_quarter(FX_PI - m);
        -c
    } else if m <= FX_PI + FX_HALF_PI {
        let c = cos_quarter(m - FX_PI);
        -c
    } else {
        cos_quarter(FX_TWO_PI - m)
    }
}

/// Fixed-point sine of an angle in fixed-point radians.
pub fn fx_sin(a: i64) -> (r: i64)
    ensures
        r as int == sin_s(a as int),
{
    let shifted = sat_sub(a, FX_HALF_PI);
    fx_cos(shifted)
}

} // verus!
