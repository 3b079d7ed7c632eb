use vstd::prelude::*;

verus! {

/// Number of raw steps per unit: a `Scalar` with raw part `r` stands for the
/// number `r / SCALE`.
pub const SCALE: i64 = 65536;

/// Largest raw magnitude a scalar can hold; every operation clamps its result
/// into `[-MAX_RAW, MAX_RAW]`, so arithmetic never fails, it saturates.
pub const MAX_RAW: i64 = i64::MAX;

/// A fixed-point number: the value `raw / SCALE`. All geometry and shading
/// arithmetic of this crate is carried out on this type, with every operation
/// given an exact mathematical description.
#[derive(Clone, Copy, Debug, PartialEq, Eq, Structural)]
pub struct Scalar {
    pub raw: i64,
}

/// Clamp an unbounded integer into the raw range of `Scalar`.
pub open spec fn sat(x: int) -> int {
    if x > MAX_RAW as int {
        MAX_RAW as int
    } else if x < -(MAX_RAW as int) {
        -(MAX_RAW as int)
    } else {
        x
    }
}

/// `sat`, landing in the machine type that holds raw parts.
pub open spec fn sat64(x: int) -> i64 {
    sat(x) as i64
}

/// The magnitude of an integer.
pub open spec fn abs_int(x: int) -> int {
    if x < 0 {
        -x
    } else {
        x
    }
}

/// Division rounding toward zero, the rounding that raw parts are computed
/// with: the magnitudes divide, the signs combine.
pub open spec fn div_tz(a: int, b: int) -> int
    recommends
        b != 0,
{
    if (a < 0) == (b < 0) {
        abs_int(a) / abs_int(b)
    } else {
        -(abs_int(a) / abs_int(b))
    }
}

/// Truncating division on the wide intermediate type.
fn div_tz_i128(a: i128, b: i128) -> (q: i128)
    requires
        b != 0,
        -0x4000_0000_0000_0000_0000_0000_0000_0000 <= a
            <= 0x4000_0000_0000_0000_0000_0000_0000_0000,
        -0x4000_0000_0000_0000_0000_0000_0000_0000 <= b
            <= 0x4000_0000_0000_0000_0000_0000_0000_0000,
    ensures
        q == div_tz(a as int, b as int),
        -0x4000_0000_0000_0000_0000_0000_0000_0000 <= q
            <= 0x4000_0000_0000_0000_0000_0000_0000_0000,
{
    let na: u128 = if a < 0 {
        (-a) as u128
    } else {
        a as u128
    };
    let nb: u128 = if b < 0 {
        (-b) as u128
    } else {
        b as u128
    };
    let uq: u128 = na / nb;
    proof {
        vstd::arithmetic::div_mod::lemma_div_nonincreasing(na as int, nb as int);
        vstd::arithmetic::div_mod::lemma_div_pos_is_pos(na as int, nb as int);
    }
    if (a < 0) != (b < 0) {
        -(uq as i128)
    } else {
        uq as i128
    }
}

/// Clamp a wide intermediate result back into the raw range.
fn sat_i128(x: i128) -> (r: i64)
    ensures
        r == sat64(x as int),
{
    if x > MAX_RAW as i128 {
        MAX_RAW
    } else if x < -(MAX_RAW as i128) {
        -MAX_RAW
    } else {
        x as i64
    }
}

impl Scalar {
    /// The raw part that `self.add(rhs)` returns.
    pub open spec fn spec_add(self, rhs: Scalar) -> Scalar {
        Scalar { raw: sat64(self.raw + rhs.raw) }
    }

    /// The raw part that `self.sub(rhs)` returns.
    pub open spec fn spec_sub(self, rhs: Scalar) -> Scalar {
        Scalar { raw: sat64(self.raw - rhs.raw) }
    }

    /// The raw part that `self.neg()` returns.
    pub open spec fn spec_neg(self) -> Scalar {
        Scalar { raw: sat64(-self.raw) }
    }

    /// Saturating fixed-point addition.
    pub fn add(self, rhs: Scalar) -> (r: Scalar)
        ensures
            r == self.spec_add(rhs),
    {
        let s: i128 = self.raw as i128 + rhs.raw as i128;
        Scalar { raw: sat_i128(s) }
    }

    /// Saturating fixed-point subtraction.
    pub fn sub(self, rhs: Scalar) -> (r: Scalar)
        ensures
            r == self.spec_sub(rhs),
    {
        let s: i128 = self.raw as i128 - rhs.raw as i128;
        Scalar { raw: sat_i128(s) }
    }

    /// Saturating fixed-point negation.
    pub fn neg(self) -> (r: Scalar)
        ensures
            r == self.spec_neg(),
    {
        let s: i128 = -(self.raw as i128);
        Scalar { raw: sat_i128(s) }
    }

    /// The value that `self.mul(rhs)` returns: the raw product, rescaled with
    /// rounding toward zero, then clamped.
    pub open spec fn spec_mul(self, rhs: Scalar) -> Scalar {
        Scalar { raw: sat64(div_tz(self.raw * rhs.raw, SCALE as int)) }
    }

    /// Saturating fixed-point multiplication.
    pub fn mul(self, rhs: Scalar) -> (r: Scalar)
        ensures
            r == self.spec_mul(rhs),
    {
        proof {
            lemma_i64_product_fits(self.raw as int, rhs.raw as int);
        }
        let p: i128 = (self.raw as i128) * (rhs.raw as i128);
        let q: i128 = div_tz_i128(p, SCALE as i128);
        Scalar { raw: sat_i128(q) }
    }

    /// The value that `self.div(rhs)` returns. Division by zero does not fail:
    /// it saturates to the clamp bound of the numerator's sign, and `0 / 0`
    /// is `0`.
    pub open spec fn spec_div(self, rhs: Scalar) -> Scalar {
        if rhs.raw == 0 {
            Scalar {
                raw: sat64(
                    if self.raw > 0 {
                        MAX_RAW as int
                    } else if self.raw < 0 {
                        -(MAX_RAW as int)
                    } else {
                        0
                    },
                ),
            }
        } else {
            Scalar { raw: sat64(div_tz(self.raw * SCALE, rhs.raw as int)) }
        }
    }

    /// Saturating fixed-point division.
    pub fn div(self, rhs: Scalar) -> (r: Scalar)
        ensures
            r == self.spec_div(rhs),
    {
        if rhs.raw == 0 {
            Scalar { raw: if self.raw > 0 { MAX_RAW } else if self.raw < 0 { -MAX_RAW } else { 0 } }
        } else {
            proof {
                lemma_i64_product_fits(self.raw as int, SCALE as int);
            }
            let n: i128 = (self.raw as i128) * (SCALE as i128);
            let q: i128 = div_tz_i128(n, rhs.raw as i128);
            Scalar { raw: sat_i128(q) }
        }
    }

    /// The larger of the two scalars.
    pub open spec fn spec_max(self, rhs: Scalar) -> Scalar {
        if self.raw >= rhs.raw {
            self
        } else {
            rhs
        }
    }

    pub fn max(self, rhs: Scalar) -> (r: Scalar)
        ensures
            r == self.spec_max(rhs),
    {
        if self.raw >= rhs.raw {
            self
        } else {
            rhs
        }
    }

    /// The smaller of the two scalars.
    pub open spec fn spec_min(self, rhs: Scalar) -> Scalar {
        if self.raw <= rhs.raw {
            self
        } else {
            rhs
        }
    }

    pub fn min(self, rhs: Scalar) -> (r: Scalar)
        ensures
            r == self.spec_min(rhs),
    {
        if self.raw <= rhs.raw {
            self
        } else {
            rhs
        }
    }

    /// The scalar standing for the integer `i`, clamped at the raw bound.
    pub open spec fn spec_from_int(i: i64) -> Scalar {
        Scalar { raw: sat64(i * SCALE) }
    }

    pub fn from_int(i: i64) -> (r: Scalar)
        ensures
            r == Scalar::spec_from_int(i),
    {
        proof {
            lemma_i64_product_fits(i as int, SCALE as int);
        }
        let p: i128 = (i as i128) * (SCALE as i128);
        Scalar { raw: sat_i128(p) }
    }

    /// The scalar standing for the fraction `n / d`, rounded toward zero and
    /// clamped. A zero denominator saturates as `spec_div` does.
    pub open spec fn spec_from_ratio(n: i64, d: i64) -> Scalar {
        if d == 0 {
            Scalar {
                raw: sat64(
                    if n > 0 {
                        MAX_RAW as int
                    } else if n < 0 {
                        -(MAX_RAW as int)
                    } else {
                        0
                    },
                ),
            }
        } else {
            Scalar { raw: sat64(div_tz(n * SCALE, d as int)) }
        }
    }

    pub fn from_ratio(n: i64, d: i64) -> (r: Scalar)
        ensures
            r == Scalar::spec_from_ratio(n, d),
    {
        if d == 0 {
            Scalar { raw: if n > 0 { MAX_RAW } else if n < 0 { -MAX_RAW } else { 0 } }
        } else {
            proof {
                lemma_i64_product_fits(n as int, SCALE as int);
            }
            let p: i128 = (n as i128) * (SCALE as i128);
            let q: i128 = div_tz_i128(p, d as i128);
            Scalar { raw: sat_i128(q) }
        }
    }

    /// The value that `self.sqrt()` returns: the square root of a positive
    /// scalar rounded down to the raw grid; zero for anything else.
    pub open spec fn spec_sqrt(self) -> Scalar {
        if self.raw <= 0 {
            Scalar { raw: 0 }
        } else {
            Scalar { raw: isqrt(self.raw * SCALE) as i64 }
        }
    }

    /// Fixed-point square root, rounded down. Non-positive inputs give zero.
    pub fn sqrt(self) -> (r: Scalar)
        ensures
            r == self.spec_sqrt(),
    {
        if self.raw <= 0 {
            Scalar { raw: 0 }
        } else {
            let n: u128 = (self.raw as u128) * (SCALE as u128);
            let s: u64 = isqrt_u128(n);
            proof {
                lemma_isqrt_exists(n as int);
                lemma_sqrt_of_unique(n as int, s as int, isqrt(n as int));
                assert((s as int) * (s as int) <= n as int);
                assert(n as int <= 0x8000_0000_0000_0000_0000 as int);
                lemma_sqrt_small(n as int, s as int, 0x1_0000_0000_0000 as int);
            }
            Scalar { raw: s as i64 }
        }
    }
}

/// `r` is the square root of `x`, rounded down.
pub open spec fn is_sqrt_of(x: int, r: int) -> bool {
    0 <= r && r * r <= x && x < (r + 1) * (r + 1)
}

/// The square root of `x`, rounded down.
pub open spec fn isqrt(x: int) -> int
    recommends
        x >= 0,
{
    choose|r: int| is_sqrt_of(x, r)
}

/// Every non-negative integer has a rounded-down square root.
pub proof fn lemma_isqrt_exists(x: int)
    requires
        x >= 0,
    ensures
        is_sqrt_of(x, isqrt(x)),
    decreases x,
{
    if x == 0 {
        assert(is_sqrt_of(0, 0));
    } else {
        lemma_isqrt_exists(x - 1);
        let r = isqrt(x - 1);
        if x < (r + 1) * (r + 1) {
            assert(is_sqrt_of(x, r));
        } else {
            assert(x == (r + 1) * (r + 1));
            assert((r + 1) * (r + 1) < (r + 2) * (r + 2)) by (nonlinear_arith)
                requires
                    r >= 0,
            ;
            assert(is_sqrt_of(x, r + 1));
        }
    }
}

/// The rounded-down square root is unique.
pub proof fn lemma_sqrt_of_unique(x: int, r1: int, r2: int)
    requires
        is_sqrt_of(x, r1),
        is_sqrt_of(x, r2),
    ensures
        r1 == r2,
{
    if r1 < r2 {
        assert((r1 + 1) * (r1 + 1) <= r2 * r2) by (nonlinear_arith)
            requires
                0 <= r1 < r2,
        ;
    }
    if r2 < r1 {
        assert((r2 + 1) * (r2 + 1) <= r1 * r1) by (nonlinear_arith)
            requires
                0 <= r2 < r1,
        ;
    }
}

/// A root below a bound squared is below the bound.
proof fn lemma_sqrt_small(x: int, r: int, b: int)
    requires
        is_sqrt_of(x, r),
        b > 0,
        x < b * b,
    ensures
        r < b,
{
    if r >= b {
        assert(b * b <= r * r) by (nonlinear_arith)
            requires
                0 < b <= r,
        ;
    }
}

/// A product of two raw parts stays within the wide intermediate type.
proof fn lemma_i64_product_fits(a: int, b: int)
    requires
        -0x8000_0000_0000_0000 <= a <= 0x7fff_ffff_ffff_ffff,
        -0x8000_0000_0000_0000 <= b <= 0x7fff_ffff_ffff_ffff,
    ensures
        -0x4000_0000_0000_0000_0000_0000_0000_0000 <= a * b
            <= 0x4000_0000_0000_0000_0000_0000_0000_0000,
{
    assert(-0x4000_0000_0000_0000_0000_0000_0000_0000 <= a * b
        <= 0x4000_0000_0000_0000_0000_0000_0000_0000) by (nonlinear_arith)
        requires
            -0x8000_0000_0000_0000 <= a <= 0x7fff_ffff_ffff_ffff,
            -0x8000_0000_0000_0000 <= b <= 0x7fff_ffff_ffff_ffff,
    ;
}

/// A product of non-negative scalars is non-negative.
pub proof fn lemma_mul_nonneg(a: Scalar, b: Scalar)
    requires
        a.raw >= 0,
        b.raw >= 0,
    ensures
        a.spec_mul(b).raw >= 0,
{
    assert(a.raw * b.raw >= 0) by (nonlinear_arith)
        requires
            a.raw >= 0,
            b.raw >= 0,
    ;
}

/// A quotient of non-negative scalars is non-negative, the saturated value
/// for a zero divisor included.
pub proof fn lemma_div_nonneg(a: Scalar, b: Scalar)
    requires
        a.raw >= 0,
        b.raw >= 0,
    ensures
        a.spec_div(b).raw >= 0,
{
    if b.raw != 0 {
        assert(a.raw * SCALE >= 0) by (nonlinear_arith)
            requires
                a.raw >= 0,
        ;
    }
}

/// The magnitude of a raw part, in the unsigned machine type.
pub(crate) fn abs_i64(v: i64) -> (r: u64)
    ensures
        r == abs_int(v as int),
{
    if v < 0 {
        let m: i128 = -(v as i128);
        m as u64
    } else {
        v as u64
    }
}

/// The rounded-down square root of a wide unsigned value, by bisection.
pub(crate) fn isqrt_u128(x: u128) -> (r: u64)
    ensures
        is_sqrt_of(x as int, r as int),
{
    let mut lo: u128 = 0;
    let mut hi: u128 = 0x1_0000_0000_0000_0000;
    while hi - lo > 1
        invariant
            lo < hi <= 0x1_0000_0000_0000_0000,
            (lo as int) * (lo as int) <= x as int,
            (x as int) < (hi as int) * (hi as int),
        decreases hi - lo,
    {
        let mid: u128 = lo + (hi - lo) / 2;
        proof {
            assert((mid as int) * (mid as int) < 0x1_0000_0000_0000_0000_0000_0000_0000_0000)
                by (nonlinear_arith)
                requires
                    0 <= mid < 0x1_0000_0000_0000_0000,
            ;
        }
        let sq: u128 = mid * mid;
        if sq <= x {
            lo = mid;
        } else {
            hi = mid;
        }
    }
    proof {
        assert(hi == lo + 1);
    }
    lo as u64
}

} // verus!
