//! Signed fixed-point numbers with 32 fractional bits.
//!
//! A [`Fixed`] holds the integer `raw` and stands for `raw / 2^32`. Sums and
//! differences are exact until they leave the range and then stay at its end;
//! products and quotients are rounded toward zero, so that negating an operand
//! negates the result.

use vstd::prelude::*;

verus! {

/// The raw value that stands for the number one.
pub const SCALE: i64 = 0x1_0000_0000;

/// `v` clamped to the range of the raw representation.
pub open spec fn saturate(v: int) -> int {
    if v < i64::MIN {
        i64::MIN as int
    } else if v > i64::MAX {
        i64::MAX as int
    } else {
        v
    }
}

/// The quotient of `a` by `b`, rounded toward zero. Meaningful for `b != 0`.
pub open spec fn trunc_div(a: int, b: int) -> int {
    if a >= 0 && b > 0 {
        a / b
    } else if a >= 0 {
        -(a / (-b))
    } else if b > 0 {
        -((-a) / b)
    } else {
        (-a) / (-b)
    }
}

/// The magnitude of `v`.
pub open spec fn magnitude(v: int) -> int {
    if v < 0 {
        -v
    } else {
        v
    }
}

/// Whether `r` is the square root of `n`, rounded down.
pub open spec fn is_floor_sqrt(n: int, r: int) -> bool {
    r >= 0 && r * r <= n && n < (r + 1) * (r + 1)
}

/// The square root of `n`, rounded down. Meaningful for `n >= 0`.
pub open spec fn floor_sqrt(n: int) -> int {
    choose|r: int| is_floor_sqrt(n, r)
}

/// A number has at most one rounded-down square root.
pub proof fn lemma_floor_sqrt_unique(n: int, r: int)
    requires
        is_floor_sqrt(n, r),
    ensures
        floor_sqrt(n) == r,
{
    let q = floor_sqrt(n);
    assert(is_floor_sqrt(n, q));
    assert(q == r) by (nonlinear_arith)
        requires
            q >= 0,
            r >= 0,
            q * q <= n,
            n < (q + 1) * (q + 1),
            r * r <= n,
            n < (r + 1) * (r + 1),
    {
        if q < r {
            assert((q + 1) * (q + 1) <= r * r);
        } else if r < q {
            assert((r + 1) * (r + 1) <= q * q);
        }
    }
}

/// The square root of `n`, rounded down.
pub fn isqrt(n: u128) -> (r: u64)
    ensures
        r == floor_sqrt(n as int),
        is_floor_sqrt(n as int, r as int),
{
    let mut lo: u128 = 0;
    let mut hi: u128 = 0x1_0000_0000_0000_0000;
    assert(n < hi * hi) by (nonlinear_arith)
        requires
            hi == 0x1_0000_0000_0000_0000,
            n <= u128::MAX,
            u128::MAX == 0xffff_ffff_ffff_ffff_ffff_ffff_ffff_ffff;
    while hi - lo > 1
        invariant
            lo < hi <= 0x1_0000_0000_0000_0000,
            lo * lo <= n,
            n < hi * hi,
        decreases hi - lo,
    {
        let mid: u128 = lo + (hi - lo) / 2;
        assert(mid * mid <= 0xffff_ffff_ffff_ffff_ffff_ffff_ffff_ffff) by (nonlinear_arith)
            requires
                mid < 0x1_0000_0000_0000_0000;
        if mid * mid <= n {
            lo = mid;
        } else {
            hi = mid;
        }
    }
    proof {
        lemma_floor_sqrt_unique(n as int, lo as int);
    }
    lo as u64
}

/// A number `raw / 2^32`.
#[derive(Clone, Copy, Debug, PartialEq, Eq, Structural)]
pub struct Fixed {
    pub raw: i64,
}

/// Clamps a wide intermediate result to the raw range.
fn saturate_wide(v: i128) -> (r: i64)
    ensures
        r == saturate(v as int),
{
    if v < i64::MIN as i128 {
        i64::MIN
    } else if v > i64::MAX as i128 {
        i64::MAX
    } else {
        v as i64
    }
}

/// Divides rounding toward zero.
fn trunc_div_wide(a: i128, b: i128) -> (q: i128)
    requires
        b != 0,
        -0x4000_0000_0000_0000_0000_0000_0000_0000 <= a <= 0x4000_0000_0000_0000_0000_0000_0000_0000,
        -0x4000_0000_0000_0000_0000_0000_0000_0000 <= b <= 0x4000_0000_0000_0000_0000_0000_0000_0000,
    ensures
        q == trunc_div(a as int, b as int),
{
    let ua: u128 = if a >= 0 {
        a as u128
    } else {
        (-a) as u128
    };
    let ub: u128 = if b >= 0 {
        b as u128
    } else {
        (-b) as u128
    };
    let uq: u128 = ua / ub;
    assert(uq <= ua) by (nonlinear_arith)
        requires
            uq == ua / ub,
            ub >= 1;
    if (a >= 0) == (b > 0) {
        uq as i128
    } else {
        -(uq as i128)
    }
}

impl Fixed {
    /// The number zero.
    pub open spec fn spec_zero() -> Fixed {
        Fixed { raw: 0 }
    }

    /// The number one.
    pub open spec fn spec_one() -> Fixed {
        Fixed { raw: SCALE }
    }

    /// The sum, held at the end of the range where it would leave it.
    pub open spec fn spec_add(self, other: Fixed) -> Fixed {
        Fixed { raw: saturate(self.raw + other.raw) as i64 }
    }

    /// The difference, held at the end of the range where it would leave it.
    pub open spec fn spec_sub(self, other: Fixed) -> Fixed {
        Fixed { raw: saturate(self.raw - other.raw) as i64 }
    }

    /// The negation; that of the least number is the greatest.
    pub open spec fn spec_neg(self) -> Fixed {
        Fixed { raw: saturate(-self.raw) as i64 }
    }

    /// The magnitude; that of the least number is the greatest.
    pub open spec fn spec_abs(self) -> Fixed {
        if self.raw < 0 {
            self.spec_neg()
        } else {
            self
        }
    }

    /// The product, rounded toward zero and held within the range.
    pub open spec fn spec_mul(self, other: Fixed) -> Fixed {
        Fixed { raw: saturate(trunc_div(self.raw * other.raw, SCALE as int)) as i64 }
    }

    /// The quotient, rounded toward zero and held within the range.
    /// Meaningful for a divisor other than zero.
    pub open spec fn spec_div(self, other: Fixed) -> Fixed {
        Fixed { raw: saturate(trunc_div(self.raw * SCALE, other.raw as int)) as i64 }
    }

    /// The quotient by the whole number `k`, rounded toward zero and held
    /// within the range. Meaningful for `k != 0`.
    pub open spec fn spec_div_int(self, k: i64) -> Fixed {
        Fixed { raw: saturate(trunc_div(self.raw as int, k as int)) as i64 }
    }

    /// The whole number `n`.
    pub open spec fn spec_from_int(n: i32) -> Fixed {
        Fixed { raw: (n * SCALE) as i64 }
    }

    /// The fraction `num / den`, rounded toward zero and held within the
    /// range. Meaningful for `den != 0`.
    pub open spec fn spec_from_ratio(num: i64, den: i64) -> Fixed {
        Fixed { raw: saturate(trunc_div(num * SCALE, den as int)) as i64 }
    }

    /// -1, 0 or 1 as the number is below, at or above zero.
    pub open spec fn spec_signum(self) -> Fixed {
        if self.raw > 0 {
            Fixed { raw: SCALE }
        } else if self.raw < 0 {
            Fixed { raw: (-SCALE) as i64 }
        } else {
            Fixed { raw: 0 }
        }
    }

    /// The number zero.
    pub fn zero() -> (r: Fixed)
        ensures
            r == Fixed::spec_zero(),
    {
        Fixed { raw: 0 }
    }

    /// The number one.
    pub fn one() -> (r: Fixed)
        ensures
            r == Fixed::spec_one(),
    {
        Fixed { raw: SCALE }
    }

    /// The sum, saturating.
    pub fn add(self, other: Fixed) -> (r: Fixed)
        ensures
            r == self.spec_add(other),
    {
        Fixed { raw: saturate_wide(self.raw as i128 + other.raw as i128) }
    }

    /// The difference, saturating.
    pub fn sub(self, other: Fixed) -> (r: Fixed)
        ensures
            r == self.spec_sub(other),
    {
        Fixed { raw: saturate_wide(self.raw as i128 - other.raw as i128) }
    }

    /// The negation, saturating.
    pub fn neg(self) -> (r: Fixed)
        ensures
            r == self.spec_neg(),
    {
        Fixed { raw: saturate_wide(-(self.raw as i128)) }
    }

    /// The magnitude, saturating.
    pub fn abs(self) -> (r: Fixed)
        ensures
            r == self.spec_abs(),
    {
        if self.raw < 0 {
            self.neg()
        } else {
            self
        }
    }

    /// The product, rounded toward zero and saturating.
    pub fn mul(self, other: Fixed) -> (r: Fixed)
        ensures
            r == self.spec_mul(other),
    {
        let a: i128 = self.raw as i128;
        let b: i128 = other.raw as i128;
        assert(-0x4000_0000_0000_0000_0000_0000_0000_0000 <= a * b
            <= 0x4000_0000_0000_0000_0000_0000_0000_0000) by (nonlinear_arith)
            requires
                -0x8000_0000_0000_0000 <= a <= 0x8000_0000_0000_0000,
                -0x8000_0000_0000_0000 <= b <= 0x8000_0000_0000_0000;
        let q: i128 = trunc_div_wide(a * b, SCALE as i128);
        Fixed { raw: saturate_wide(q) }
    }

    /// The whole number `n`.
    pub fn from_int(n: i32) -> (r: Fixed)
        ensures
            r == Fixed::spec_from_int(n),
            r.raw == n * 0x1_0000_0000,
    {
        Fixed { raw: (n as i64) * 0x1_0000_0000 }
    }

    /// The fraction `num / den`, rounded toward zero and saturating.
    pub fn from_ratio(num: i64, den: i64) -> (r: Fixed)
        requires
            den != 0,
        ensures
            r == Fixed::spec_from_ratio(num, den),
    {
        Fixed { raw: num }.div(Fixed { raw: den })
    }

    /// The sign of the number, as -1, 0 or 1.
    pub fn signum(self) -> (r: Fixed)
        ensures
            r == self.spec_signum(),
    {
        if self.raw > 0 {
            Fixed { raw: SCALE }
        } else if self.raw < 0 {
            Fixed { raw: -SCALE }
        } else {
            Fixed { raw: 0 }
        }
    }

    /// The quotient by a whole number, rounded toward zero and saturating.
    pub fn div_int(self, k: i64) -> (r: Fixed)
        requires
            k != 0,
        ensures
            r == self.spec_div_int(k),
    {
        Fixed { raw: saturate_wide(trunc_div_wide(self.raw as i128, k as i128)) }
    }

    /// The quotient, rounded toward zero and saturating.
    pub fn div(self, other: Fixed) -> (r: Fixed)
        requires
            other.raw != 0,
        ensures
            r == self.spec_div(other),
    {
        let a: i128 = self.raw as i128;
        let one: i128 = SCALE as i128;
        assert(-0x4000_0000_0000_0000_0000_0000_0000_0000 <= a * one
            <= 0x4000_0000_0000_0000_0000_0000_0000_0000) by (nonlinear_arith)
            requires
                -0x8000_0000_0000_0000 <= a <= 0x8000_0000_0000_0000,
                one == 0x1_0000_0000;
        let q: i128 = trunc_div_wide(a * one, other.raw as i128);
        Fixed { raw: saturate_wide(q) }
    }
}

/// A rounded-down square root is not negative.
pub proof fn lemma_floor_sqrt_nonnegative(n: int)
    requires
        n >= 0,
    ensures
        floor_sqrt(n) >= 0,
        is_floor_sqrt(n, floor_sqrt(n)),
    decreases n,
{
    if n == 0 {
        assert(is_floor_sqrt(0, 0));
    } else {
        lemma_floor_sqrt_nonnegative(n - 1);
        let r = floor_sqrt(n - 1);
        if n < (r + 1) * (r + 1) {
            assert(is_floor_sqrt(n, r));
        } else {
            assert(is_floor_sqrt(n, r + 1)) by (nonlinear_arith)
                requires
                    r >= 0,
                    r * r <= n - 1,
                    n - 1 < (r + 1) * (r + 1),
                    n >= (r + 1) * (r + 1);
        }
    }
}

/// What rounding toward zero means: the quotient by a positive divisor has the
/// sign of the dividend, and times the divisor falls short of the dividend, in
/// magnitude, by less than the divisor.
pub proof fn lemma_trunc_div_bounds(a: int, b: int)
    requires
        b > 0,
    ensures
        a >= 0 ==> 0 <= trunc_div(a, b) * b <= a < trunc_div(a, b) * b + b,
        a <= 0 ==> trunc_div(a, b) * b - b < a <= trunc_div(a, b) * b <= 0,
        a >= 0 ==> trunc_div(a, b) >= 0,
        a <= 0 ==> trunc_div(a, b) <= 0,
        trunc_div(-a, b) == -trunc_div(a, b),
{
    if a >= 0 {
        let q = a / b;
        assert(0 <= q * b <= a < q * b + b && q >= 0) by (nonlinear_arith)
            requires
                q == a / b,
                a >= 0,
                b > 0;
        if a == 0 {
            assert(trunc_div(-a, b) == 0);
        }
    } else {
        let q = (-a) / b;
        assert(0 <= q * b <= -a < q * b + b && q >= 0) by (nonlinear_arith)
            requires
                q == (-a) / b,
                -a >= 0,
                b > 0;
        assert((-q) * b == -(q * b)) by (nonlinear_arith);
    }
}

/// Rounding toward zero keeps the order of the dividends.
pub proof fn lemma_trunc_div_monotone(a: int, c: int, b: int)
    requires
        b > 0,
        a <= c,
    ensures
        trunc_div(a, b) <= trunc_div(c, b),
{
    lemma_trunc_div_bounds(a, b);
    lemma_trunc_div_bounds(c, b);
    let p = trunc_div(a, b);
    let q = trunc_div(c, b);
    assert(p <= q) by (nonlinear_arith)
        requires
            b > 0,
            a <= c,
            a >= 0 ==> 0 <= p * b <= a < p * b + b,
            a <= 0 ==> p * b - b < a <= p * b <= 0,
            c >= 0 ==> 0 <= q * b <= c < q * b + b,
            c <= 0 ==> q * b - b < c <= q * b <= 0,
    {
        if p > q {
            assert(p * b >= q * b + b);
        }
    }
}

} // verus!
