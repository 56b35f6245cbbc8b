//! Saturating fixed-point numbers: the scalar in which all geometry of the
//! editor is computed.

use vstd::prelude::*;

verus! {

/// Number of raw units in one whole unit: a [`Fixed`] counts thousandths.
pub const UNITS: i64 = 1000;

/// Clamps an integer into the range of raw values.
pub open spec fn saturate(v: int) -> int {
    if v < -0x8000_0000 {
        -0x8000_0000
    } else if v > 0x7fff_ffff {
        0x7fff_ffff
    } else {
        v
    }
}

/// Quotient rounded toward zero (`b` is not zero).
pub open spec fn quot(a: int, b: int) -> int {
    if a >= 0 {
        a / b
    } else {
        -((-a) / b)
    }
}

/// The nearest representable number to the raw value `v`.
pub open spec fn fixed(v: int) -> Fixed {
    Fixed { raw: saturate(v) as i32 }
}

/// A number with three decimal places, stored as a count of thousandths.
///
/// Arithmetic saturates at the ends of the range and products and quotients
/// round toward zero, so every operation is total and exact whenever the
/// mathematical result is representable.
#[derive(Clone, Copy, Debug, PartialEq, Eq, Hash, Structural)]
pub struct Fixed {
    pub raw: i32,
}

impl View for Fixed {
    type V = int;

    open spec fn view(&self) -> int {
        self.raw as int
    }
}

impl Fixed {
    pub open spec fn spec_add(self, rhs: Fixed) -> Fixed {
        fixed(self@ + rhs@)
    }

    pub open spec fn spec_sub(self, rhs: Fixed) -> Fixed {
        fixed(self@ - rhs@)
    }

    pub open spec fn spec_mul(self, rhs: Fixed) -> Fixed {
        fixed(quot(self@ * rhs@, UNITS as int))
    }

    pub open spec fn spec_div(self, rhs: Fixed) -> Fixed {
        fixed(quot(self@ * UNITS, rhs@))
    }

    pub open spec fn spec_half(self) -> Fixed {
        fixed(quot(self@, 2))
    }

    pub open spec fn spec_abs(self) -> Fixed {
        fixed(if self@ < 0 { -self@ } else { self@ })
    }

    pub open spec fn spec_min(self, rhs: Fixed) -> Fixed {
        if rhs@ < self@ { rhs } else { self }
    }

    pub open spec fn spec_max(self, rhs: Fixed) -> Fixed {
        if rhs@ > self@ { rhs } else { self }
    }

    /// The number with the given raw count of thousandths.
    pub fn from_raw(raw: i32) -> (r: Fixed)
        ensures
            r@ == raw,
    {
        Fixed { raw }
    }

    /// The whole number `n`, saturated to the range.
    pub fn from_int(n: i32) -> (r: Fixed)
        ensures
            r == fixed(n * UNITS),
    {
        Fixed::narrow((n as i64) * UNITS)
    }

    pub fn zero() -> (r: Fixed)
        ensures
            r@ == 0,
    {
        Fixed { raw: 0 }
    }

    pub fn one() -> (r: Fixed)
        ensures
            r@ == UNITS,
    {
        Fixed { raw: 1000 }
    }

    /// Saturates a wide raw value.
    pub fn narrow(v: i64) -> (r: Fixed)
        ensures
            r == fixed(v as int),
    {
        if v < -0x8000_0000 {
            Fixed { raw: i32::MIN }
        } else if v > 0x7fff_ffff {
            Fixed { raw: i32::MAX }
        } else {
            Fixed { raw: v as i32 }
        }
    }

    pub fn add(self, rhs: Fixed) -> (r: Fixed)
        ensures
            r == self.spec_add(rhs),
    {
        Fixed::narrow(self.raw as i64 + rhs.raw as i64)
    }

    pub fn sub(self, rhs: Fixed) -> (r: Fixed)
        ensures
            r == self.spec_sub(rhs),
    {
        Fixed::narrow(self.raw as i64 - rhs.raw as i64)
    }

    /// Product of two numbers, rounded toward zero.
    pub fn mul(self, rhs: Fixed) -> (r: Fixed)
        ensures
            r == self.spec_mul(rhs),
    {
        let a: i64 = self.raw as i64;
        let b: i64 = rhs.raw as i64;
        proof {
            lemma_product_bound(a as int, b as int);
        }
        let p: i64 = a * b;
        Fixed::narrow(p / UNITS)
    }

    /// Quotient of two numbers, rounded toward zero.
    pub fn div(self, rhs: Fixed) -> (r: Fixed)
        requires
            rhs@ != 0,
        ensures
            r == self.spec_div(rhs),
    {
        let n: i64 = (self.raw as i64) * UNITS;
        let d: i64 = rhs.raw as i64;
        proof {
            lemma_quot_bound(n as int, d as int);
        }
        Fixed::narrow(n / d)
    }

    /// Half of the number, rounded toward zero.
    pub fn half(self) -> (r: Fixed)
        ensures
            r == self.spec_half(),
    {
        Fixed { raw: self.raw / 2 }
    }

    pub fn abs(self) -> (r: Fixed)
        ensures
            r == self.spec_abs(),
    {
        let v: i64 = self.raw as i64;
        Fixed::narrow(if v < 0 { -v } else { v })
    }

    pub fn min(self, rhs: Fixed) -> (r: Fixed)
        ensures
            r == self.spec_min(rhs),
    {
        if rhs.raw < self.raw { rhs } else { self }
    }

    pub fn max(self, rhs: Fixed) -> (r: Fixed)
        ensures
            r == self.spec_max(rhs),
    {
        if rhs.raw > self.raw { rhs } else { self }
    }
}

/// The product of two raw values fits in 64 bits.
pub proof fn lemma_product_bound(a: int, b: int)
    by (nonlinear_arith)
    requires
        -0x8000_0000 <= a <= 0x7fff_ffff,
        -0x8000_0000 <= b <= 0x7fff_ffff,
    ensures
        -0x4000_0000_0000_0000 <= a * b <= 0x4000_0000_0000_0000,
{
}

/// A quotient is no larger in magnitude than its dividend.
pub proof fn lemma_quot_bound(n: int, d: int)
    by (nonlinear_arith)
    requires
        d != 0,
    ensures
        n >= 0 ==> -n <= quot(n, d) <= n,
        n < 0 ==> n <= quot(n, d) <= -n,
{
}

} // verus!
