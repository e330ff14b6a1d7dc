//! Two-dimensional vectors of non-negative integers, the basis of every
//! tile-geometry computation: component-wise arithmetic, saturating
//! subtraction, and ceiling division.

use vstd::prelude::*;

verus! {

use vstd::arithmetic::div_mod::{
    lemma_div_is_strictly_smaller,
    lemma_div_nonincreasing,
    lemma_div_pos_is_pos,
    lemma_fundamental_div_mod,
    lemma_fundamental_div_mod_converse,
    lemma_mod_division_less_than_divisor,
    lemma_small_mod,
};

/// A 2-D vector of non-negative integers (pixel sizes and positions).
#[derive(Debug, PartialEq, Eq, Structural, Default, Clone, Copy)]
pub struct Vec2d {
    pub x: u32,
    pub y: u32,
}

/// Ceiling of the integer division `x / a`, for positive `a`.
pub open spec fn ceil_div_int(x: int, a: int) -> int {
    (x + a - 1) / a
}

/// Dividing by one leaves no remainder.
proof fn lemma_one_divides(x: int)
    requires
        x >= 0,
    ensures
        x % 1 == 0,
        x / 1 == x,
{
    assert(x == x * 1 + 0) by (nonlinear_arith);
    lemma_fundamental_div_mod_converse(x, 1, x, 0);
}

/// The ceiling division `(x + a - 1) / a` equals truncating division,
/// corrected upward by one when the remainder is not zero.
pub proof fn lemma_ceil_div(x: int, a: int)
    requires
        x >= 0,
        a > 0,
    ensures
        x % a == 0 ==> ceil_div_int(x, a) == x / a,
        x % a != 0 ==> ceil_div_int(x, a) == x / a + 1,
        ceil_div_int(x, a) >= 0,
{
    lemma_fundamental_div_mod(x, a);
    lemma_mod_division_less_than_divisor(x, a);
    let q = x / a;
    let r = x % a;
    assert(q * a == a * q) by (nonlinear_arith);
    if r == 0 {
        lemma_fundamental_div_mod_converse(x + a - 1, a, q, a - 1);
    } else {
        assert((q + 1) * a == q * a + a) by (nonlinear_arith);
        lemma_fundamental_div_mod_converse(x + a - 1, a, q + 1, r - 1);
    }
    lemma_div_pos_is_pos(x, a);
}

/// Ceiling division rounds up just enough: the result times the divisor
/// covers the dividend, but overshoots it by less than one divisor.
/// (One half of this law, with the dividend zero, is an equality:
/// the product is zero.)
pub proof fn lemma_ceil_div_bounds(x: int, a: int)
    requires
        x >= 0,
        a > 0,
    ensures
        ceil_div_int(x, a) * a >= x,
        ceil_div_int(x, a) * a < x + a,
{
    lemma_fundamental_div_mod(x, a);
    lemma_mod_division_less_than_divisor(x, a);
    lemma_ceil_div(x, a);
    let q = x / a;
    assert(q * a == a * q) by (nonlinear_arith);
    if x % a != 0 {
        assert((q + 1) * a == q * a + a) by (nonlinear_arith);
    }
}

/// Component-wise: `a.ceil_div(b)` times `b` covers `a`, but overshoots
/// it by less than one tile on each axis.
pub proof fn lemma_ceil_div_covers(a: Vec2d, b: Vec2d)
    requires
        b.x > 0,
        b.y > 0,
    ensures
        ceil_div_int(a.x as int, b.x as int) * b.x >= a.x,
        ceil_div_int(a.x as int, b.x as int) * b.x < a.x + b.x,
        ceil_div_int(a.y as int, b.y as int) * b.y >= a.y,
        ceil_div_int(a.y as int, b.y as int) * b.y < a.y + b.y,
{
    lemma_ceil_div_bounds(a.x as int, b.x as int);
    lemma_ceil_div_bounds(a.y as int, b.y as int);
}

impl Vec2d {
    /// The component-wise maximum of two vectors.
    pub fn max(self, other: Vec2d) -> (r: Vec2d)
        ensures
            r.x == if self.x >= other.x { self.x } else { other.x },
            r.y == if self.y >= other.y { self.y } else { other.y },
    {
        Vec2d {
            x: if self.x >= other.x { self.x } else { other.x },
            y: if self.y >= other.y { self.y } else { other.y },
        }
    }

    /// The component-wise minimum of two vectors.
    pub fn min(self, other: Vec2d) -> (r: Vec2d)
        ensures
            r.x == if self.x <= other.x { self.x } else { other.x },
            r.y == if self.y <= other.y { self.y } else { other.y },
    {
        Vec2d {
            x: if self.x <= other.x { self.x } else { other.x },
            y: if self.y <= other.y { self.y } else { other.y },
        }
    }

    /// Component-wise division, rounding up.
    pub fn ceil_div(self, other: Vec2d) -> (r: Vec2d)
        requires
            other.x > 0,
            other.y > 0,
        ensures
            r.x == ceil_div_int(self.x as int, other.x as int),
            r.y == ceil_div_int(self.y as int, other.y as int),
    {
        proof {
            lemma_ceil_div(self.x as int, other.x as int);
            lemma_ceil_div(self.y as int, other.y as int);
            lemma_div_nonincreasing(self.x as int, other.x as int);
            lemma_div_nonincreasing(self.y as int, other.y as int);
            lemma_one_divides(self.x as int);
            lemma_one_divides(self.y as int);
            lemma_small_mod(0, other.x as nat);
            lemma_small_mod(0, other.y as nat);
            if self.x % other.x != 0 {
                lemma_div_is_strictly_smaller(self.x as int, other.x as int);
            }
            if self.y % other.y != 0 {
                lemma_div_is_strictly_smaller(self.y as int, other.y as int);
            }
        }
        let x = self.x / other.x + if self.x % other.x == 0 { 0u32 } else { 1u32 };
        let y = self.y / other.y + if self.y % other.y == 0 { 0u32 } else { 1u32 };
        Vec2d { x, y }
    }

    /// The square vector `(n, n)`.
    pub fn square(n: u32) -> (r: Vec2d)
        ensures
            r == (Vec2d { x: n, y: n }),
    {
        Vec2d { x: n, y: n }
    }

    /// Component-wise addition.
    pub fn plus(self, rhs: Vec2d) -> (r: Vec2d)
        requires
            self.x + rhs.x <= u32::MAX,
            self.y + rhs.y <= u32::MAX,
        ensures
            r.x == self.x + rhs.x,
            r.y == self.y + rhs.y,
    {
        Vec2d { x: self.x + rhs.x, y: self.y + rhs.y }
    }

    /// Component-wise subtraction, saturating at zero: a component of the
    /// result is never negative.
    pub fn minus(self, rhs: Vec2d) -> (r: Vec2d)
        ensures
            r.x == if self.x >= rhs.x { self.x - rhs.x } else { 0 },
            r.y == if self.y >= rhs.y { self.y - rhs.y } else { 0 },
    {
        Vec2d {
            x: if self.x >= rhs.x { self.x - rhs.x } else { 0 },
            y: if self.y >= rhs.y { self.y - rhs.y } else { 0 },
        }
    }

    /// Component-wise multiplication.
    pub fn times(self, rhs: Vec2d) -> (r: Vec2d)
        requires
            self.x * rhs.x <= u32::MAX,
            self.y * rhs.y <= u32::MAX,
        ensures
            r.x == self.x * rhs.x,
            r.y == self.y * rhs.y,
    {
        Vec2d { x: self.x * rhs.x, y: self.y * rhs.y }
    }

    /// Multiplication by a scalar, applied to both components.
    pub fn times_scalar(self, rhs: u32) -> (r: Vec2d)
        requires
            self.x * rhs <= u32::MAX,
            self.y * rhs <= u32::MAX,
        ensures
            r.x == self.x * rhs,
            r.y == self.y * rhs,
    {
        Vec2d { x: self.x * rhs, y: self.y * rhs }
    }

    /// Component-wise division, truncating toward zero.
    pub fn div_by(self, rhs: Vec2d) -> (r: Vec2d)
        requires
            rhs.x > 0,
            rhs.y > 0,
        ensures
            r.x == self.x as int / rhs.x as int,
            r.y == self.y as int / rhs.y as int,
    {
        Vec2d { x: self.x / rhs.x, y: self.y / rhs.y }
    }

    /// The vector, written out as `x=<x> y=<y>`.
    pub fn display_string(&self) -> (r: String)
        ensures
            r@ == "x="@ + crate::text::dec_of(self.x as int) + " y="@ + crate::text::dec_of(
                self.y as int,
            ),
    {
        let mut s = String::from_str("x=");
        crate::text::append_dec_u64(&mut s, self.x as u64);
        s.append(" y=");
        crate::text::append_dec_u64(&mut s, self.y as u64);
        proof {
            assert(s@ =~= "x="@ + crate::text::dec_of(self.x as int) + " y="@
                + crate::text::dec_of(self.y as int));
        }
        s
    }

    /// Division by a scalar, truncating toward zero, applied to both
    /// components.
    pub fn div_scalar(self, rhs: u32) -> (r: Vec2d)
        requires
            rhs > 0,
        ensures
            r.x == self.x as int / rhs as int,
            r.y == self.y as int / rhs as int,
    {
        Vec2d { x: self.x / rhs, y: self.y / rhs }
    }
}

} // verus!
