//! Fixed-point scalars in millionths.  The terrain pipeline's sample values,
//! world positions and spline weights are all carried in this form, so that
//! the interpolation and smoothing arithmetic is exact and verifiable.
//! Multiplication and division truncate toward zero.

use vstd::prelude::*;
use crate::hex::abs_val;

verus! {

/// Number of raw units per one: values are stored in millionths.
pub const FX_SCALE: i64 = 1_000_000;

/// A scalar in millionths.
#[derive(Clone, Copy, PartialEq, Eq, Structural, Debug, Hash)]
pub struct Fx {
    pub raw: i64,
}

/// Division truncating toward zero, for a positive divisor.
pub open spec fn tdiv(n: int, d: int) -> int {
    if n >= 0 {
        n / d
    } else {
        -((-n) / d)
    }
}

/// The raw value of the fixed-point product of two raw values.
pub open spec fn fx_mul_spec(a: int, b: int) -> int {
    tdiv(a * b, FX_SCALE as int)
}

/// The raw value of the fixed-point quotient of two raw values.
pub open spec fn fx_div_spec(a: int, b: int) -> int {
    if b >= 0 {
        tdiv(a * (FX_SCALE as int), b)
    } else {
        tdiv(-(a * (FX_SCALE as int)), -b)
    }
}

/// Truncating division by a positive divisor shrinks magnitudes:
/// `|tdiv(n, d)| * d <= |n|`.
pub proof fn lemma_tdiv_mag(n: int, d: int)
    requires
        0 < d,
    ensures
        abs_val(tdiv(n, d)) * d <= abs_val(n),
        n >= 0 ==> tdiv(n, d) >= 0,
        n <= 0 ==> tdiv(n, d) <= 0,
{
    if n >= 0 {
        vstd::arithmetic::div_mod::lemma_fundamental_div_mod(n, d);
        let q = n / d;
        assert(q >= 0 && q * d <= n) by (nonlinear_arith)
            requires
                0 < d,
                0 <= n,
                n == d * q + n % d,
                0 <= n % d < d,
        ;
    } else {
        vstd::arithmetic::div_mod::lemma_fundamental_div_mod(-n, d);
        let q = (-n) / d;
        assert(q >= 0 && q * d <= -n) by (nonlinear_arith)
            requires
                0 < d,
                0 <= -n,
                -n == d * q + (-n) % d,
                0 <= (-n) % d < d,
        ;
    }
}

/// Linear blend of two raw values by a fixed-point fraction `f` in
/// `[0, 1]`: `a * (1 - f) + b * f`, each product truncating toward zero.
pub open spec fn bilerp_spec(a: int, b: int, f: int) -> int {
    fx_mul_spec(a, FX_SCALE as int - f) + fx_mul_spec(b, f)
}

/// A magnitude bound on the fixed-point product from bounds on the factors.
pub proof fn lemma_fx_mul_bound(a: int, b: int, ma: int, mb: int)
    requires
        abs_val(a) <= ma,
        abs_val(b) <= mb,
    ensures
        abs_val(fx_mul_spec(a, b)) * (FX_SCALE as int) <= ma * mb,
{
    let s = FX_SCALE as int;
    lemma_tdiv_mag(a * b, s);
    assert(abs_val(a * b) <= ma * mb) by (nonlinear_arith)
        requires
            abs_val(a) <= ma,
            abs_val(b) <= mb,
    ;
}

/// A blend of two nonnegative values between `lo` and `hi` stays between
/// `lo - 1` and `hi`: each truncation loses less than one raw unit.
pub proof fn lemma_bilerp_envelope(a: int, b: int, f: int, lo: int, hi: int)
    requires
        0 <= f <= FX_SCALE,
        lo <= a <= hi,
        lo <= b <= hi,
        0 <= a,
        0 <= b,
    ensures
        lo - 1 <= bilerp_spec(a, b, f),
        bilerp_spec(a, b, f) <= hi,
        0 <= bilerp_spec(a, b, f),
{
    let s = FX_SCALE as int;
    let x1 = a * (s - f);
    let x2 = b * f;
    assert(0 <= x1 && 0 <= x2) by (nonlinear_arith)
        requires
            0 <= a,
            0 <= b,
            0 <= f <= s,
            x1 == a * (s - f),
            x2 == b * f,
    ;
    assert(lo * s <= x1 + x2) by (nonlinear_arith)
        requires
            lo <= a,
            lo <= b,
            0 <= f <= s,
            x1 == a * (s - f),
            x2 == b * f,
    ;
    assert(x1 + x2 <= hi * s) by (nonlinear_arith)
        requires
            a <= hi,
            b <= hi,
            0 <= f <= s,
            x1 == a * (s - f),
            x2 == b * f,
    ;
    vstd::arithmetic::div_mod::lemma_fundamental_div_mod(x1, s);
    vstd::arithmetic::div_mod::lemma_fundamental_div_mod(x2, s);
    let q1 = x1 / s;
    let q2 = x2 / s;
    assert(fx_mul_spec(a, s - f) == q1);
    assert(fx_mul_spec(b, f) == q2);
    assert(lo - 1 <= q1 + q2 && q1 + q2 <= hi && 0 <= q1 + q2) by (nonlinear_arith)
        requires
            0 < s,
            lo * s <= x1 + x2,
            x1 + x2 <= hi * s,
            0 <= x1,
            0 <= x2,
            x1 == s * q1 + x1 % s,
            x2 == s * q2 + x2 % s,
            0 <= x1 % s < s,
            0 <= x2 % s < s,
    ;
}

/// A blend of two values within a common bound stays within twice the bound.
pub proof fn lemma_bilerp_bound(a: int, b: int, f: int, m: int)
    requires
        0 <= f <= FX_SCALE,
        abs_val(a) <= m,
        abs_val(b) <= m,
        0 <= m,
    ensures
        abs_val(bilerp_spec(a, b, f)) <= 2 * m,
        a >= 0 && b >= 0 ==> bilerp_spec(a, b, f) >= 0,
{
    lemma_fx_mul_frac_bound(a, FX_SCALE as int - f);
    lemma_fx_mul_frac_bound(b, f);
}

/// Multiplying by a factor of at most one (in fixed point) cannot grow the
/// magnitude.
pub proof fn lemma_fx_mul_frac_bound(x: int, t: int)
    requires
        0 <= t <= FX_SCALE,
    ensures
        abs_val(fx_mul_spec(x, t)) <= abs_val(x),
        x >= 0 ==> fx_mul_spec(x, t) >= 0,
        x < 0 ==> fx_mul_spec(x, t) <= 0,
{
    let s = FX_SCALE as int;
    lemma_tdiv_mag(x * t, s);
    let q = tdiv(x * t, s);
    assert(x >= 0 ==> 0 <= x * t <= x * s) by (nonlinear_arith)
        requires
            0 <= t <= s,
    ;
    assert(x < 0 ==> x * s <= x * t <= 0) by (nonlinear_arith)
        requires
            0 <= t <= s,
    ;
    assert(abs_val(x * t) <= abs_val(x) * s) by (nonlinear_arith)
        requires
            0 <= t <= s,
    ;
    assert(abs_val(q) <= abs_val(x)) by (nonlinear_arith)
        requires
            abs_val(q) * s <= abs_val(x * t),
            abs_val(x * t) <= abs_val(x) * s,
            0 < s,
            abs_val(q) >= 0,
            abs_val(x) >= 0,
    ;
}

impl Fx {
    /// The zero scalar.
    pub fn zero() -> (r: Fx)
        ensures
            r.raw == 0,
    {
        Fx { raw: 0 }
    }

    /// Builds a scalar directly from raw millionths.
    pub fn from_raw(raw: i64) -> (r: Fx)
        ensures
            r.raw == raw,
    {
        Fx { raw }
    }

    /// Builds the scalar for a whole number of units.
    pub fn from_units(units: i32) -> (r: Fx)
        ensures
            r.raw == units as int * FX_SCALE,
    {
        Fx { raw: (units as i64) * FX_SCALE }
    }

    /// Sum of two scalars.
    pub fn add_to(self, other: Fx) -> (r: Fx)
        requires
            -0x7fff_ffff_ffff_ffff <= self.raw + other.raw <= 0x7fff_ffff_ffff_ffff,
        ensures
            r.raw == self.raw + other.raw,
    {
        Fx { raw: self.raw + other.raw }
    }

    /// Difference of two scalars.
    pub fn sub_from(self, other: Fx) -> (r: Fx)
        requires
            -0x7fff_ffff_ffff_ffff <= self.raw - other.raw <= 0x7fff_ffff_ffff_ffff,
        ensures
            r.raw == self.raw - other.raw,
    {
        Fx { raw: self.raw - other.raw }
    }

    /// Negation.
    pub fn neg(self) -> (r: Fx)
        requires
            self.raw > -0x7fff_ffff_ffff_ffff,
        ensures
            r.raw == -self.raw,
    {
        Fx { raw: -self.raw }
    }

    /// Fixed-point product, truncating toward zero.
    pub fn mul_by(self, other: Fx) -> (r: Fx)
        requires
            abs_val(self.raw as int) * abs_val(other.raw as int) <= 0x7fff_ffff_ffff_ffff
                * (FX_SCALE as int),
        ensures
            r.raw == fx_mul_spec(self.raw as int, other.raw as int),
    {
        let neg: bool = (self.raw < 0) != (other.raw < 0);
        let ma: u128 = if self.raw < 0 {
            (-(self.raw as i128)) as u128
        } else {
            self.raw as u128
        };
        let mb: u128 = if other.raw < 0 {
            (-(other.raw as i128)) as u128
        } else {
            other.raw as u128
        };
        proof {
            assert(ma as int == abs_val(self.raw as int));
            assert(mb as int == abs_val(other.raw as int));
            assert((ma as int) * (mb as int) <= 0x7fff_ffff_ffff_ffff * (FX_SCALE as int));
        }
        let p: u128 = ma * mb;
        let q: u128 = p / (FX_SCALE as u128);
        proof {
            lemma_mag_div(p as int, FX_SCALE as int, 0x7fff_ffff_ffff_ffff);
        }
        let mag: i64 = q as i64;
        proof {
            lemma_mul_sign_split(self.raw as int, other.raw as int, ma as int, mb as int);
            lemma_tdiv_of_product(
                self.raw as int,
                other.raw as int,
                ma as int,
                mb as int,
                FX_SCALE as int,
            );
        }
        if neg {
            Fx { raw: -mag }
        } else {
            Fx { raw: mag }
        }
    }

    /// Fixed-point quotient, truncating toward zero.
    pub fn div_by(self, other: Fx) -> (r: Fx)
        requires
            other.raw != 0,
            abs_val(self.raw as int) * (FX_SCALE as int) <= 0x7fff_ffff_ffff_ffff * abs_val(
                other.raw as int,
            ),
        ensures
            r.raw == fx_div_spec(self.raw as int, other.raw as int),
    {
        let neg: bool = (self.raw < 0) != (other.raw < 0);
        let ma: u128 = if self.raw < 0 {
            (-(self.raw as i128)) as u128
        } else {
            self.raw as u128
        };
        let mb: u128 = if other.raw < 0 {
            (-(other.raw as i128)) as u128
        } else {
            other.raw as u128
        };
        proof {
            assert(ma as int == abs_val(self.raw as int));
            assert(mb as int == abs_val(other.raw as int));
            assert((ma as int) * (FX_SCALE as int) <= 0x7fff_ffff_ffff_ffff * (mb as int));
        }
        let p: u128 = ma * (FX_SCALE as u128);
        let q: u128 = p / mb;
        proof {
            lemma_div_le_factor(ma as int, FX_SCALE as int, mb as int, 0x7fff_ffff_ffff_ffff);
        }
        let mag: i64 = q as i64;
        proof {
            lemma_fx_div_sign(self.raw as int, other.raw as int, ma as int, mb as int);
        }
        if neg {
            Fx { raw: -mag }
        } else {
            Fx { raw: mag }
        }
    }

    /// Clamps the scalar between two bounds.
    pub fn clamp_to(self, lo: Fx, hi: Fx) -> (r: Fx)
        requires
            lo.raw <= hi.raw,
        ensures
            r.raw == if self.raw < lo.raw {
                lo.raw
            } else if self.raw > hi.raw {
                hi.raw
            } else {
                self.raw
            },
    {
        if self.raw < lo.raw {
            lo
        } else if self.raw > hi.raw {
            hi
        } else {
            self
        }
    }
}

/// Bounds a magnitude quotient: if `p <= limit * d` then `p / d <= limit`.
proof fn lemma_mag_div(p: int, d: int, limit: int)
    requires
        0 < d,
        0 <= p,
        p <= limit * d,
    ensures
        0 <= p / d <= limit,
{
    vstd::arithmetic::div_mod::lemma_fundamental_div_mod(p, d);
    let q = p / d;
    assert(0 <= q <= limit) by (nonlinear_arith)
        requires
            0 < d,
            0 <= p,
            p <= limit * d,
            p == d * q + p % d,
            0 <= p % d < d,
    ;
}

/// Bounds a quotient by a factor: if `a * s <= limit * b` then
/// `(a * s) / b <= limit`.
proof fn lemma_div_le_factor(a: int, s: int, b: int, limit: int)
    requires
        0 <= a,
        0 < s,
        0 < b,
        a * s <= limit * b,
    ensures
        0 <= (a * s) / b <= limit,
{
    assert(0 <= a * s) by (nonlinear_arith)
        requires
            0 <= a,
            0 < s,
    ;
    lemma_mag_div(a * s, b, limit);
}

/// The product of two integers equals the signed product of their magnitudes.
proof fn lemma_mul_sign_split(a: int, b: int, ma: int, mb: int)
    requires
        ma == abs_val(a),
        mb == abs_val(b),
    ensures
        a * b == ma * mb || a * b == -(ma * mb),
        (a >= 0 && b >= 0) || (a < 0 && b < 0) ==> a * b == ma * mb,
        (a >= 0 && b < 0) || (a < 0 && b >= 0) ==> a * b == -(ma * mb) || a * b == 0,
        ma * mb >= 0,
{
    assert(a * b == ma * mb || a * b == -(ma * mb)) by (nonlinear_arith)
        requires
            ma == abs_val(a),
            mb == abs_val(b),
    ;
    assert((a >= 0 && b >= 0) || (a < 0 && b < 0) ==> a * b == ma * mb) by (nonlinear_arith)
        requires
            ma == abs_val(a),
            mb == abs_val(b),
    ;
    assert((a >= 0 && b < 0) || (a < 0 && b >= 0) ==> a * b == -(ma * mb) || a * b == 0)
        by (nonlinear_arith)
        requires
            ma == abs_val(a),
            mb == abs_val(b),
    ;
    assert(ma * mb >= 0) by (nonlinear_arith)
        requires
            ma >= 0,
            mb >= 0,
    ;
}

/// Truncated division of a signed product in terms of its magnitudes.
proof fn lemma_tdiv_of_product(a: int, b: int, ma: int, mb: int, d: int)
    requires
        0 < d,
        ma == abs_val(a),
        mb == abs_val(b),
    ensures
        ((a < 0) != (b < 0)) ==> tdiv(a * b, d) == -((ma * mb) / d),
        !((a < 0) != (b < 0)) ==> tdiv(a * b, d) == (ma * mb) / d,
{
    lemma_mul_sign_split(a, b, ma, mb);
    if (a < 0) != (b < 0) {
        if a * b == 0 {
            assert(ma * mb == 0);
            assert(tdiv(0, d) == 0) by {
                vstd::arithmetic::div_mod::lemma_fundamental_div_mod_converse(0, d, 0, 0);
            }
            assert((ma * mb) / d == 0) by {
                vstd::arithmetic::div_mod::lemma_fundamental_div_mod_converse(0, d, 0, 0);
            }
        } else {
            assert(a * b == -(ma * mb) && ma * mb > 0);
        }
    } else {
        assert(a * b == ma * mb && ma * mb >= 0);
    }
}

/// Sign form of the fixed-point quotient in terms of the magnitudes.
proof fn lemma_fx_div_sign(a: int, b: int, ma: int, mb: int)
    requires
        ma == abs_val(a),
        mb == abs_val(b),
        b != 0,
    ensures
        ((a < 0) != (b < 0)) ==> fx_div_spec(a, b) == -((ma * (FX_SCALE as int)) / mb),
        !((a < 0) != (b < 0)) ==> fx_div_spec(a, b) == (ma * (FX_SCALE as int)) / mb,
{
    let s = FX_SCALE as int;
    assert(a >= 0 ==> a * s == ma * s) by (nonlinear_arith)
        requires
            ma == abs_val(a),
            s == FX_SCALE as int,
    ;
    assert(a < 0 ==> a * s == -(ma * s)) by (nonlinear_arith)
        requires
            ma == abs_val(a),
            s == FX_SCALE as int,
    ;
    assert(ma * s >= 0) by (nonlinear_arith)
        requires
            ma >= 0,
            s > 0,
    ;
    if a == 0 {
        assert(tdiv(0, mb) == 0) by {
            vstd::arithmetic::div_mod::lemma_fundamental_div_mod_converse(0, mb, 0, 0);
        }
        assert(a * s == 0) by (nonlinear_arith)
            requires
                a == 0,
        ;
        assert(ma * s == 0) by (nonlinear_arith)
            requires
                ma == 0,
        ;
    }
}

} // verus!
