//! Plane geometry over fixed-point scalars: points, cross products, triangle
//! containment, and the threshold-crossing interpolation rule shared by both
//! contour extraction strategies.

use vstd::prelude::*;
use vstd::arithmetic::div_mod::lemma_fundamental_div_mod;
use crate::fixed::{Fx, tdiv};
use crate::hex::abs_val;

verus! {

/// Magnitude bound for well-formed point components (a billion world
/// units): small enough that cross products fit an `i128` comfortably.
pub const PT_LIMIT: i64 = 1_000_000_000_000_000;

/// Magnitude bound for well-formed sample values (one thousand units).
pub const VAL_LIMIT: i64 = 1_000_000_000;

/// A point of the working plane, in fixed-point millionths.
#[derive(Clone, Copy, PartialEq, Eq, Structural, Debug, Hash)]
pub struct Pt2 {
    pub x: Fx,
    pub y: Fx,
}

/// A point of space, used for mesh vertices and normals.
#[derive(Clone, Copy, PartialEq, Eq, Structural, Debug, Hash)]
pub struct Pt3 {
    pub x: Fx,
    pub y: Fx,
    pub z: Fx,
}

/// Well-formedness of a plane point: both components within `PT_LIMIT`.
pub open spec fn pt_wf(p: Pt2) -> bool {
    -PT_LIMIT <= p.x.raw <= PT_LIMIT && -PT_LIMIT <= p.y.raw <= PT_LIMIT
}

/// Well-formedness of a sample value.
pub open spec fn val_wf(v: Fx) -> bool {
    -VAL_LIMIT <= v.raw <= VAL_LIMIT
}

/// Twice the signed area of the triangle `a b c`, in raw units squared;
/// positive when the triangle winds counter-clockwise.
pub open spec fn cross3(a: Pt2, b: Pt2, c: Pt2) -> int {
    (b.x.raw - a.x.raw) * (c.y.raw - a.y.raw) - (c.x.raw - a.x.raw) * (b.y.raw - a.y.raw)
}

/// Whether `p` lies inside (or on the border of) the triangle `a b c`,
/// whichever way it winds: `p` is on the same side of all three directed
/// edges.
pub open spec fn point_in_tri(p: Pt2, a: Pt2, b: Pt2, c: Pt2) -> bool {
    (cross3(a, b, p) >= 0 && cross3(b, c, p) >= 0 && cross3(c, a, p) >= 0) || (cross3(a, b, p)
        <= 0 && cross3(b, c, p) <= 0 && cross3(c, a, p) <= 0)
}

/// The crossing parameter of the interpolation rule, as a clamped fraction:
/// numerator and positive denominator with `0 <= num <= den`, representing
/// `clamp((threshold - v1) / (v2 - v1), 0, 1)`.
pub open spec fn interp_num_den(v1: int, v2: int, threshold: int) -> (int, int) {
    let tn = threshold - v1;
    let td = v2 - v1;
    if td > 0 {
        (if tn < 0 {
            0
        } else if tn > td {
            td
        } else {
            tn
        }, td)
    } else {
        (if -tn < 0 {
            0
        } else if -tn > -td {
            -td
        } else {
            -tn
        }, -td)
    }
}

/// The point where the contour crosses the edge from `p1` to `p2`, given the
/// values at the two ends: `p1 + (p2 - p1) * t` for the clamped crossing
/// parameter `t = (threshold - v1) / (v2 - v1)`.  When the two values are
/// equal the edge start is returned.
pub open spec fn interp_spec(p1: Pt2, p2: Pt2, v1: int, v2: int, threshold: int) -> Pt2 {
    if v1 == v2 {
        p1
    } else {
        let (num, den) = interp_num_den(v1, v2, threshold);
        Pt2 {
            x: Fx { raw: (p1.x.raw + tdiv((p2.x.raw - p1.x.raw) * num, den)) as i64 },
            y: Fx { raw: (p1.y.raw + tdiv((p2.y.raw - p1.y.raw) * num, den)) as i64 },
        }
    }
}

/// Scaling a difference by a clamped fraction keeps it between zero and the
/// difference.
pub proof fn lemma_tdiv_between(delta: int, num: int, den: int)
    requires
        0 < den,
        0 <= num <= den,
    ensures
        delta >= 0 ==> 0 <= tdiv(delta * num, den) <= delta,
        delta < 0 ==> delta <= tdiv(delta * num, den) <= 0,
{
    if delta >= 0 {
        assert(0 <= delta * num <= delta * den) by (nonlinear_arith)
            requires
                0 <= delta,
                0 <= num <= den,
        ;
        lemma_fundamental_div_mod(delta * num, den);
        let q = (delta * num) / den;
        assert(0 <= q <= delta) by (nonlinear_arith)
            requires
                0 < den,
                0 <= delta * num <= delta * den,
                delta * num == den * q + (delta * num) % den,
                0 <= (delta * num) % den < den,
        ;
    } else {
        let m = -delta;
        assert(delta * num == -(m * num) && 0 <= m * num <= m * den) by (nonlinear_arith)
            requires
                m == -delta,
                0 <= m,
                0 <= num <= den,
        ;
        lemma_fundamental_div_mod(m * num, den);
        let q = (m * num) / den;
        assert(0 <= q <= m) by (nonlinear_arith)
            requires
                0 < den,
                0 <= m * num <= m * den,
                m * num == den * q + (m * num) % den,
                0 <= (m * num) % den < den,
        ;
    }
}

/// Multiplies a bounded difference by a clamped fraction, truncating:
/// `tdiv(delta * num, den)` for `0 <= num <= den`.
fn scale_frac(delta: i64, num: i64, den: i64) -> (r: i64)
    requires
        0 < den <= 4 * (VAL_LIMIT as int),
        0 <= num <= den,
        -2 * (PT_LIMIT as int) <= delta <= 2 * (PT_LIMIT as int),
    ensures
        r == tdiv(delta as int * num as int, den as int),
        delta >= 0 ==> 0 <= r <= delta,
        delta < 0 ==> delta <= r <= 0,
{
    proof {
        lemma_tdiv_between(delta as int, num as int, den as int);
    }
    let neg: bool = delta < 0;
    let m: u128 = if delta < 0 {
        (-(delta as i128)) as u128
    } else {
        delta as u128
    };
    proof {
        assert((m as int) * ((num as u128) as int) <= 0x1_0000_0000_0000_0000_0000_0000)
            by (nonlinear_arith)
            requires
                0 <= m <= 2 * (PT_LIMIT as int),
                0 <= (num as u128) as int <= 4 * (VAL_LIMIT as int),
        ;
    }
    let p: u128 = m * (num as u128);
    let q: u128 = p / (den as u128);
    proof {
        if delta >= 0 {
            assert(delta as int * num as int == (m as int) * (num as int));
            assert(q as int == (delta as int * num as int) / (den as int));
        } else {
            assert(delta as int * num as int == -((m as int) * (num as int))) by (nonlinear_arith)
                requires
                    m == -(delta as int),
            ;
        }
        lemma_tdiv_between(m as int, num as int, den as int);
    }
    if neg {
        -(q as i64)
    } else {
        q as i64
    }
}

/// The point where the contour crosses the edge from `p1` to `p2`: linear
/// interpolation at the clamped threshold-crossing parameter
/// `t = (threshold - v1) / (v2 - v1)`.
pub fn interpolate_edge(p1: Pt2, p2: Pt2, v1: Fx, v2: Fx, threshold: Fx) -> (r: Pt2)
    requires
        pt_wf(p1),
        pt_wf(p2),
        val_wf(v1),
        val_wf(v2),
        val_wf(threshold),
    ensures
        r == interp_spec(p1, p2, v1.raw as int, v2.raw as int, threshold.raw as int),
        pt_wf(r),
        p1.x.raw <= p2.x.raw ==> p1.x.raw <= r.x.raw <= p2.x.raw,
        p2.x.raw <= p1.x.raw ==> p2.x.raw <= r.x.raw <= p1.x.raw,
        p1.y.raw <= p2.y.raw ==> p1.y.raw <= r.y.raw <= p2.y.raw,
        p2.y.raw <= p1.y.raw ==> p2.y.raw <= r.y.raw <= p1.y.raw,
{
    if v1.raw == v2.raw {
        return p1;
    }
    let tn: i64 = threshold.raw - v1.raw;
    let td: i64 = v2.raw - v1.raw;
    let num: i64 = if td > 0 {
        if tn < 0 {
            0
        } else if tn > td {
            td
        } else {
            tn
        }
    } else {
        if -tn < 0 {
            0
        } else if -tn > -td {
            -td
        } else {
            -tn
        }
    };
    let den: i64 = if td > 0 {
        td
    } else {
        -td
    };
    let dx: i64 = p2.x.raw - p1.x.raw;
    let dy: i64 = p2.y.raw - p1.y.raw;
    let rx: i64 = p1.x.raw + scale_frac(dx, num, den);
    let ry: i64 = p1.y.raw + scale_frac(dy, num, den);
    Pt2 { x: Fx { raw: rx }, y: Fx { raw: ry } }
}

} // verus!
