//! The hex layout: orientation and per-axis scale, and the conversions
//! between axial coordinates and world-space positions.  The square root of
//! three is carried as a fixed-point constant.

use vstd::prelude::*;
use crate::fixed::{fx_div_spec, fx_mul_spec, lemma_fx_mul_bound, tdiv, Fx, FX_SCALE};
use crate::geom::{pt_wf, Pt2, PT_LIMIT};
use crate::hex::{abs_val, coord_in_bounds, HexCoord};
use crate::intmath::{round_div, round_div_spec};

verus! {

/// The square root of three, in fixed-point millionths.
pub const SQRT3: i64 = 1_732_051;

/// Half the square root of three, in fixed-point millionths.
pub const SQRT3_HALF: i64 = 866_025;

/// Largest accepted layout scale (one thousand world units per cell).
pub const SCALE_LIMIT: i64 = 1_000_000_000;

/// Largest axial coordinate magnitude accepted by the world conversions.
pub const LAYOUT_COORD_LIMIT: i32 = 300_000;

/// Cell orientation: flat-topped or pointy-topped hexagons.
#[derive(Clone, Copy, PartialEq, Eq, Structural, Debug)]
pub enum HexOrientation {
    Flat,
    Pointy,
}

/// Immutable grid configuration: orientation and per-axis world scale.
#[derive(Clone, Copy, PartialEq, Eq, Structural, Debug)]
pub struct HexLayout {
    pub orientation: HexOrientation,
    pub scale_x: Fx,
    pub scale_y: Fx,
}

impl HexLayout {
    /// A usable layout: positive scales within the limit.
    pub open spec fn wf(self) -> bool {
        0 < self.scale_x.raw <= SCALE_LIMIT && 0 < self.scale_y.raw <= SCALE_LIMIT
    }

    /// Builds a layout from an orientation and per-axis scales.
    pub fn new(orientation: HexOrientation, scale_x: Fx, scale_y: Fx) -> (l: HexLayout)
        ensures
            l.orientation == orientation,
            l.scale_x == scale_x,
            l.scale_y == scale_y,
    {
        HexLayout { orientation, scale_x, scale_y }
    }

    /// The unscaled x position of a cell (fixed point): `3/2 q` for flat
    /// orientation, `sqrt3 (q + r/2)` for pointy.
    pub open spec fn unit_x(self, q: int, r: int) -> int {
        match self.orientation {
            HexOrientation::Flat => q * 1_500_000,
            HexOrientation::Pointy => q * (SQRT3 as int) + r * (SQRT3_HALF as int),
        }
    }

    /// The unscaled y position of a cell: `sqrt3 (r + q/2)` for flat
    /// orientation, `3/2 r` for pointy.
    pub open spec fn unit_y(self, q: int, r: int) -> int {
        match self.orientation {
            HexOrientation::Flat => r * (SQRT3 as int) + q * (SQRT3_HALF as int),
            HexOrientation::Pointy => r * 1_500_000,
        }
    }

    /// The world position of a cell center: the unscaled position times the
    /// per-axis scale.
    pub open spec fn world_of(self, h: HexCoord) -> Pt2 {
        Pt2 {
            x: Fx {
                raw: fx_mul_spec(self.scale_x.raw as int, self.unit_x(h.q as int, h.r as int)) as i64,
            },
            y: Fx {
                raw: fx_mul_spec(self.scale_y.raw as int, self.unit_y(h.q as int, h.r as int)) as i64,
            },
        }
    }

    /// Converts a cell to its world-space center position.
    pub fn hex_to_world_pos(&self, h: HexCoord) -> (p: Pt2)
        requires
            self.wf(),
            -LAYOUT_COORD_LIMIT <= h.q <= LAYOUT_COORD_LIMIT,
            -LAYOUT_COORD_LIMIT <= h.r <= LAYOUT_COORD_LIMIT,
        ensures
            p == self.world_of(h),
            pt_wf(p),
            -900_000_000_000_000 <= p.x.raw <= 900_000_000_000_000,
            -900_000_000_000_000 <= p.y.raw <= 900_000_000_000_000,
    {
        let q: i64 = h.q as i64;
        let r: i64 = h.r as i64;
        let (ux, uy): (i64, i64) = match self.orientation {
            HexOrientation::Flat => (q * 1_500_000, r * SQRT3 + q * SQRT3_HALF),
            HexOrientation::Pointy => (q * SQRT3 + r * SQRT3_HALF, r * 1_500_000),
        };
        proof {
            lemma_fx_mul_bound(
                self.scale_x.raw as int,
                ux as int,
                SCALE_LIMIT as int,
                900_000_000_000,
            );
            lemma_fx_mul_bound(
                self.scale_y.raw as int,
                uy as int,
                SCALE_LIMIT as int,
                900_000_000_000,
            );
            assert(abs_val(self.scale_x.raw as int) * abs_val(ux as int) <= 0x7fff_ffff_ffff_ffff
                * (FX_SCALE as int)) by (nonlinear_arith)
                requires
                    abs_val(self.scale_x.raw as int) <= SCALE_LIMIT as int,
                    abs_val(ux as int) <= 900_000_000_000,
            ;
            assert(abs_val(self.scale_y.raw as int) * abs_val(uy as int) <= 0x7fff_ffff_ffff_ffff
                * (FX_SCALE as int)) by (nonlinear_arith)
                requires
                    abs_val(self.scale_y.raw as int) <= SCALE_LIMIT as int,
                    abs_val(uy as int) <= 900_000_000_000,
            ;
            assert((SCALE_LIMIT as int) * 900_000_000_000 / (FX_SCALE as int) <= PT_LIMIT as int);
        }
        let px: Fx = self.scale_x.mul_by(Fx { raw: ux });
        let py: Fx = self.scale_y.mul_by(Fx { raw: uy });
        Pt2 { x: px, y: py }
    }

    /// The unscaled offset of corner `k` from the cell center: the unit
    /// hexagon corner directions, in fixed point.
    pub open spec fn corner_unit_x(self, k: int) -> int {
        match self.orientation {
            HexOrientation::Flat => if k == 0 {
                1_000_000
            } else if k == 1 {
                500_000
            } else if k == 2 {
                -500_000
            } else if k == 3 {
                -1_000_000
            } else if k == 4 {
                -500_000
            } else {
                500_000
            },
            HexOrientation::Pointy => if k == 0 {
                SQRT3_HALF as int
            } else if k == 1 {
                0
            } else if k == 2 {
                -(SQRT3_HALF as int)
            } else if k == 3 {
                -(SQRT3_HALF as int)
            } else if k == 4 {
                0
            } else {
                SQRT3_HALF as int
            },
        }
    }

    /// Companion of `corner_unit_x` for the y component.
    pub open spec fn corner_unit_y(self, k: int) -> int {
        match self.orientation {
            HexOrientation::Flat => if k == 0 {
                0
            } else if k == 1 {
                SQRT3_HALF as int
            } else if k == 2 {
                SQRT3_HALF as int
            } else if k == 3 {
                0
            } else if k == 4 {
                -(SQRT3_HALF as int)
            } else {
                -(SQRT3_HALF as int)
            },
            HexOrientation::Pointy => if k == 0 {
                500_000
            } else if k == 1 {
                1_000_000
            } else if k == 2 {
                500_000
            } else if k == 3 {
                -500_000
            } else if k == 4 {
                -1_000_000
            } else {
                -500_000
            },
        }
    }

    /// The world position of corner `k` of a cell: the center plus the
    /// scaled corner offset.
    pub open spec fn corner_of(self, h: HexCoord, k: int) -> Pt2 {
        let c = self.world_of(h);
        Pt2 {
            x: Fx {
                raw: (c.x.raw + fx_mul_spec(self.scale_x.raw as int, self.corner_unit_x(k))) as i64,
            },
            y: Fx {
                raw: (c.y.raw + fx_mul_spec(self.scale_y.raw as int, self.corner_unit_y(k))) as i64,
            },
        }
    }

    /// The six corner positions of a cell, in order.
    pub fn hex_corners(&self, h: HexCoord) -> (out: [Pt2; 6])
        requires
            self.wf(),
            -LAYOUT_COORD_LIMIT <= h.q <= LAYOUT_COORD_LIMIT,
            -LAYOUT_COORD_LIMIT <= h.r <= LAYOUT_COORD_LIMIT,
        ensures
            forall|k: int| 0 <= k < 6 ==> out[k] == self.corner_of(h, k),
            forall|k: int| 0 <= k < 6 ==> pt_wf(#[trigger] out[k]),
    {
        let c: Pt2 = self.hex_to_world_pos(h);
        let mut out_vec: [Pt2; 6] = [c, c, c, c, c, c];
        let sx: Fx = self.scale_x;
        let sy: Fx = self.scale_y;
        let mut k: usize = 0;
        while k < 6
            invariant
                self.wf(),
                sx == self.scale_x,
                sy == self.scale_y,
                pt_wf(c),
                c == self.world_of(h),
                k <= 6,
                forall|kk: int| 0 <= kk < k ==> out_vec[kk] == self.corner_of(h, kk),
                forall|kk: int| 0 <= kk < k ==> pt_wf(#[trigger] out_vec[kk]),
                -900_000_000_000_000 <= c.x.raw <= 900_000_000_000_000,
                -900_000_000_000_000 <= c.y.raw <= 900_000_000_000_000,
            decreases 6 - k,
        {
            let (ux, uy): (i64, i64) = match self.orientation {
                HexOrientation::Flat => {
                    if k == 0 {
                        (1_000_000, 0)
                    } else if k == 1 {
                        (500_000, SQRT3_HALF)
                    } else if k == 2 {
                        (-500_000, SQRT3_HALF)
                    } else if k == 3 {
                        (-1_000_000, 0)
                    } else if k == 4 {
                        (-500_000, -SQRT3_HALF)
                    } else {
                        (500_000, -SQRT3_HALF)
                    }
                },
                HexOrientation::Pointy => {
                    if k == 0 {
                        (SQRT3_HALF, 500_000)
                    } else if k == 1 {
                        (0, 1_000_000)
                    } else if k == 2 {
                        (-SQRT3_HALF, 500_000)
                    } else if k == 3 {
                        (-SQRT3_HALF, -500_000)
                    } else if k == 4 {
                        (0, -1_000_000)
                    } else {
                        (SQRT3_HALF, -500_000)
                    }
                },
            };
            proof {
                assert(abs_val(sx.raw as int) * abs_val(ux as int) <= 0x7fff_ffff_ffff_ffff * (
                FX_SCALE as int)) by (nonlinear_arith)
                    requires
                        abs_val(sx.raw as int) <= SCALE_LIMIT as int,
                        abs_val(ux as int) <= 1_732_051,
                ;
                assert(abs_val(sy.raw as int) * abs_val(uy as int) <= 0x7fff_ffff_ffff_ffff * (
                FX_SCALE as int)) by (nonlinear_arith)
                    requires
                        abs_val(sy.raw as int) <= SCALE_LIMIT as int,
                        abs_val(uy as int) <= 1_732_051,
                ;
                lemma_fx_mul_bound(sx.raw as int, ux as int, SCALE_LIMIT as int, 1_732_051);
                lemma_fx_mul_bound(sy.raw as int, uy as int, SCALE_LIMIT as int, 1_732_051);
                assert(abs_val(fx_mul_spec(sx.raw as int, ux as int)) <= 2 * (SCALE_LIMIT as int))
                    by (nonlinear_arith)
                    requires
                        abs_val(fx_mul_spec(sx.raw as int, ux as int)) * (FX_SCALE as int) <= (
                        SCALE_LIMIT as int) * 1_732_051,
                ;
                assert(abs_val(fx_mul_spec(sy.raw as int, uy as int)) <= 2 * (SCALE_LIMIT as int))
                    by (nonlinear_arith)
                    requires
                        abs_val(fx_mul_spec(sy.raw as int, uy as int)) * (FX_SCALE as int) <= (
                        SCALE_LIMIT as int) * 1_732_051,
                ;
            }
            let ox: Fx = sx.mul_by(Fx { raw: ux });
            let oy: Fx = sy.mul_by(Fx { raw: uy });
            out_vec[k] = Pt2 { x: Fx { raw: c.x.raw + ox.raw }, y: Fx { raw: c.y.raw + oy.raw } };
            k = k + 1;
        }
        out_vec
    }

    /// The fractional axial coordinates of a world position (fixed point):
    /// the inverse of the center transform, before rounding.
    pub open spec fn frac_axial(self, p: Pt2) -> (int, int) {
        let xs = fx_div_spec(p.x.raw as int, self.scale_x.raw as int);
        let ys = fx_div_spec(p.y.raw as int, self.scale_y.raw as int);
        match self.orientation {
            HexOrientation::Flat => (
                fx_mul_spec(xs, 666_667),
                fx_mul_spec(ys, 577_350) - tdiv(fx_mul_spec(xs, 666_667), 2),
            ),
            HexOrientation::Pointy => (
                fx_mul_spec(xs, 577_350) - tdiv(fx_mul_spec(ys, 666_667), 2),
                fx_mul_spec(ys, 666_667),
            ),
        }
    }

    /// The cell under a fractional axial position: each cube component is
    /// rounded to the nearest integer, and if the three disagree the one
    /// rounded farthest from its exact value is recomputed from the others.
    pub open spec fn round_axial(qf: int, rf: int) -> (int, int) {
        let s = FX_SCALE as int;
        let sf = -qf - rf;
        let xq = round_div_spec(qf, s);
        let xr = round_div_spec(rf, s);
        let xs = round_div_spec(sf, s);
        if xq + xr + xs == 0 {
            (xq, xr)
        } else {
            let eq = abs_val(2 * (xq * s - qf));
            let er = abs_val(2 * (xr * s - rf));
            let es = abs_val(2 * (xs * s - sf));
            if eq >= er && eq >= es {
                (-xr - xs, xr)
            } else if er >= es {
                (xq, -xq - xs)
            } else {
                (xq, xr)
            }
        }
    }

    /// The cell under a world position.
    pub open spec fn hex_of_world(self, p: Pt2) -> HexCoord {
        let (qf, rf) = self.frac_axial(p);
        let (q, r) = HexLayout::round_axial(qf, rf);
        HexCoord { q: q as i32, r: r as i32 }
    }

    /// Converts a world position to the cell under it.  The position must
    /// lie within ninety million cells of the origin on each axis.
    pub fn world_pos_to_hex(&self, p: Pt2) -> (h: HexCoord)
        requires
            self.wf(),
            abs_val(p.x.raw as int) <= (self.scale_x.raw as int) * 90_000_000,
            abs_val(p.y.raw as int) <= (self.scale_y.raw as int) * 90_000_000,
        ensures
            h == self.hex_of_world(p),
            coord_in_bounds(h),
    {
        proof {
            assert(abs_val(p.x.raw as int) * (FX_SCALE as int) <= 0x7fff_ffff_ffff_ffff * abs_val(
                self.scale_x.raw as int,
            )) by (nonlinear_arith)
                requires
                    abs_val(p.x.raw as int) <= (self.scale_x.raw as int) * 90_000_000,
                    1 <= self.scale_x.raw,
                    abs_val(self.scale_x.raw as int) == self.scale_x.raw,
            ;
            assert(abs_val(p.y.raw as int) * (FX_SCALE as int) <= 0x7fff_ffff_ffff_ffff * abs_val(
                self.scale_y.raw as int,
            )) by (nonlinear_arith)
                requires
                    abs_val(p.y.raw as int) <= (self.scale_y.raw as int) * 90_000_000,
                    1 <= self.scale_y.raw,
                    abs_val(self.scale_y.raw as int) == self.scale_y.raw,
            ;
        }
        let xs: Fx = p.x.div_by(self.scale_x);
        let ys: Fx = p.y.div_by(self.scale_y);
        proof {
            lemma_div_mag(p.x.raw as int, self.scale_x.raw as int);
            lemma_div_mag(p.y.raw as int, self.scale_y.raw as int);
            lemma_fx_mul_bound(xs.raw as int, 666_667, 90_000_000_000_000, 666_667);
            lemma_fx_mul_bound(xs.raw as int, 577_350, 90_000_000_000_000, 577_350);
            lemma_fx_mul_bound(ys.raw as int, 666_667, 90_000_000_000_000, 666_667);
            lemma_fx_mul_bound(ys.raw as int, 577_350, 90_000_000_000_000, 577_350);
            assert(abs_val(xs.raw as int) * abs_val(666_667) <= 0x7fff_ffff_ffff_ffff * (
            FX_SCALE as int)) by (nonlinear_arith)
                requires
                    abs_val(xs.raw as int) <= 90_000_000_000_000,
            ;
            assert(abs_val(xs.raw as int) * abs_val(577_350) <= 0x7fff_ffff_ffff_ffff * (
            FX_SCALE as int)) by (nonlinear_arith)
                requires
                    abs_val(xs.raw as int) <= 90_000_000_000_000,
            ;
            assert(abs_val(ys.raw as int) * abs_val(666_667) <= 0x7fff_ffff_ffff_ffff * (
            FX_SCALE as int)) by (nonlinear_arith)
                requires
                    abs_val(ys.raw as int) <= 90_000_000_000_000,
            ;
            assert(abs_val(ys.raw as int) * abs_val(577_350) <= 0x7fff_ffff_ffff_ffff * (
            FX_SCALE as int)) by (nonlinear_arith)
                requires
                    abs_val(ys.raw as int) <= 90_000_000_000_000,
            ;
        }
        let (qf, rf): (i64, i64) = match self.orientation {
            HexOrientation::Flat => {
                let qq: Fx = xs.mul_by(Fx { raw: 666_667 });
                let rr: Fx = ys.mul_by(Fx { raw: 577_350 });
                (qq.raw, rr.raw - half_trunc(qq.raw))
            },
            HexOrientation::Pointy => {
                let rr: Fx = ys.mul_by(Fx { raw: 666_667 });
                let qq: Fx = xs.mul_by(Fx { raw: 577_350 });
                (qq.raw - half_trunc(rr.raw), rr.raw)
            },
        };
        let (q, r): (i64, i64) = round_axial_exec(qf, rf);
        HexCoord { q: q as i32, r: r as i32 }
    }
}

/// Magnitude bound of the fixed-point quotient when the numerator is within
/// a multiple of the divisor.
proof fn lemma_div_mag(a: int, b: int)
    requires
        1 <= b,
        abs_val(a) <= b * 90_000_000,
    ensures
        abs_val(fx_div_spec(a, b)) <= 90_000_000_000_000,
{
    crate::fixed::lemma_tdiv_mag(a * (FX_SCALE as int), b);
    let q = tdiv(a * (FX_SCALE as int), b);
    assert(abs_val(a * (FX_SCALE as int)) <= b * 90_000_000_000_000) by (nonlinear_arith)
        requires
            abs_val(a) <= b * 90_000_000,
            1 <= b,
    ;
    assert(abs_val(q) <= 90_000_000_000_000) by (nonlinear_arith)
        requires
            abs_val(q) * b <= abs_val(a * (FX_SCALE as int)),
            abs_val(a * (FX_SCALE as int)) <= b * 90_000_000_000_000,
            1 <= b,
            abs_val(q) >= 0,
    ;
}

/// Halves a raw value, truncating toward zero.
fn half_trunc(v: i64) -> (r: i64)
    requires
        -0x4000_0000_0000_0000 <= v <= 0x4000_0000_0000_0000,
    ensures
        r == tdiv(v as int, 2),
        v >= 0 ==> 0 <= r <= v,
        v < 0 ==> v <= r <= 0,
    {
    proof {
        crate::fixed::lemma_tdiv_mag(v as int, 2);
    }
    if v >= 0 {
        ((v as u64) / 2) as i64
    } else {
        -((((-v) as u64) / 2) as i64)
    }
}

/// Rounds fractional axial coordinates to the containing cell.  The three
/// cube roundings can disagree by at most one step, so the corrected
/// components stay within two of the raw roundings.
fn round_axial_exec(qf: i64, rf: i64) -> (out: (i64, i64))
    requires
        -99_000_000_000_000 <= qf <= 99_000_000_000_000,
        -99_000_000_000_000 <= rf <= 99_000_000_000_000,
    ensures
        (out.0 as int, out.1 as int) == HexLayout::round_axial(qf as int, rf as int),
        -100_000_000 <= out.0 <= 100_000_000,
        -100_000_000 <= out.1 <= 100_000_000,
{
    let sf: i64 = -qf - rf;
    proof {
        assert((-99_000_001) * (FX_SCALE as int) <= qf as int <= 99_000_001 * (FX_SCALE as int))
            by (nonlinear_arith)
            requires
                -99_000_000_000_000 <= qf <= 99_000_000_000_000,
        ;
        crate::intmath::lemma_round_div_bounds(
            qf as int,
            FX_SCALE as int,
            -99_000_001,
            99_000_001,
        );
        assert((-99_000_001) * (FX_SCALE as int) <= rf as int <= 99_000_001 * (FX_SCALE as int))
            by (nonlinear_arith)
            requires
                -99_000_000_000_000 <= rf <= 99_000_000_000_000,
        ;
        crate::intmath::lemma_round_div_bounds(
            rf as int,
            FX_SCALE as int,
            -99_000_001,
            99_000_001,
        );
        assert((-198_000_001) * (FX_SCALE as int) <= sf as int <= 198_000_001 * (FX_SCALE as int))
            by (nonlinear_arith)
            requires
                -198_000_000_000_000 <= sf <= 198_000_000_000_000,
        ;
        crate::intmath::lemma_round_div_bounds(
            sf as int,
            FX_SCALE as int,
            -198_000_001,
            198_000_001,
        );
    }
    let xq: i64 = round_div(qf, FX_SCALE);
    let xr: i64 = round_div(rf, FX_SCALE);
    let xs: i64 = round_div(sf, FX_SCALE);
    proof {
        // The three roundings each sit within half a cell of exact values
        // that sum to zero, so their sum is -1, 0 or 1.
        crate::intmath::lemma_round_div_close(qf as int, FX_SCALE as int);
        crate::intmath::lemma_round_div_close(rf as int, FX_SCALE as int);
        crate::intmath::lemma_round_div_close(sf as int, FX_SCALE as int);
        assert(((xq + xr + xs) as int) * (FX_SCALE as int) == (xq as int) * (FX_SCALE as int) + (
        xr as int) * (FX_SCALE as int) + (xs as int) * (FX_SCALE as int)) by (nonlinear_arith);
        let k = (xq + xr + xs) as int;
        assert(-1 <= k <= 1) by (nonlinear_arith)
            requires
                2 * (k * (FX_SCALE as int) - (qf as int + rf as int + sf as int)) <= 3 * (
                FX_SCALE as int),
                2 * ((qf as int + rf as int + sf as int) - k * (FX_SCALE as int)) < 3 * (
                FX_SCALE as int),
                qf as int + rf as int + sf as int == 0,
        ;
    }
    if xq + xr + xs == 0 {
        (xq, xr)
    } else {
        proof {
            assert(-100_000_000 * (FX_SCALE as int) <= (xq as int) * (FX_SCALE as int)
                <= 100_000_000 * (FX_SCALE as int)) by (nonlinear_arith)
                requires
                    -99_000_001 <= xq <= 99_000_001,
            ;
            assert(-200_000_000 * (FX_SCALE as int) <= (xr as int) * (FX_SCALE as int)
                <= 200_000_000 * (FX_SCALE as int)) by (nonlinear_arith)
                requires
                    -99_000_001 <= xr <= 99_000_001,
            ;
            assert(-200_000_000 * (FX_SCALE as int) <= (xs as int) * (FX_SCALE as int)
                <= 200_000_000 * (FX_SCALE as int)) by (nonlinear_arith)
                requires
                    -198_000_001 <= xs <= 198_000_001,
            ;
        }
        let dq: i64 = 2 * (xq * FX_SCALE - qf);
        let dr: i64 = 2 * (xr * FX_SCALE - rf);
        let ds: i64 = 2 * (xs * FX_SCALE - sf);
        let eq: i64 = if dq < 0 {
            -dq
        } else {
            dq
        };
        let er: i64 = if dr < 0 {
            -dr
        } else {
            dr
        };
        let es: i64 = if ds < 0 {
            -ds
        } else {
            ds
        };
        if eq >= er && eq >= es {
            (-xr - xs, xr)
        } else if er >= es {
            (xq, -xq - xs)
        } else {
            (xq, xr)
        }
    }
}

} // verus!
