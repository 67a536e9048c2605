//! The grayscale source raster: plain pixel storage with out-of-range reads
//! defined as water (zero), and bilinear sampling at fractional positions.

use vstd::prelude::*;
use vstd::arithmetic::div_mod::lemma_fundamental_div_mod;
use crate::fixed::{bilerp_spec, fx_mul_spec, lemma_bilerp_bound, Fx, FX_SCALE};
use crate::intmath::flr_div;

verus! {

/// Smaller of two mathematical integers.
pub open spec fn min2(a: int, b: int) -> int {
    if a <= b {
        a
    } else {
        b
    }
}

/// Larger of two mathematical integers.
pub open spec fn max2(a: int, b: int) -> int {
    if a >= b {
        a
    } else {
        b
    }
}

/// Largest accepted raster side length.
pub const RASTER_LIMIT: u32 = 16_384;

/// A grayscale raster: row-major intensity bytes.
pub struct GrayMap {
    pub width: u32,
    pub height: u32,
    pub pixels: Vec<u8>,
}

impl GrayMap {
    /// Storage matches the dimensions, which stay within the size limit.
    pub open spec fn wf(self) -> bool {
        &&& self.pixels@.len() == self.width * self.height
        &&& self.width <= RASTER_LIMIT
        &&& self.height <= RASTER_LIMIT
    }

    /// The sample value of the pixel at integer coordinates, in fixed point:
    /// the intensity scaled to `[0, 1]`; any out-of-range coordinate reads
    /// as water (zero).
    pub open spec fn pixel_spec(self, x: int, y: int) -> int {
        if 0 <= x < self.width && 0 <= y < self.height {
            (self.pixels@[y * self.width + x] as int) * (FX_SCALE as int) / 255
        } else {
            0
        }
    }

    /// Builds a raster, checking that the storage matches the dimensions.
    pub fn new(width: u32, height: u32, pixels: Vec<u8>) -> (r: Option<GrayMap>)
        ensures
            r matches Some(m) ==> m.wf() && m.width == width && m.height == height && m.pixels@
                == pixels@,
            r is None <==> !(pixels@.len() == width * height && width <= RASTER_LIMIT && height
                <= RASTER_LIMIT),
    {
        if width > RASTER_LIMIT || height > RASTER_LIMIT {
            return None;
        }
        proof {
            assert((width as int) * (height as int) <= 0x1000_0000) by (nonlinear_arith)
                requires
                    width <= RASTER_LIMIT,
                    height <= RASTER_LIMIT,
            ;
        }
        let expected: u64 = (width as u64) * (height as u64);
        if (pixels.len() as u64) != expected {
            return None;
        }
        Some(GrayMap { width, height, pixels })
    }

    /// Reads the sample value at integer pixel coordinates; out-of-range
    /// coordinates read as water.
    pub fn get_pixel_value(&self, x: i64, y: i64) -> (r: Fx)
        requires
            self.wf(),
        ensures
            r.raw == self.pixel_spec(x as int, y as int),
            0 <= r.raw <= FX_SCALE,
    {
        if x < 0 || y < 0 || x >= self.width as i64 || y >= self.height as i64 {
            return Fx { raw: 0 };
        }
        proof {
            assert((y as int) * (self.width as int) + (x as int) < (self.height as int) * (
            self.width as int)) by (nonlinear_arith)
                requires
                    0 <= x < self.width as int,
                    0 <= y < self.height as int,
            ;
            assert((self.height as int) * (self.width as int) == (self.width as int) * (
            self.height as int)) by (nonlinear_arith);
            assert((y as int) * (self.width as int) == (self.width as int) * (y as int))
                by (nonlinear_arith);
            assert((self.height as int) * (self.width as int) <= 0x1000_0000)
                by (nonlinear_arith)
                requires
                    self.width <= RASTER_LIMIT,
                    self.height <= RASTER_LIMIT,
            ;
        }
        let idx: u64 = (y as u64) * (self.width as u64) + (x as u64);
        let px: u8 = self.pixels[idx as usize];
        proof {
            assert(0 * 255 <= (px as int) * (FX_SCALE as int)) by (nonlinear_arith)
                requires
                    0 <= px,
            ;
            assert((px as int) * (FX_SCALE as int) <= (FX_SCALE as int) * 255 + 254)
                by (nonlinear_arith)
                requires
                    px <= 255,
            ;
            crate::intmath::lemma_flr_div_bounds(
                (px as int) * (FX_SCALE as int),
                255,
                0,
                FX_SCALE as int,
            );
        }
        let raw: i64 = (px as i64) * FX_SCALE / 255;
        Fx { raw }
    }

    /// The bilinear sample at a fractional pixel position: the four
    /// surrounding pixels blended by the fractional parts, with positions
    /// floored toward negative infinity.
    pub open spec fn sample_spec(self, x: int, y: int) -> int {
        let s = FX_SCALE as int;
        let x0 = x / s;
        let y0 = y / s;
        let fx = x - x0 * s;
        let fy = y - y0 * s;
        let v00 = self.pixel_spec(x0, y0);
        let v10 = self.pixel_spec(x0 + 1, y0);
        let v01 = self.pixel_spec(x0, y0 + 1);
        let v11 = self.pixel_spec(x0 + 1, y0 + 1);
        bilerp_spec(bilerp_spec(v00, v10, fx), bilerp_spec(v01, v11, fx), fy)
    }

    /// Samples the raster with bilinear interpolation at a fixed-point pixel
    /// position; positions outside the raster blend toward water.
    pub fn sample_at_position(&self, x: Fx, y: Fx) -> (r: Fx)
        requires
            self.wf(),
            -1_000_000_000_000_000 <= x.raw <= 1_000_000_000_000_000,
            -1_000_000_000_000_000 <= y.raw <= 1_000_000_000_000_000,
        ensures
            r.raw == self.sample_spec(x.raw as int, y.raw as int),
            0 <= r.raw <= FX_SCALE,
            ({
                let s = FX_SCALE as int;
                let x0 = (x.raw as int) / s;
                let y0 = (y.raw as int) / s;
                let lo = min2(
                    min2(self.pixel_spec(x0, y0), self.pixel_spec(x0 + 1, y0)),
                    min2(self.pixel_spec(x0, y0 + 1), self.pixel_spec(x0 + 1, y0 + 1)),
                );
                let hi = max2(
                    max2(self.pixel_spec(x0, y0), self.pixel_spec(x0 + 1, y0)),
                    max2(self.pixel_spec(x0, y0 + 1), self.pixel_spec(x0 + 1, y0 + 1)),
                );
                lo - 2 <= r.raw <= hi
            }),
    {
        let x0: i64 = flr_div(x.raw, FX_SCALE);
        let y0: i64 = flr_div(y.raw, FX_SCALE);
        proof {
            lemma_fundamental_div_mod(x.raw as int, FX_SCALE as int);
            lemma_fundamental_div_mod(y.raw as int, FX_SCALE as int);
            assert((FX_SCALE as int) * ((x.raw as int) / (FX_SCALE as int)) == ((
            x.raw as int) / (FX_SCALE as int)) * (FX_SCALE as int)) by (nonlinear_arith);
            assert((FX_SCALE as int) * ((y.raw as int) / (FX_SCALE as int)) == ((
            y.raw as int) / (FX_SCALE as int)) * (FX_SCALE as int)) by (nonlinear_arith);
        }
        let fx: i64 = x.raw - x0 * FX_SCALE;
        let fy: i64 = y.raw - y0 * FX_SCALE;
        let v00: Fx = self.get_pixel_value(x0, y0);
        let v10: Fx = self.get_pixel_value(x0 + 1, y0);
        let v01: Fx = self.get_pixel_value(x0, y0 + 1);
        let v11: Fx = self.get_pixel_value(x0 + 1, y0 + 1);
        let v0: i64 = blend(v00.raw, v10.raw, fx);
        let v1: i64 = blend(v01.raw, v11.raw, fx);
        proof {
            let lo = min2(
                min2(v00.raw as int, v10.raw as int),
                min2(v01.raw as int, v11.raw as int),
            );
            let hi = max2(
                max2(v00.raw as int, v10.raw as int),
                max2(v01.raw as int, v11.raw as int),
            );
            crate::fixed::lemma_bilerp_envelope(v00.raw as int, v10.raw as int, fx as int, lo, hi);
            crate::fixed::lemma_bilerp_envelope(v01.raw as int, v11.raw as int, fx as int, lo, hi);
            crate::fixed::lemma_bilerp_envelope(v0 as int, v1 as int, fy as int, lo - 1, hi);
        }
        let out: i64 = blend(v0, v1, fy);
        Fx { raw: out }
    }
}

/// Linear blend of two raw values by a fraction in `[0, 1]`.
fn blend(a: i64, b: i64, f: i64) -> (r: i64)
    requires
        0 <= f <= FX_SCALE,
        -16 * FX_SCALE <= a <= 16 * FX_SCALE,
        -16 * FX_SCALE <= b <= 16 * FX_SCALE,
    ensures
        r == bilerp_spec(a as int, b as int, f as int),
{
    proof {
        assert(crate::hex::abs_val(a as int) * crate::hex::abs_val(
            FX_SCALE as int - f as int,
        ) <= 0x7fff_ffff_ffff_ffff * (FX_SCALE as int)) by (nonlinear_arith)
            requires
                crate::hex::abs_val(a as int) <= 16 * (FX_SCALE as int),
                crate::hex::abs_val(FX_SCALE as int - f as int) <= FX_SCALE as int,
        ;
        assert(crate::hex::abs_val(b as int) * crate::hex::abs_val(f as int)
            <= 0x7fff_ffff_ffff_ffff * (FX_SCALE as int)) by (nonlinear_arith)
            requires
                crate::hex::abs_val(b as int) <= 16 * (FX_SCALE as int),
                crate::hex::abs_val(f as int) <= FX_SCALE as int,
        ;
        crate::fixed::lemma_fx_mul_frac_bound(a as int, FX_SCALE as int - f as int);
        crate::fixed::lemma_fx_mul_frac_bound(b as int, f as int);
    }
    let pa: Fx = (Fx { raw: a }).mul_by(Fx { raw: FX_SCALE - f });
    let pb: Fx = (Fx { raw: b }).mul_by(Fx { raw: f });
    pa.raw + pb.raw
}

} // verus!
