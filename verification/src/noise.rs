//! Deterministic coherent noise over an integer lattice, and its fractal
//! sum.  Each octave halves the lattice cell size (doubling the frequency)
//! and halves the amplitude, producing organic rather than pixel-aligned
//! boundaries.  The lattice values come from a scrambled integer hash, so
//! the field is reproducible on every machine.

use vstd::prelude::*;
use vstd::arithmetic::div_mod::lemma_fundamental_div_mod;
use crate::fixed::{bilerp_spec, fx_mul_spec, lemma_bilerp_bound, lemma_fx_mul_frac_bound, Fx, FX_SCALE};
use crate::hex::abs_val;
use crate::intmath::flr_div;

verus! {

/// One round of 64-bit integer scrambling (an xorshift-multiply mix).
pub open spec fn scramble(v: u64) -> u64 {
    let a = v ^ (v >> 33);
    let b = ((a * 0xff51afd7ed558ccd) % 0x1_0000_0000_0000_0000) as u64;
    let c = b ^ (b >> 29);
    let d = ((c * 0xc4ceb9fe1a85ec53) % 0x1_0000_0000_0000_0000) as u64;
    d ^ (d >> 32)
}

/// The lattice value at integer cell coordinates: a hash of the seed and
/// the coordinates, mapped into `[-1, 1]` in fixed point.
pub open spec fn lattice_spec(seed: u64, ix: int, iy: int) -> int {
    let hx = (((ix as u64) * 0x9e3779b97f4a7c15) % 0x1_0000_0000_0000_0000) as u64;
    let hy = (((iy as u64) * 0xc2b2ae3d27d4eb4f) % 0x1_0000_0000_0000_0000) as u64;
    let h = scramble(hx ^ hy ^ seed);
    (h as int) % (2 * (FX_SCALE as int) + 1) - (FX_SCALE as int)
}

/// The lattice value at integer cell coordinates.
pub fn lattice_value(seed: u64, ix: i64, iy: i64) -> (r: Fx)
    ensures
        r.raw == lattice_spec(seed, ix as int, iy as int),
        -FX_SCALE <= r.raw <= FX_SCALE,
{
    let hx: u64 = (ix as u64).wrapping_mul(0x9e3779b97f4a7c15);
    let hy: u64 = (iy as u64).wrapping_mul(0xc2b2ae3d27d4eb4f);
    let v: u64 = hx ^ hy ^ seed;
    let a: u64 = v ^ (v >> 33);
    let b: u64 = a.wrapping_mul(0xff51afd7ed558ccd);
    let c: u64 = b ^ (b >> 29);
    let d: u64 = c.wrapping_mul(0xc4ceb9fe1a85ec53);
    let h: u64 = d ^ (d >> 32);
    let m: u64 = h % (2 * (FX_SCALE as u64) + 1);
    (Fx { raw: (m as i64) - FX_SCALE })
}

/// The coherent noise value at a fixed-point position for a given lattice
/// cell size: the four surrounding lattice values blended bilinearly by the
/// position's fractional parts within its cell.
pub open spec fn noise_spec(seed: u64, x: int, y: int, cell: int) -> int {
    let ix = x / cell;
    let iy = y / cell;
    let fx = (x - ix * cell) * (FX_SCALE as int) / cell;
    let fy = (y - iy * cell) * (FX_SCALE as int) / cell;
    let v00 = lattice_spec(seed, ix, iy);
    let v10 = lattice_spec(seed, ix + 1, iy);
    let v01 = lattice_spec(seed, ix, iy + 1);
    let v11 = lattice_spec(seed, ix + 1, iy + 1);
    bilerp_spec(bilerp_spec(v00, v10, fx), bilerp_spec(v01, v11, fx), fy)
}

/// The coherent noise value at a position, for lattice cells of `cell` raw
/// units.
pub fn noise_at(seed: u64, x: Fx, y: Fx, cell: i64) -> (r: Fx)
    requires
        1 <= cell <= 0x1_0000_0000,
        -1_000_000_000_000_000 <= x.raw <= 1_000_000_000_000_000,
        -1_000_000_000_000_000 <= y.raw <= 1_000_000_000_000_000,
    ensures
        r.raw == noise_spec(seed, x.raw as int, y.raw as int, cell as int),
        -4 * FX_SCALE <= r.raw <= 4 * FX_SCALE,
{
    let ix: i64 = flr_div(x.raw, cell);
    let iy: i64 = flr_div(y.raw, cell);
    proof {
        lemma_fundamental_div_mod(x.raw as int, cell as int);
        lemma_fundamental_div_mod(y.raw as int, cell as int);
        assert((cell as int) * ((x.raw as int) / (cell as int)) == ((x.raw as int) / (
        cell as int)) * (cell as int)) by (nonlinear_arith);
        assert((cell as int) * ((y.raw as int) / (cell as int)) == ((y.raw as int) / (
        cell as int)) * (cell as int)) by (nonlinear_arith);
    }
    let rx: i64 = x.raw - ix * cell;
    let ry: i64 = y.raw - iy * cell;
    proof {
        assert(0 <= (rx as int) * (FX_SCALE as int) <= (cell as int) * (FX_SCALE as int))
            by (nonlinear_arith)
            requires
                0 <= rx < cell,
        ;
        crate::intmath::lemma_flr_div_bounds(
            (rx as int) * (FX_SCALE as int),
            cell as int,
            0,
            FX_SCALE as int,
        );
        assert((rx as int) * (FX_SCALE as int) <= (FX_SCALE as int) * (cell as int) + (cell as int
            - 1)) by (nonlinear_arith)
            requires
                0 <= rx < cell,
        ;
        assert(0 <= (ry as int) * (FX_SCALE as int) <= (cell as int) * (FX_SCALE as int))
            by (nonlinear_arith)
            requires
                0 <= ry < cell,
        ;
        crate::intmath::lemma_flr_div_bounds(
            (ry as int) * (FX_SCALE as int),
            cell as int,
            0,
            FX_SCALE as int,
        );
        assert((ry as int) * (FX_SCALE as int) <= (FX_SCALE as int) * (cell as int) + (cell as int
            - 1)) by (nonlinear_arith)
            requires
                0 <= ry < cell,
        ;
    }
    let fx: i64 = ((rx as u64 * FX_SCALE as u64) / (cell as u64)) as i64;
    let fy: i64 = ((ry as u64 * FX_SCALE as u64) / (cell as u64)) as i64;
    let v00: Fx = lattice_value(seed, ix, iy);
    let v10: Fx = lattice_value(seed, ix + 1, iy);
    let v01: Fx = lattice_value(seed, ix, iy + 1);
    let v11: Fx = lattice_value(seed, ix + 1, iy + 1);
    let b0: i64 = blend2(v00.raw, v10.raw, fx);
    let b1: i64 = blend2(v01.raw, v11.raw, fx);
    proof {
        lemma_bilerp_bound(v00.raw as int, v10.raw as int, fx as int, FX_SCALE as int);
        lemma_bilerp_bound(v01.raw as int, v11.raw as int, fx as int, FX_SCALE as int);
        lemma_bilerp_bound(b0 as int, b1 as int, fy as int, 2 * FX_SCALE as int);
    }
    let out: i64 = blend2(b0, b1, fy);
    Fx { raw: out }
}

/// Linear blend of two raw values by a fraction in `[0, 1]`.
fn blend2(a: i64, b: i64, f: i64) -> (r: i64)
    requires
        0 <= f <= FX_SCALE,
        -16 * FX_SCALE <= a <= 16 * FX_SCALE,
        -16 * FX_SCALE <= b <= 16 * FX_SCALE,
    ensures
        r == bilerp_spec(a as int, b as int, f as int),
{
    proof {
        assert(abs_val(a as int) * abs_val(FX_SCALE as int - f as int) <= 0x7fff_ffff_ffff_ffff * (
        FX_SCALE as int)) by (nonlinear_arith)
            requires
                abs_val(a as int) <= 16 * (FX_SCALE as int),
                abs_val(FX_SCALE as int - f as int) <= FX_SCALE as int,
        ;
        assert(abs_val(b as int) * abs_val(f as int) <= 0x7fff_ffff_ffff_ffff * (FX_SCALE as int))
            by (nonlinear_arith)
            requires
                abs_val(b as int) <= 16 * (FX_SCALE as int),
                abs_val(f as int) <= FX_SCALE as int,
        ;
        lemma_fx_mul_frac_bound(a as int, FX_SCALE as int - f as int);
        lemma_fx_mul_frac_bound(b as int, f as int);
    }
    let pa: Fx = (Fx { raw: a }).mul_by(Fx { raw: FX_SCALE - f });
    let pb: Fx = (Fx { raw: b }).mul_by(Fx { raw: f });
    pa.raw + pb.raw
}

/// The fractal sum of `octaves` noise layers starting at the given cell
/// size and amplitude: each octave halves both, never going below one raw
/// unit of cell size.
pub open spec fn fractal_spec(seed: u64, x: int, y: int, cell: int, amp: int, octaves: int) -> int
    decreases octaves,
{
    if octaves <= 0 {
        0
    } else {
        fx_mul_spec(noise_spec(seed, x, y, cell), amp) + fractal_spec(
            seed,
            x,
            y,
            if cell / 2 >= 1 {
                cell / 2
            } else {
                1
            },
            amp / 2,
            octaves - 1,
        )
    }
}

/// Sums `octaves` layers of coherent noise, halving the lattice cell size
/// and the amplitude at each layer.  The result stays within eight times
/// the starting amplitude.
pub fn fractal_noise(seed: u64, x: Fx, y: Fx, cell0: i64, amplitude: Fx, octaves: u32) -> (r: Fx)
    requires
        1 <= cell0 <= 0x1_0000_0000,
        -1_000_000_000_000_000 <= x.raw <= 1_000_000_000_000_000,
        -1_000_000_000_000_000 <= y.raw <= 1_000_000_000_000_000,
        0 <= amplitude.raw <= FX_SCALE,
        octaves <= 32,
    ensures
        r.raw == fractal_spec(
            seed,
            x.raw as int,
            y.raw as int,
            cell0 as int,
            amplitude.raw as int,
            octaves as int,
        ),
        -8 * FX_SCALE <= r.raw <= 8 * FX_SCALE,
{
    let mut acc: i64 = 0;
    let mut cell: i64 = cell0;
    let mut amp: i64 = amplitude.raw;
    let mut k: u32 = 0;
    while k < octaves
        invariant
            1 <= cell <= 0x1_0000_0000,
            -1_000_000_000_000_000 <= x.raw <= 1_000_000_000_000_000,
            -1_000_000_000_000_000 <= y.raw <= 1_000_000_000_000_000,
            0 <= amp <= amplitude.raw,
            0 <= amplitude.raw <= FX_SCALE,
            k <= octaves <= 32,
            -(8 * amplitude.raw - 8 * amp) <= acc <= 8 * amplitude.raw - 8 * amp,
            acc as int + fractal_spec(
                seed,
                x.raw as int,
                y.raw as int,
                cell as int,
                amp as int,
                octaves - k,
            ) == fractal_spec(
                seed,
                x.raw as int,
                y.raw as int,
                cell0 as int,
                amplitude.raw as int,
                octaves as int,
            ),
        decreases octaves - k,
    {
        let n: Fx = noise_at(seed, x, y, cell);
        proof {
            assert(abs_val(n.raw as int) * abs_val(amp as int) <= 0x7fff_ffff_ffff_ffff * (
            FX_SCALE as int)) by (nonlinear_arith)
                requires
                    abs_val(n.raw as int) <= 4 * (FX_SCALE as int),
                    abs_val(amp as int) <= FX_SCALE as int,
            ;
            lemma_fx_mul_frac_bound(n.raw as int, amp as int);
        }
        let term: Fx = n.mul_by(Fx { raw: amp });
        proof {
            assert(abs_val(term.raw as int) <= 4 * (amp as int)) by {
                crate::fixed::lemma_fx_mul_bound(n.raw as int, amp as int, 4 * (FX_SCALE as int), amp as int);
                assert(abs_val(fx_mul_spec(n.raw as int, amp as int)) * (FX_SCALE as int) <= 4 * (
                FX_SCALE as int) * (amp as int));
                assert(abs_val(fx_mul_spec(n.raw as int, amp as int)) <= 4 * (amp as int))
                    by (nonlinear_arith)
                    requires
                        abs_val(fx_mul_spec(n.raw as int, amp as int)) * (FX_SCALE as int) <= 4 * (
                        FX_SCALE as int) * (amp as int),
                        0 <= amp,
                        abs_val(fx_mul_spec(n.raw as int, amp as int)) >= 0,
                ;
            }
        }
        acc = acc + term.raw;
        cell = if cell / 2 >= 1 {
            cell / 2
        } else {
            1
        };
        let half: i64 = amp / 2;
        proof {
            lemma_fundamental_div_mod(amp as int, 2);
        }
        amp = half;
        k = k + 1;
    }
    Fx { raw: acc }
}

} // verus!
