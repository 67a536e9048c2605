//! Catmull-Rom spline smoothing of contour paths: each point is replaced by
//! a fixed number of subdivisions of the cubic through its neighborhood.

use vstd::prelude::*;
use vstd::arithmetic::div_mod::lemma_fundamental_div_mod_converse;
use crate::fixed::{fx_mul_spec, lemma_fx_mul_frac_bound, Fx, FX_SCALE};
use crate::geom::{pt_wf, Pt2};
use crate::hex::abs_val;
use crate::path::ContourPath;

verus! {

/// Magnitude bound on coordinates entering the smoother; it leaves room for
/// the spline's intermediate sums inside the point limit.
pub const SPLINE_LIMIT: i64 = 40_000_000_000_000;

/// A point small enough to smooth.
pub open spec fn spline_pt_wf(p: Pt2) -> bool {
    -SPLINE_LIMIT <= p.x.raw <= SPLINE_LIMIT && -SPLINE_LIMIT <= p.y.raw <= SPLINE_LIMIT
}

/// One axis of the Catmull-Rom cubic through `p1` and `p2` with neighbor
/// tangents scaled by the tension, evaluated at parameter `t` (fixed point,
/// `0 <= t <= 1`): the Hermite-form blend `a t^3 + b t^2 + c t + d`.
pub open spec fn cm_axis(p0: int, p1: int, p2: int, p3: int, t: int, tau: int) -> int {
    let v0 = fx_mul_spec(p2 - p0, tau);
    let v1 = fx_mul_spec(p3 - p1, tau);
    let a = 2 * p1 - 2 * p2 + v0 + v1;
    let b = 3 * p2 - 3 * p1 - 2 * v0 - v1;
    let t2 = fx_mul_spec(t, t);
    let t3 = fx_mul_spec(t2, t);
    fx_mul_spec(a, t3) + fx_mul_spec(b, t2) + fx_mul_spec(v0, t) + p1
}

/// The spline point for both axes.
pub open spec fn cm_point(p0: Pt2, p1: Pt2, p2: Pt2, p3: Pt2, t: int, tau: int) -> Pt2 {
    Pt2 {
        x: Fx { raw: cm_axis(p0.x.raw as int, p1.x.raw as int, p2.x.raw as int, p3.x.raw as int, t, tau) as i64 },
        y: Fx { raw: cm_axis(p0.y.raw as int, p1.y.raw as int, p2.y.raw as int, p3.y.raw as int, t, tau) as i64 },
    }
}

/// One axis of the spline stays within 23 times the largest control
/// magnitude, and the fixed-point arithmetic stays in range.
#[verifier::rlimit(100)]
proof fn lemma_cm_axis_bound(p0: int, p1: int, p2: int, p3: int, t: int, tau: int, m: int)
    requires
        0 <= t <= FX_SCALE,
        0 <= tau <= FX_SCALE,
        0 < m,
        abs_val(p0) <= m,
        abs_val(p1) <= m,
        abs_val(p2) <= m,
        abs_val(p3) <= m,
    ensures
        abs_val(cm_axis(p0, p1, p2, p3, t, tau)) <= 23 * m,
        abs_val(fx_mul_spec(p2 - p0, tau)) <= 2 * m,
        abs_val(fx_mul_spec(p3 - p1, tau)) <= 2 * m,
        0 <= fx_mul_spec(t, t) <= FX_SCALE,
        0 <= fx_mul_spec(fx_mul_spec(t, t), t) <= FX_SCALE,
{
    lemma_fx_mul_frac_bound(p2 - p0, tau);
    lemma_fx_mul_frac_bound(p3 - p1, tau);
    let v0 = fx_mul_spec(p2 - p0, tau);
    let v1 = fx_mul_spec(p3 - p1, tau);
    let a = 2 * p1 - 2 * p2 + v0 + v1;
    let b = 3 * p2 - 3 * p1 - 2 * v0 - v1;
    lemma_fx_mul_frac_bound(t, t);
    let t2 = fx_mul_spec(t, t);
    lemma_fx_mul_frac_bound(t2, t);
    let t3 = fx_mul_spec(t2, t);
    lemma_fx_mul_frac_bound(a, t3);
    lemma_fx_mul_frac_bound(b, t2);
    lemma_fx_mul_frac_bound(v0, t);
}

/// Evaluates one spline sample; the control points obey the smoothing bound.
pub fn catmull_rom(p0: Pt2, p1: Pt2, p2: Pt2, p3: Pt2, t: Fx, tension: Fx) -> (r: Pt2)
    requires
        spline_pt_wf(p0),
        spline_pt_wf(p1),
        spline_pt_wf(p2),
        spline_pt_wf(p3),
        0 <= t.raw <= FX_SCALE,
        0 <= tension.raw <= FX_SCALE,
    ensures
        r == cm_point(p0, p1, p2, p3, t.raw as int, tension.raw as int),
        pt_wf(r),
        -23 * SPLINE_LIMIT <= r.x.raw <= 23 * SPLINE_LIMIT,
        -23 * SPLINE_LIMIT <= r.y.raw <= 23 * SPLINE_LIMIT,
{
    proof {
        lemma_cm_axis_bound(
            p0.x.raw as int,
            p1.x.raw as int,
            p2.x.raw as int,
            p3.x.raw as int,
            t.raw as int,
            tension.raw as int,
            SPLINE_LIMIT as int,
        );
        lemma_cm_axis_bound(
            p0.y.raw as int,
            p1.y.raw as int,
            p2.y.raw as int,
            p3.y.raw as int,
            t.raw as int,
            tension.raw as int,
            SPLINE_LIMIT as int,
        );
    }
    let rx: i64 = cm_axis_exec(p0.x.raw, p1.x.raw, p2.x.raw, p3.x.raw, t, tension);
    let ry: i64 = cm_axis_exec(p0.y.raw, p1.y.raw, p2.y.raw, p3.y.raw, t, tension);
    Pt2 { x: Fx { raw: rx }, y: Fx { raw: ry } }
}

/// One axis of the spline sample.
fn cm_axis_exec(p0: i64, p1: i64, p2: i64, p3: i64, t: Fx, tension: Fx) -> (r: i64)
    requires
        -SPLINE_LIMIT <= p0 <= SPLINE_LIMIT,
        -SPLINE_LIMIT <= p1 <= SPLINE_LIMIT,
        -SPLINE_LIMIT <= p2 <= SPLINE_LIMIT,
        -SPLINE_LIMIT <= p3 <= SPLINE_LIMIT,
        0 <= t.raw <= FX_SCALE,
        0 <= tension.raw <= FX_SCALE,
    ensures
        r == cm_axis(p0 as int, p1 as int, p2 as int, p3 as int, t.raw as int, tension.raw as int),
{
    proof {
        lemma_cm_axis_bound(
            p0 as int,
            p1 as int,
            p2 as int,
            p3 as int,
            t.raw as int,
            tension.raw as int,
            SPLINE_LIMIT as int,
        );
        assert(abs_val((p2 - p0) as int) * abs_val(tension.raw as int) <= 0x7fff_ffff_ffff_ffff * (
        FX_SCALE as int)) by (nonlinear_arith)
            requires
                abs_val((p2 - p0) as int) <= 2 * (SPLINE_LIMIT as int),
                abs_val(tension.raw as int) <= FX_SCALE as int,
        ;
        assert(abs_val((p3 - p1) as int) * abs_val(tension.raw as int) <= 0x7fff_ffff_ffff_ffff * (
        FX_SCALE as int)) by (nonlinear_arith)
            requires
                abs_val((p3 - p1) as int) <= 2 * (SPLINE_LIMIT as int),
                abs_val(tension.raw as int) <= FX_SCALE as int,
        ;
        assert(abs_val(t.raw as int) * abs_val(t.raw as int) <= 0x7fff_ffff_ffff_ffff * (
        FX_SCALE as int)) by (nonlinear_arith)
            requires
                abs_val(t.raw as int) <= FX_SCALE as int,
        ;
    }
    let v0: Fx = (Fx { raw: p2 - p0 }).mul_by(tension);
    let v1: Fx = (Fx { raw: p3 - p1 }).mul_by(tension);
    let a: i64 = 2 * p1 - 2 * p2 + v0.raw + v1.raw;
    let b: i64 = 3 * p2 - 3 * p1 - 2 * v0.raw - v1.raw;
    let t2: Fx = t.mul_by(t);
    proof {
        assert(abs_val(t2.raw as int) * abs_val(t.raw as int) <= 0x7fff_ffff_ffff_ffff * (
        FX_SCALE as int)) by (nonlinear_arith)
            requires
                abs_val(t2.raw as int) <= FX_SCALE as int,
                abs_val(t.raw as int) <= FX_SCALE as int,
        ;
    }
    let t3: Fx = t2.mul_by(t);
    proof {
        assert(abs_val(a as int) * abs_val(t3.raw as int) <= 0x7fff_ffff_ffff_ffff * (
        FX_SCALE as int)) by (nonlinear_arith)
            requires
                abs_val(a as int) <= 8 * (SPLINE_LIMIT as int),
                abs_val(t3.raw as int) <= FX_SCALE as int,
        ;
        assert(abs_val(b as int) * abs_val(t2.raw as int) <= 0x7fff_ffff_ffff_ffff * (
        FX_SCALE as int)) by (nonlinear_arith)
            requires
                abs_val(b as int) <= 12 * (SPLINE_LIMIT as int),
                abs_val(t2.raw as int) <= FX_SCALE as int,
        ;
        assert(abs_val(v0.raw as int) * abs_val(t.raw as int) <= 0x7fff_ffff_ffff_ffff * (
        FX_SCALE as int)) by (nonlinear_arith)
            requires
                abs_val(v0.raw as int) <= 2 * (SPLINE_LIMIT as int),
                abs_val(t.raw as int) <= FX_SCALE as int,
        ;
        lemma_fx_mul_frac_bound(a as int, t3.raw as int);
        lemma_fx_mul_frac_bound(b as int, t2.raw as int);
        lemma_fx_mul_frac_bound(v0.raw as int, t.raw as int);
    }
    let ta: Fx = (Fx { raw: a }).mul_by(t3);
    let tb: Fx = (Fx { raw: b }).mul_by(t2);
    let tc: Fx = v0.mul_by(t);
    ta.raw + tb.raw + tc.raw + p1
}

/// The k-th point of a smoothed path: subdivision `k % segs` of the spline
/// around point `k / segs`.  The neighborhood wraps cyclically for a closed
/// path and clamps at the ends of an open one.
pub open spec fn smoothed_point(s: Seq<Pt2>, tau: int, segs: int, closed: bool, k: int) -> Pt2 {
    let n = s.len() as int;
    let i = k / segs;
    let j = k % segs;
    let p0 = s[if i == 0 {
        if closed {
            n - 1
        } else {
            0
        }
    } else {
        i - 1
    }];
    let p1 = s[i];
    let p2 = s[if i + 1 >= n {
        if closed {
            i + 1 - n
        } else {
            n - 1
        }
    } else {
        i + 1
    }];
    let p3 = s[if i + 2 >= n {
        if closed {
            i + 2 - n
        } else {
            n - 1
        }
    } else {
        i + 2
    }];
    cm_point(p0, p1, p2, p3, j * (FX_SCALE as int / segs), tau)
}

/// The whole smoothed path: `segs` spline samples per original point.
pub open spec fn smoothed_seq(s: Seq<Pt2>, tau: int, segs: int, closed: bool) -> Seq<Pt2> {
    Seq::new((s.len() * segs) as nat, |k: int| smoothed_point(s, tau, segs, closed, k))
}

/// Smooths a contour with `segs` Catmull-Rom subdivisions per point; a path
/// of fewer than four points is returned unchanged.
pub fn smooth_path(contour: &ContourPath, tension: Fx, segs: u32) -> (out: ContourPath)
    requires
        forall|i: int|
            0 <= i < contour.points@.len() ==> spline_pt_wf(#[trigger] contour.points@[i]),
        0 <= tension.raw <= FX_SCALE,
        1 <= segs <= 20,
        FX_SCALE as int % (segs as int) == 0,
        contour.points@.len() <= 100_000_000,
    ensures
        out.is_closed == contour.is_closed,
        contour.points@.len() < 4 ==> out.points@ == contour.points@,
        contour.points@.len() >= 4 ==> out.points@ == smoothed_seq(
            contour.points@,
            tension.raw as int,
            segs as int,
            contour.is_closed,
        ),
        out.wf(),
{
    let n: usize = contour.points.len();
    if n < 4 {
        let mut pts: Vec<Pt2> = Vec::new();
        let mut i: usize = 0;
        while i < n
            invariant
                n == contour.points@.len(),
                forall|ii: int|
                    0 <= ii < contour.points@.len() ==> spline_pt_wf(
                        #[trigger] contour.points@[ii],
                    ),
                i <= n,
                pts@ == contour.points@.subrange(0, i as int),
            decreases n - i,
        {
            pts.push(contour.points[i]);
            proof {
                assert(pts@ =~= contour.points@.subrange(0, i + 1));
            }
            i = i + 1;
        }
        proof {
            assert(pts@ =~= contour.points@);
            assert forall|k: int| 0 <= k < pts@.len() implies pt_wf(#[trigger] pts@[k]) by {
                assert(spline_pt_wf(contour.points@[k]));
            }
        }
        return ContourPath { points: pts, is_closed: contour.is_closed };
    }
    let step: i64 = FX_SCALE / (segs as i64);
    proof {
        vstd::arithmetic::div_mod::lemma_fundamental_div_mod(FX_SCALE as int, segs as int);
        crate::intmath::lemma_flr_div_bounds(FX_SCALE as int, segs as int, 1, FX_SCALE as int);
        assert((segs as int) * (FX_SCALE as int / (segs as int)) == (FX_SCALE as int / (
        segs as int)) * (segs as int)) by (nonlinear_arith);
    }
    let mut pts: Vec<Pt2> = Vec::new();
    let mut i: usize = 0;
    while i < n
        invariant
            4 <= n == contour.points@.len(),
            forall|ii: int|
                0 <= ii < contour.points@.len() ==> spline_pt_wf(#[trigger] contour.points@[ii]),
            0 <= tension.raw <= FX_SCALE,
            1 <= segs <= 20,
            step == FX_SCALE as int / (segs as int),
            1 <= step <= FX_SCALE,
            step * (segs as int) == FX_SCALE as int,
            n <= 100_000_000,
            i <= n,
            pts@.len() == i * (segs as int),
            forall|k: int| 0 <= k < pts@.len() ==> pt_wf(#[trigger] pts@[k]),
            forall|k: int|
                0 <= k < pts@.len() ==> pts@[k] == smoothed_point(
                    contour.points@,
                    tension.raw as int,
                    segs as int,
                    contour.is_closed,
                    k,
                ),
        decreases n - i,
    {
        let p0: Pt2 = if i == 0 {
            if contour.is_closed {
                contour.points[n - 1]
            } else {
                contour.points[0]
            }
        } else {
            contour.points[i - 1]
        };
        let p1: Pt2 = contour.points[i];
        let p2: Pt2 = if i + 1 >= n {
            if contour.is_closed {
                contour.points[i + 1 - n]
            } else {
                contour.points[n - 1]
            }
        } else {
            contour.points[i + 1]
        };
        let p3: Pt2 = if i + 2 >= n {
            if contour.is_closed {
                contour.points[i + 2 - n]
            } else {
                contour.points[n - 1]
            }
        } else {
            contour.points[i + 2]
        };
        let mut j: u32 = 0;
        while j < segs
            invariant
                4 <= n == contour.points@.len(),
                forall|ii: int|
                    0 <= ii < contour.points@.len() ==> spline_pt_wf(
                        #[trigger] contour.points@[ii],
                    ),
                0 <= tension.raw <= FX_SCALE,
                1 <= segs <= 20,
                step == FX_SCALE as int / (segs as int),
                1 <= step <= FX_SCALE,
                step * (segs as int) == FX_SCALE as int,
                n <= 100_000_000,
                i < n,
                j <= segs,
                p0 == contour.points@[if i == 0 {
                    if contour.is_closed {
                        n - 1
                    } else {
                        0int
                    }
                } else {
                    i as int - 1
                }],
                p1 == contour.points@[i as int],
                p2 == contour.points@[if i + 1 >= n {
                    if contour.is_closed {
                        i + 1 - n
                    } else {
                        n - 1
                    }
                } else {
                    i as int + 1
                }],
                p3 == contour.points@[if i + 2 >= n {
                    if contour.is_closed {
                        i + 2 - n
                    } else {
                        n - 1
                    }
                } else {
                    i as int + 2
                }],
                pts@.len() == i * (segs as int) + j,
                forall|k: int| 0 <= k < pts@.len() ==> pt_wf(#[trigger] pts@[k]),
                forall|k: int|
                    0 <= k < pts@.len() ==> pts@[k] == smoothed_point(
                        contour.points@,
                        tension.raw as int,
                        segs as int,
                        contour.is_closed,
                        k,
                    ),
            decreases segs - j,
        {
            proof {
                assert(0 <= (j as int) * (step as int) <= 20 * (FX_SCALE as int))
                    by (nonlinear_arith)
                    requires
                        0 <= j <= 20,
                        0 < step <= FX_SCALE,
                ;
            }
            let t: Fx = Fx { raw: (j as i64) * step };
            proof {
                assert(0 <= (j as int) * (step as int) <= FX_SCALE as int) by (nonlinear_arith)
                    requires
                        0 <= j < segs,
                        0 < step,
                        step * (segs as int) == FX_SCALE as int,
                ;
            }
            let sample: Pt2 = catmull_rom(p0, p1, p2, p3, t, tension);
            proof {
                let k = i * (segs as int) + j;
                lemma_fundamental_div_mod_converse(
                    k as int,
                    segs as int,
                    i as int,
                    j as int,
                );
                assert((j as int) * (FX_SCALE as int / (segs as int)) == (j as i64) * step);
                assert(sample == smoothed_point(
                    contour.points@,
                    tension.raw as int,
                    segs as int,
                    contour.is_closed,
                    k as int,
                ));
            }
            pts.push(sample);
            j = j + 1;
        }
        proof {
            assert((i as int + 1) * (segs as int) == i as int * (segs as int) + (segs as int))
                by (nonlinear_arith);
        }
        i = i + 1;
    }
    proof {
        assert(pts@ =~= smoothed_seq(
            contour.points@,
            tension.raw as int,
            segs as int,
            contour.is_closed,
        ));
    }
    ContourPath { points: pts, is_closed: contour.is_closed }
}

/// Smooths a contour with ten subdivisions per point at the configured
/// tension, the finishing pass of contour extraction.
pub fn smooth_contour_with_splines(contour: &ContourPath, tension: Fx) -> (out: ContourPath)
    requires
        forall|i: int|
            0 <= i < contour.points@.len() ==> spline_pt_wf(#[trigger] contour.points@[i]),
        0 <= tension.raw <= FX_SCALE,
        contour.points@.len() <= 100_000_000,
    ensures
        out.is_closed == contour.is_closed,
        contour.points@.len() < 4 ==> out.points@ == contour.points@,
        contour.points@.len() >= 4 ==> out.points@ == smoothed_seq(
            contour.points@,
            tension.raw as int,
            10,
            contour.is_closed,
        ),
        out.wf(),
{
    smooth_path(contour, tension, 10)
}

/// Smooths a contour with five subdivisions per point at a tension of one
/// half, the upscale pipeline's finishing pass.
pub fn apply_catmull_rom_smoothing(contour: &ContourPath) -> (out: ContourPath)
    requires
        forall|i: int|
            0 <= i < contour.points@.len() ==> spline_pt_wf(#[trigger] contour.points@[i]),
        contour.points@.len() <= 100_000_000,
    ensures
        out.is_closed == contour.is_closed,
        contour.points@.len() < 4 ==> out.points@ == contour.points@,
        contour.points@.len() >= 4 ==> out.points@ == smoothed_seq(
            contour.points@,
            500_000,
            5,
            contour.is_closed,
        ),
        out.wf(),
{
    smooth_path(contour, Fx { raw: 500_000 }, 5)
}

} // verus!
