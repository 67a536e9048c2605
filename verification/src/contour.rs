//! Contour extraction kernels: marching triangles over a triangulated cell
//! and marching squares over a regular grid cell.  Both classify their
//! corner samples against the threshold and emit two-point boundary
//! segments through the shared edge-interpolation rule.

use vstd::prelude::*;
use crate::fixed::Fx;
use crate::geom::{interp_spec, interpolate_edge, pt_wf, val_wf, Pt2, PT_LIMIT, VAL_LIMIT};
use crate::hex::{max3, min3};
use crate::path::ContourPath;

verus! {

/// An unconnected two-point boundary segment.
#[derive(Clone, Copy, PartialEq, Eq, Structural, Debug)]
pub struct Segment {
    pub a: Pt2,
    pub b: Pt2,
}

/// Both endpoints are well-formed.
pub open spec fn seg_wf(s: Segment) -> bool {
    pt_wf(s.a) && pt_wf(s.b)
}

/// Classification of a triangle's three corner samples against the
/// threshold: one bit per inside corner, eight patterns.
pub open spec fn mt_case(v0: int, v1: int, v2: int, th: int) -> int {
    (if v0 > th {
        1int
    } else {
        0int
    }) + (if v1 > th {
        2int
    } else {
        0int
    }) + (if v2 > th {
        4int
    } else {
        0int
    })
}

/// The boundary segment a triangle emits: for each mixed pattern, the two
/// crossing edges interpolated at the threshold; fully inside or outside
/// patterns emit nothing.
pub open spec fn mt_segment(
    p0: Pt2,
    p1: Pt2,
    p2: Pt2,
    v0: int,
    v1: int,
    v2: int,
    th: int,
) -> Option<Segment> {
    let c = mt_case(v0, v1, v2, th);
    if c == 0 || c == 7 {
        None
    } else if c == 1 {
        Some(Segment { a: interp_spec(p0, p1, v0, v1, th), b: interp_spec(p0, p2, v0, v2, th) })
    } else if c == 2 {
        Some(Segment { a: interp_spec(p1, p0, v1, v0, th), b: interp_spec(p1, p2, v1, v2, th) })
    } else if c == 3 {
        Some(Segment { a: interp_spec(p2, p0, v2, v0, th), b: interp_spec(p2, p1, v2, v1, th) })
    } else if c == 4 {
        Some(Segment { a: interp_spec(p2, p0, v2, v0, th), b: interp_spec(p2, p1, v2, v1, th) })
    } else if c == 5 {
        Some(Segment { a: interp_spec(p1, p0, v1, v0, th), b: interp_spec(p1, p2, v1, v2, th) })
    } else {
        Some(Segment { a: interp_spec(p0, p1, v0, v1, th), b: interp_spec(p0, p2, v0, v2, th) })
    }
}

/// Marching triangles over one triangle of the dual grid: classifies the
/// three corner samples and, for a mixed pattern, returns the two-point
/// open contour crossing the triangle; a uniform pattern returns nothing.
pub fn marching_triangle(
    p0: Pt2,
    p1: Pt2,
    p2: Pt2,
    v0: Fx,
    v1: Fx,
    v2: Fx,
    threshold: Fx,
) -> (r: Option<ContourPath>)
    requires
        pt_wf(p0),
        pt_wf(p1),
        pt_wf(p2),
        val_wf(v0),
        val_wf(v1),
        val_wf(v2),
        val_wf(threshold),
    ensures
        (r is Some) == (mt_segment(
            p0,
            p1,
            p2,
            v0.raw as int,
            v1.raw as int,
            v2.raw as int,
            threshold.raw as int,
        ) is Some),
        r matches Some(c) ==> {
            let seg = mt_segment(
                p0,
                p1,
                p2,
                v0.raw as int,
                v1.raw as int,
                v2.raw as int,
                threshold.raw as int,
            )->0;
            &&& c.points@.len() == 2
            &&& c.points@[0] == seg.a
            &&& c.points@[1] == seg.b
            &&& !c.is_closed
            &&& c.wf()
            &&& forall|k: int|
                0 <= k < 2 ==> min3(p0.x.raw as int, p1.x.raw as int, p2.x.raw as int) <= (
                #[trigger] c.points@[k]).x.raw <= max3(
                    p0.x.raw as int,
                    p1.x.raw as int,
                    p2.x.raw as int,
                )
            &&& forall|k: int|
                0 <= k < 2 ==> min3(p0.y.raw as int, p1.y.raw as int, p2.y.raw as int) <= (
                #[trigger] c.points@[k]).y.raw <= max3(
                    p0.y.raw as int,
                    p1.y.raw as int,
                    p2.y.raw as int,
                )
        },
{
    let c: u8 = (if v0.raw > threshold.raw {
        1u8
    } else {
        0u8
    }) + (if v1.raw > threshold.raw {
        2u8
    } else {
        0u8
    }) + (if v2.raw > threshold.raw {
        4u8
    } else {
        0u8
    });
    if c == 0 || c == 7 {
        return None;
    }
    let (a, b): (Pt2, Pt2) = if c == 1 {
        (interpolate_edge(p0, p1, v0, v1, threshold), interpolate_edge(p0, p2, v0, v2, threshold))
    } else if c == 2 {
        (interpolate_edge(p1, p0, v1, v0, threshold), interpolate_edge(p1, p2, v1, v2, threshold))
    } else if c == 3 {
        (interpolate_edge(p2, p0, v2, v0, threshold), interpolate_edge(p2, p1, v2, v1, threshold))
    } else if c == 4 {
        (interpolate_edge(p2, p0, v2, v0, threshold), interpolate_edge(p2, p1, v2, v1, threshold))
    } else if c == 5 {
        (interpolate_edge(p1, p0, v1, v0, threshold), interpolate_edge(p1, p2, v1, v2, threshold))
    } else {
        (interpolate_edge(p0, p1, v0, v1, threshold), interpolate_edge(p0, p2, v0, v2, threshold))
    };
    let mut pts: Vec<Pt2> = Vec::new();
    pts.push(a);
    pts.push(b);
    Some(ContourPath { points: pts, is_closed: false })
}

/// Classification of a square cell's four corner samples (counter-clockwise
/// from the cell origin) against the threshold: sixteen patterns.
pub open spec fn ms_case(v0: int, v1: int, v2: int, v3: int, th: int) -> int {
    (if v0 > th {
        1int
    } else {
        0int
    }) + (if v1 > th {
        2int
    } else {
        0int
    }) + (if v2 > th {
        4int
    } else {
        0int
    }) + (if v3 > th {
        8int
    } else {
        0int
    })
}

/// The boundary segments a grid cell emits.  Corner 0 sits at `base`,
/// corner 1 at `base + (w, 0)`, corner 2 at `base + (w, h)`, corner 3 at
/// `base + (0, h)`.  The two ambiguous saddle patterns emit both diagonal
/// segments.
pub open spec fn ms_segments(
    base: Pt2,
    w: int,
    h: int,
    v0: int,
    v1: int,
    v2: int,
    v3: int,
    th: int,
) -> Seq<Segment> {
    let q0 = base;
    let q1 = Pt2 { x: Fx { raw: (base.x.raw + w) as i64 }, y: base.y };
    let q2 = Pt2 { x: Fx { raw: (base.x.raw + w) as i64 }, y: Fx { raw: (base.y.raw + h) as i64 } };
    let q3 = Pt2 { x: base.x, y: Fx { raw: (base.y.raw + h) as i64 } };
    let left = interp_spec(q0, q3, v0, v3, th);
    let bottom = interp_spec(q0, q1, v0, v1, th);
    let right = interp_spec(q1, q2, v1, v2, th);
    let top = interp_spec(q3, q2, v3, v2, th);
    let c = ms_case(v0, v1, v2, v3, th);
    if c == 0 || c == 15 {
        Seq::empty()
    } else if c == 1 || c == 14 {
        seq![Segment { a: left, b: bottom }]
    } else if c == 2 || c == 13 {
        seq![Segment { a: bottom, b: right }]
    } else if c == 3 || c == 12 {
        seq![Segment { a: left, b: right }]
    } else if c == 4 || c == 11 {
        seq![Segment { a: right, b: top }]
    } else if c == 5 {
        seq![Segment { a: left, b: bottom }, Segment { a: right, b: top }]
    } else if c == 6 || c == 9 {
        seq![Segment { a: bottom, b: top }]
    } else if c == 7 || c == 8 {
        seq![Segment { a: left, b: top }]
    } else {
        seq![Segment { a: bottom, b: right }, Segment { a: left, b: top }]
    }
}

/// Marching squares over one grid cell at `base` with extent `(w, h)`:
/// classifies the four corner samples into one of sixteen patterns and
/// emits the corresponding one or two boundary segments; the two ambiguous
/// saddle patterns emit both diagonals.
pub fn marching_square_cell(
    base: Pt2,
    w: Fx,
    h: Fx,
    corners: &[Fx; 4],
    threshold: Fx,
) -> (r: Option<Vec<Segment>>)
    requires
        pt_wf(base),
        -PT_LIMIT / 2 <= base.x.raw <= PT_LIMIT / 2,
        -PT_LIMIT / 2 <= base.y.raw <= PT_LIMIT / 2,
        0 <= w.raw <= PT_LIMIT / 2,
        0 <= h.raw <= PT_LIMIT / 2,
        val_wf(corners[0]),
        val_wf(corners[1]),
        val_wf(corners[2]),
        val_wf(corners[3]),
        val_wf(threshold),
    ensures
        ({
            let segs = ms_segments(
                base,
                w.raw as int,
                h.raw as int,
                corners[0].raw as int,
                corners[1].raw as int,
                corners[2].raw as int,
                corners[3].raw as int,
                threshold.raw as int,
            );
            &&& (r is Some) == (segs.len() > 0)
            &&& (r matches Some(v) ==> v@ == segs)
            &&& (r matches Some(v) ==> forall|k: int|
                0 <= k < v@.len() ==> base.x.raw <= (#[trigger] v@[k]).a.x.raw <= base.x.raw
                    + w.raw && base.x.raw <= v@[k].b.x.raw <= base.x.raw + w.raw && base.y.raw
                    <= v@[k].a.y.raw <= base.y.raw + h.raw && base.y.raw <= v@[k].b.y.raw
                    <= base.y.raw + h.raw)
        }),
{
    let v0: Fx = corners[0];
    let v1: Fx = corners[1];
    let v2: Fx = corners[2];
    let v3: Fx = corners[3];
    let q0: Pt2 = base;
    let q1: Pt2 = Pt2 { x: Fx { raw: base.x.raw + w.raw }, y: base.y };
    let q2: Pt2 = Pt2 { x: Fx { raw: base.x.raw + w.raw }, y: Fx { raw: base.y.raw + h.raw } };
    let q3: Pt2 = Pt2 { x: base.x, y: Fx { raw: base.y.raw + h.raw } };
    let c: u8 = (if v0.raw > threshold.raw {
        1u8
    } else {
        0u8
    }) + (if v1.raw > threshold.raw {
        2u8
    } else {
        0u8
    }) + (if v2.raw > threshold.raw {
        4u8
    } else {
        0u8
    }) + (if v3.raw > threshold.raw {
        8u8
    } else {
        0u8
    });
    if c == 0 || c == 15 {
        return None;
    }
    let mut segs: Vec<Segment> = Vec::new();
    if c == 1 || c == 14 {
        let a: Pt2 = interpolate_edge(q0, q3, v0, v3, threshold);
        let b: Pt2 = interpolate_edge(q0, q1, v0, v1, threshold);
        segs.push(Segment { a, b });
    } else if c == 2 || c == 13 {
        let a: Pt2 = interpolate_edge(q0, q1, v0, v1, threshold);
        let b: Pt2 = interpolate_edge(q1, q2, v1, v2, threshold);
        segs.push(Segment { a, b });
    } else if c == 3 || c == 12 {
        let a: Pt2 = interpolate_edge(q0, q3, v0, v3, threshold);
        let b: Pt2 = interpolate_edge(q1, q2, v1, v2, threshold);
        segs.push(Segment { a, b });
    } else if c == 4 || c == 11 {
        let a: Pt2 = interpolate_edge(q1, q2, v1, v2, threshold);
        let b: Pt2 = interpolate_edge(q3, q2, v3, v2, threshold);
        segs.push(Segment { a, b });
    } else if c == 5 {
        let a: Pt2 = interpolate_edge(q0, q3, v0, v3, threshold);
        let b: Pt2 = interpolate_edge(q0, q1, v0, v1, threshold);
        segs.push(Segment { a, b });
        let e: Pt2 = interpolate_edge(q1, q2, v1, v2, threshold);
        let f: Pt2 = interpolate_edge(q3, q2, v3, v2, threshold);
        segs.push(Segment { a: e, b: f });
    } else if c == 6 || c == 9 {
        let a: Pt2 = interpolate_edge(q0, q1, v0, v1, threshold);
        let b: Pt2 = interpolate_edge(q3, q2, v3, v2, threshold);
        segs.push(Segment { a, b });
    } else if c == 7 || c == 8 {
        let a: Pt2 = interpolate_edge(q0, q3, v0, v3, threshold);
        let b: Pt2 = interpolate_edge(q3, q2, v3, v2, threshold);
        segs.push(Segment { a, b });
    } else {
        let a: Pt2 = interpolate_edge(q0, q1, v0, v1, threshold);
        let b: Pt2 = interpolate_edge(q1, q2, v1, v2, threshold);
        segs.push(Segment { a, b });
        let e: Pt2 = interpolate_edge(q0, q3, v0, v3, threshold);
        let f: Pt2 = interpolate_edge(q3, q2, v3, v2, threshold);
        segs.push(Segment { a: e, b: f });
    }
    proof {
        assert(segs@ =~= ms_segments(
            base,
            w.raw as int,
            h.raw as int,
            corners[0].raw as int,
            corners[1].raw as int,
            corners[2].raw as int,
            corners[3].raw as int,
            threshold.raw as int,
        ));
    }
    Some(segs)
}

} // verus!
