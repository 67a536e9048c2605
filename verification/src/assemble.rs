//! Contour assembly: stitches an unordered bag of two-point boundary
//! segments into paths by greedily chaining segments whose endpoints fall
//! within a small tolerance of the growing path's tail.  A path that returns
//! to its own start closes; one that exhausts its candidates stays open.
//! Every segment is consumed by exactly one path.

use vstd::prelude::*;
use crate::contour::{seg_wf, Segment};
use crate::fixed::Fx;
use crate::geom::{pt_wf, Pt2, PT_LIMIT};
use crate::path::ContourPath;

verus! {

/// Squared distance between two points, in raw units squared.
pub open spec fn dist2(a: Pt2, b: Pt2) -> int {
    (a.x.raw - b.x.raw) * (a.x.raw - b.x.raw) + (a.y.raw - b.y.raw) * (a.y.raw - b.y.raw)
}

/// Whether a point is an endpoint of one of the segments.
pub open spec fn from_endpoints(p: Pt2, segs: Seq<Segment>) -> bool {
    exists|j: int| 0 <= j < segs.len() && ((#[trigger] segs[j]).a == p || segs[j].b == p)
}

/// Two consecutive path points chain through one segment: the earlier point
/// lies within the tolerance of one endpoint and the later point is exactly
/// the other endpoint.
pub open spec fn chained_at(p1: Pt2, p2: Pt2, segs: Seq<Segment>, eps: int) -> bool {
    exists|j: int|
        0 <= j < segs.len() && (((dist2((#[trigger] segs[j]).a, p1) < eps * eps) && segs[j].b
            == p2) || ((dist2(segs[j].b, p1) < eps * eps) && segs[j].a == p2))
}

/// A closed path's ends meet through one segment: one endpoint lies within
/// the tolerance of the stored tail and the other within the tolerance of
/// the head (it became the dropped duplicate closing point).
pub open spec fn closes(pts: Seq<Pt2>, segs: Seq<Segment>, eps: int) -> bool {
    exists|j: int|
        0 <= j < segs.len() && (((dist2((#[trigger] segs[j]).a, pts[pts.len() - 1]) < eps * eps)
            && dist2(segs[j].b, pts[0]) < eps * eps) || ((dist2(segs[j].b, pts[pts.len() - 1])
            < eps * eps) && dist2(segs[j].a, pts[0]) < eps * eps))
}

/// How many input segments a run of paths consumed: one per stored point
/// beyond the first, plus one for the segment that closed a closed path.
pub open spec fn consumed_count(paths: Seq<ContourPath>) -> int
    decreases paths.len(),
{
    if paths.len() == 0 {
        0
    } else {
        consumed_count(paths.drop_last()) + paths.last().points@.len() - 1 + (
        if paths.last().is_closed {
            1int
        } else {
            0int
        })
    }
}

/// How many entries of the flag run are set.
pub open spec fn count_trues(s: Seq<bool>) -> int
    decreases s.len(),
{
    if s.len() == 0 {
        0
    } else {
        count_trues(s.drop_last()) + (if s.last() {
            1int
        } else {
            0int
        })
    }
}

/// Setting one clear flag raises the count by one.
proof fn lemma_count_trues_set(s: Seq<bool>, i: int)
    requires
        0 <= i < s.len(),
        !s[i],
    ensures
        count_trues(s.update(i, true)) == count_trues(s) + 1,
    decreases s.len(),
{
    let t = s.update(i, true);
    if i == s.len() - 1 {
        assert(t.drop_last() =~= s.drop_last());
    } else {
        assert(t.drop_last() =~= s.drop_last().update(i, true));
        lemma_count_trues_set(s.drop_last(), i);
        assert(t.last() == s.last());
    }
}

/// The squared distance is symmetric.
proof fn lemma_dist2_symm(a: Pt2, b: Pt2)
    ensures
        dist2(a, b) == dist2(b, a),
{
    assert((a.x.raw - b.x.raw) * (a.x.raw - b.x.raw) == (b.x.raw - a.x.raw) * (b.x.raw
        - a.x.raw)) by (nonlinear_arith);
    assert((a.y.raw - b.y.raw) * (a.y.raw - b.y.raw) == (b.y.raw - a.y.raw) * (b.y.raw
        - a.y.raw)) by (nonlinear_arith);
}

/// The count never exceeds the run's length.
proof fn lemma_count_trues_le(s: Seq<bool>)
    ensures
        count_trues(s) <= s.len(),
    decreases s.len(),
{
    if s.len() > 0 {
        lemma_count_trues_le(s.drop_last());
    }
}

/// A fully set flag run counts its whole length.
proof fn lemma_count_trues_full(s: Seq<bool>)
    requires
        forall|j: int| 0 <= j < s.len() ==> s[j],
    ensures
        count_trues(s) == s.len(),
    decreases s.len(),
{
    if s.len() > 0 {
        lemma_count_trues_full(s.drop_last());
    }
}

/// The whole assembly relation: every path has at least two points (three
/// when closed), its points are segment endpoints, its consecutive points
/// chain through a segment within the tolerance, a closed path's ends meet
/// through a segment, and the paths together consume every input segment
/// exactly once.
pub open spec fn connect_rel(segs: Seq<Segment>, out: Seq<ContourPath>, eps: int) -> bool {
    &&& (forall|p: int| 0 <= p < out.len() ==> (#[trigger] out[p]).points@.len() >= 2)
    &&& (forall|p: int|
        0 <= p < out.len() && (#[trigger] out[p]).is_closed ==> out[p].points@.len() >= 3)
    &&& (forall|p: int, k: int|
        0 <= p < out.len() && 0 <= k < out[p].points@.len() ==> from_endpoints(
            #[trigger] out[p].points@[k],
            segs,
        ))
    &&& (forall|p: int, k: int|
        0 <= p < out.len() && 0 <= k < out[p].points@.len() - 1 ==> chained_at(
            #[trigger] out[p].points@[k],
            out[p].points@[k + 1],
            segs,
            eps,
        ))
    &&& (forall|p: int|
        0 <= p < out.len() && (#[trigger] out[p]).is_closed ==> closes(out[p].points@, segs, eps))
    &&& consumed_count(out) == segs.len()
}

/// Whether two points lie within the joining tolerance of one another.
fn within_eps(a: Pt2, b: Pt2, epsilon: Fx) -> (r: bool)
    requires
        pt_wf(a),
        pt_wf(b),
        0 <= epsilon.raw <= PT_LIMIT,
    ensures
        r == (dist2(a, b) < epsilon.raw * epsilon.raw),
{
    let dx: i128 = (a.x.raw - b.x.raw) as i128;
    let dy: i128 = (a.y.raw - b.y.raw) as i128;
    let e: i128 = epsilon.raw as i128;
    proof {
        let lim = 2 * (PT_LIMIT as int);
        assert(0 <= dx * dx <= lim * lim) by (nonlinear_arith)
            requires
                -lim <= dx <= lim,
                lim == 2 * (PT_LIMIT as int),
        ;
        assert(0 <= dy * dy <= lim * lim) by (nonlinear_arith)
            requires
                -lim <= dy <= lim,
                lim == 2 * (PT_LIMIT as int),
        ;
        assert(0 <= e * e <= (PT_LIMIT as int) * (PT_LIMIT as int)) by (nonlinear_arith)
            requires
                0 <= e <= PT_LIMIT as int,
        ;
    }
    dx * dx + dy * dy < e * e
}

/// Stitches segments into contour paths.  Each segment is used exactly
/// once; a path is seeded with an unused segment and repeatedly extended by
/// any unused segment with an endpoint within `epsilon` of the tail,
/// flipping the segment's orientation as needed.  A path whose tail returns
/// within `epsilon` of its start (after more than three points) closes and
/// drops the duplicate closing point; any other path is kept open.
pub fn connect_segments_to_contours(segments: &Vec<Segment>, epsilon: Fx) -> (out: Vec<
    ContourPath,
>)
    requires
        forall|j: int| 0 <= j < segments@.len() ==> seg_wf(#[trigger] segments@[j]),
        1 <= epsilon.raw <= PT_LIMIT,
    ensures
        connect_rel(segments@, out@, epsilon.raw as int),
        forall|p: int| 0 <= p < out@.len() ==> (#[trigger] out@[p]).wf(),
{
    let n: usize = segments.len();
    let mut used: Vec<bool> = Vec::new();
    let mut t: usize = 0;
    while t < n
        invariant
            t <= n,
            used@.len() == t,
            forall|j: int| 0 <= j < t ==> !used@[j],
        decreases n - t,
    {
        used.push(false);
        t = t + 1;
    }
    proof {
        assert(count_trues(used@) == 0) by {
            lemma_count_trues_none(used@);
        }
    }
    let mut used_count: usize = 0;
    let mut out: Vec<ContourPath> = Vec::new();
    let mut start: usize = 0;
    while start < n
        invariant
            n == segments@.len(),
            forall|j: int| 0 <= j < segments@.len() ==> seg_wf(#[trigger] segments@[j]),
            1 <= epsilon.raw <= PT_LIMIT,
            used@.len() == n,
            start <= n,
            used_count <= n,
            used_count == count_trues(used@),
            consumed_count(out@) == used_count,
            forall|j: int| 0 <= j < start ==> used@[j],
            forall|p: int| 0 <= p < out@.len() ==> (#[trigger] out@[p]).points@.len() >= 2,
            forall|p: int|
                0 <= p < out@.len() && (#[trigger] out@[p]).is_closed ==> out@[p].points@.len()
                    >= 3,
            forall|p: int| 0 <= p < out@.len() ==> (#[trigger] out@[p]).wf(),
            forall|p: int, k: int|
                0 <= p < out@.len() && 0 <= k < out@[p].points@.len() ==> from_endpoints(
                    #[trigger] out@[p].points@[k],
                    segments@,
                ),
            forall|p: int, k: int|
                0 <= p < out@.len() && 0 <= k < out@[p].points@.len() - 1 ==> chained_at(
                    #[trigger] out@[p].points@[k],
                    out@[p].points@[k + 1],
                    segments@,
                    epsilon.raw as int,
                ),
            forall|p: int|
                0 <= p < out@.len() && (#[trigger] out@[p]).is_closed ==> closes(
                    out@[p].points@,
                    segments@,
                    epsilon.raw as int,
                ),
        decreases n - start,
    {
        if used[start] {
            start = start + 1;
            continue;
        }
        let seed: Segment = segments[start];
        proof {
            assert(segments@[start as int].a == seed.a);
        }
        let mut path: Vec<Pt2> = Vec::new();
        path.push(seed.a);
        path.push(seed.b);
        proof {
            lemma_count_trues_set(used@, start as int);
        }
        used.set(start, true);
        proof {
            lemma_count_trues_le(used@);
        }
        used_count = used_count + 1;
        proof {
            assert(chained_at(path@[0], path@[1], segments@, epsilon.raw as int)) by {
                assert(dist2(segments@[start as int].a, path@[0]) == 0) by (nonlinear_arith)
                    requires
                        segments@[start as int].a == path@[0],
                ;
                assert((epsilon.raw as int) * (epsilon.raw as int) >= 1) by (nonlinear_arith)
                    requires
                        epsilon.raw >= 1,
                ;
            }
        }
        let mut closed: bool = false;
        let ghost mut close_j: int = 0;
        let mut rounds: usize = 0;
        // Each extension consumes one unused segment, so `n` rounds suffice.
        while rounds < n
            invariant_except_break
                !closed,
            invariant
                n == segments@.len(),
                forall|j: int| 0 <= j < segments@.len() ==> seg_wf(#[trigger] segments@[j]),
                1 <= epsilon.raw <= PT_LIMIT,
                used@.len() == n,
                rounds <= n,
                used_count <= n,
                used_count == count_trues(used@),
                consumed_count(out@) + path@.len() - 1 == used_count,
                forall|j: int| 0 <= j <= start ==> used@[j],
                path@.len() >= 2,
                forall|k: int| 0 <= k < path@.len() ==> pt_wf(#[trigger] path@[k]),
                forall|k: int|
                    0 <= k < path@.len() ==> from_endpoints(#[trigger] path@[k], segments@),
                forall|k: int|
                    0 <= k < path@.len() - 1 ==> chained_at(
                        #[trigger] path@[k],
                        path@[k + 1],
                        segments@,
                        epsilon.raw as int,
                    ),
            ensures
                path@.len() >= 2,
                used@.len() == n,
                used_count <= n,
                used_count == count_trues(used@),
                consumed_count(out@) + path@.len() - 1 == used_count,
                forall|j: int| 0 <= j <= start ==> used@[j],
                forall|k: int| 0 <= k < path@.len() ==> pt_wf(#[trigger] path@[k]),
                forall|k: int|
                    0 <= k < path@.len() ==> from_endpoints(#[trigger] path@[k], segments@),
                forall|k: int|
                    0 <= k < path@.len() - 1 ==> chained_at(
                        #[trigger] path@[k],
                        path@[k + 1],
                        segments@,
                        epsilon.raw as int,
                    ),
                closed ==> path@.len() > 3,
                closed ==> 0 <= close_j < segments@.len() && ((dist2(
                    segments@[close_j].a,
                    path@[path@.len() - 2],
                ) < (epsilon.raw as int) * (epsilon.raw as int) && dist2(
                    segments@[close_j].b,
                    path@[0],
                ) < (epsilon.raw as int) * (epsilon.raw as int)) || (dist2(
                    segments@[close_j].b,
                    path@[path@.len() - 2],
                ) < (epsilon.raw as int) * (epsilon.raw as int) && dist2(
                    segments@[close_j].a,
                    path@[0],
                ) < (epsilon.raw as int) * (epsilon.raw as int))),
            decreases n - rounds,
        {
            let tail: Pt2 = path[path.len() - 1];
            let mut found: bool = false;
            let ghost mut found_j: int = 0;
            let ghost mut found_flipped: bool = false;
            let mut idx: usize = 0;
            while idx < n && !found
                invariant
                    n == segments@.len(),
                    forall|j: int| 0 <= j < segments@.len() ==> seg_wf(#[trigger] segments@[j]),
                    1 <= epsilon.raw <= PT_LIMIT,
                    used@.len() == n,
                    used_count <= n,
                    used_count == count_trues(used@),
                    consumed_count(out@) + path@.len() - 1 == used_count,
                    forall|j: int| 0 <= j <= start ==> used@[j],
                    idx <= n,
                    pt_wf(tail),
                    path@.len() >= 2,
                    !found ==> tail == path@[path@.len() - 1],
                    forall|k: int| 0 <= k < path@.len() ==> pt_wf(#[trigger] path@[k]),
                    forall|k: int|
                        0 <= k < path@.len() ==> from_endpoints(#[trigger] path@[k], segments@),
                    forall|k: int|
                        0 <= k < path@.len() - 1 ==> chained_at(
                            #[trigger] path@[k],
                            path@[k + 1],
                            segments@,
                            epsilon.raw as int,
                        ),
                    found ==> 0 <= found_j < segments@.len() && path@.len() >= 3 && (
                    if found_flipped {
                        dist2(segments@[found_j].b, path@[path@.len() - 2]) < (epsilon.raw as int)
                            * (epsilon.raw as int) && segments@[found_j].a == path@[path@.len()
                            - 1]
                    } else {
                        dist2(segments@[found_j].a, path@[path@.len() - 2]) < (epsilon.raw as int)
                            * (epsilon.raw as int) && segments@[found_j].b == path@[path@.len()
                            - 1]
                    }),
                decreases n - idx + (if found {
                    0int
                } else {
                    1int
                }),
            {
                if !used[idx] {
                    let cand: Segment = segments[idx];
                    proof {
                        assert(segments@[idx as int].a == cand.a);
                    }
                    if within_eps(cand.a, tail, epsilon) {
                        path.push(cand.b);
                        proof {
                            lemma_count_trues_set(used@, idx as int);
                        }
                        used.set(idx, true);
                        proof {
                            lemma_count_trues_le(used@);
                        }
                        used_count = used_count + 1;
                        found = true;
                        proof {
                            found_j = idx as int;
                            found_flipped = false;
                        }
                    } else if within_eps(cand.b, tail, epsilon) {
                        path.push(cand.a);
                        proof {
                            lemma_count_trues_set(used@, idx as int);
                        }
                        used.set(idx, true);
                        proof {
                            lemma_count_trues_le(used@);
                        }
                        used_count = used_count + 1;
                        found = true;
                        proof {
                            found_j = idx as int;
                            found_flipped = true;
                        }
                    }
                }
                if !found {
                    idx = idx + 1;
                }
            }
            if !found {
                break;
            }
            if path.len() > 3 {
                let last: Pt2 = path[path.len() - 1];
                let head: Pt2 = path[0];
                if within_eps(head, last, epsilon) {
                    closed = true;
                    proof {
                        close_j = found_j;
                        lemma_dist2_symm(head, last);
                        if found_flipped {
                            lemma_dist2_symm(segments@[found_j].a, path@[0]);
                        } else {
                            lemma_dist2_symm(segments@[found_j].b, path@[0]);
                        }
                    }
                    break;
                }
            }
            rounds = rounds + 1;
        }
        if closed {
            // Drop the duplicate closing point.
            let mut pts: Vec<Pt2> = Vec::new();
            let keep: usize = path.len() - 1;
            let mut k: usize = 0;
            while k < keep
                invariant
                    keep < path@.len(),
                    k <= keep,
                    pts@ == path@.subrange(0, k as int),
                    forall|kk: int| 0 <= kk < path@.len() ==> pt_wf(#[trigger] path@[kk]),
                    forall|kk: int|
                        0 <= kk < path@.len() ==> from_endpoints(#[trigger] path@[kk], segments@),
                decreases keep - k,
            {
                pts.push(path[k]);
                proof {
                    assert(pts@ =~= path@.subrange(0, k + 1));
                }
                k = k + 1;
            }
            proof {
                assert(forall|kk: int| 0 <= kk < pts@.len() ==> pts@[kk] == path@[kk]);
                assert(closes(pts@, segments@, epsilon.raw as int)) by {
                    assert(pts@[pts@.len() - 1] == path@[path@.len() - 2]);
                    assert(pts@[0] == path@[0]);
                }
                assert(forall|kk: int|
                    0 <= kk < pts@.len() - 1 ==> chained_at(
                        #[trigger] pts@[kk],
                        pts@[kk + 1],
                        segments@,
                        epsilon.raw as int,
                    ));
            }
            let ghost prev_out = out@;
            out.push(ContourPath { points: pts, is_closed: true });
            proof {
                assert(out@.drop_last() =~= prev_out);
            }
        } else {
            let ghost prev_out = out@;
            out.push(ContourPath { points: path, is_closed: false });
            proof {
                assert(out@.drop_last() =~= prev_out);
            }
        }
        start = start + 1;
    }
    proof {
        lemma_count_trues_full(used@);
    }
    out
}

/// A fully clear flag run counts zero.
proof fn lemma_count_trues_none(s: Seq<bool>)
    requires
        forall|j: int| 0 <= j < s.len() ==> !s[j],
    ensures
        count_trues(s) == 0,
    decreases s.len(),
{
    if s.len() > 0 {
        lemma_count_trues_none(s.drop_last());
    }
}

} // verus!
