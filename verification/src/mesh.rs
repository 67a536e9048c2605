//! Triangle mesh buffers and polygon triangulation by ear clipping.
//!
//! The triangulation carries a full accounting of signed area: clipping a
//! corner from a polygon splits its doubled signed area into the clipped
//! triangle's and the remainder's, so the triangles that come out cover the
//! polygon exactly.

use vstd::prelude::*;
use crate::fixed::{Fx, FX_SCALE};
use crate::geom::{cross3, point_in_tri, pt_wf, Pt2, Pt3, PT_LIMIT};
use crate::hex::abs_val;
use crate::path::ContourPath;

verus! {

/// Cross product of two points taken as vectors from the origin.
pub open spec fn cross_o(a: Pt2, b: Pt2) -> int {
    a.x.raw * b.y.raw - a.y.raw * b.x.raw
}

/// Sum of the cross products along consecutive points (the open edge chain).
pub open spec fn esum(s: Seq<Pt2>) -> int
    decreases s.len(),
{
    if s.len() < 2 {
        0
    } else {
        cross_o(s[0], s[1]) + esum(s.drop_first())
    }
}

/// Twice the signed area of the polygon through `s`, by the shoelace rule:
/// the edge chain plus the closing edge.
pub open spec fn cyc_sum(s: Seq<Pt2>) -> int {
    if s.len() < 2 {
        0
    } else {
        esum(s) + cross_o(s.last(), s[0])
    }
}

/// The doubled triangle area is the cyclic cross-product sum of its corners.
pub proof fn lemma_tri2a_cross(a: Pt2, b: Pt2, c: Pt2)
    ensures
        cross3(a, b, c) == cross_o(a, b) + cross_o(b, c) + cross_o(c, a),
{
    assert((b.x.raw - a.x.raw) * (c.y.raw - a.y.raw) - (c.x.raw - a.x.raw) * (b.y.raw - a.y.raw)
        == (a.x.raw * b.y.raw - a.y.raw * b.x.raw) + (b.x.raw * c.y.raw - b.y.raw * c.x.raw) + (
        c.x.raw * a.y.raw - c.y.raw * a.x.raw)) by (nonlinear_arith);
}

/// The cross product is antisymmetric.
pub proof fn lemma_cross_o_antisym(a: Pt2, b: Pt2)
    ensures
        cross_o(a, b) == -cross_o(b, a),
{
    assert(a.x.raw * b.y.raw - a.y.raw * b.x.raw == -(b.x.raw * a.y.raw - b.y.raw * a.x.raw))
        by (nonlinear_arith);
}

/// Removing the last point shortens the edge chain by its last edge.
proof fn lemma_esum_snoc(s: Seq<Pt2>)
    requires
        s.len() >= 2,
    ensures
        esum(s) == esum(s.drop_last()) + cross_o(s[s.len() - 2], s[s.len() - 1]),
    decreases s.len(),
{
    if s.len() == 2 {
        assert(s.drop_first().len() == 1);
        assert(esum(s.drop_first()) == 0);
        assert(esum(s) == cross_o(s[0], s[1]) + esum(s.drop_first()));
        assert(s.drop_last().len() == 1);
        assert(esum(s.drop_last()) == 0);
    } else {
        let t = s.drop_first();
        let d = s.drop_last();
        lemma_esum_snoc(t);
        assert(t.drop_last() =~= d.drop_first());
        assert(esum(s) == cross_o(s[0], s[1]) + esum(t));
        assert(d.len() >= 2);
        assert(d[0] == s[0] && d[1] == s[1]);
        assert(esum(d) == cross_o(d[0], d[1]) + esum(d.drop_first()));
        assert(t[t.len() - 2] == s[s.len() - 2] && t[t.len() - 1] == s[s.len() - 1]);
    }
}

/// Removing an interior point replaces its two edges with the shortcut edge.
proof fn lemma_esum_remove(s: Seq<Pt2>, m: int)
    requires
        1 <= m < s.len() - 1,
    ensures
        esum(s.remove(m)) == esum(s) - cross_o(s[m - 1], s[m]) - cross_o(s[m], s[m + 1]) + cross_o(
            s[m - 1],
            s[m + 1],
        ),
    decreases m,
{
    if m == 1 {
        let t = s.drop_first();
        let u = t.drop_first();
        assert(esum(s) == cross_o(s[0], s[1]) + esum(t));
        assert(esum(t) == cross_o(s[1], s[2]) + esum(u));
        let r = s.remove(1);
        assert(r[0] == s[0] && r[1] == s[2]);
        assert(r.drop_first() =~= u);
        assert(esum(r) == cross_o(s[0], s[2]) + esum(u));
    } else {
        let t = s.drop_first();
        lemma_esum_remove(t, m - 1);
        let r = s.remove(m);
        assert(r[0] == s[0] && r[1] == s[1]);
        assert(r.drop_first() =~= t.remove(m - 1));
        assert(esum(r) == cross_o(s[0], s[1]) + esum(t.remove(m - 1)));
        assert(esum(s) == cross_o(s[0], s[1]) + esum(t));
        assert(t[m - 2] == s[m - 1] && t[m - 1] == s[m] && t[m] == s[m + 1]);
    }
}

/// Clipping one corner from a polygon of at least three points splits its
/// doubled signed area into the clipped triangle's and the remainder's.
pub proof fn lemma_cyc_remove(s: Seq<Pt2>, m: int)
    requires
        s.len() >= 3,
        0 <= m < s.len(),
    ensures
        cyc_sum(s.remove(m)) == cyc_sum(s) - cross3(
            s[if m == 0 {
                s.len() - 1
            } else {
                m - 1
            }],
            s[m],
            s[if m == s.len() - 1 {
                0
            } else {
                m + 1
            }],
        ),
{
    let n = s.len() as int;
    if m == 0 {
        let r = s.remove(0);
        assert(r =~= s.drop_first());
        assert(esum(s) == cross_o(s[0], s[1]) + esum(r));
        assert(r.last() == s.last() && r[0] == s[1]);
        lemma_tri2a_cross(s[n - 1], s[0], s[1]);
        lemma_cross_o_antisym(s[1], s[n - 1]);
    } else if m == n - 1 {
        let r = s.remove(n - 1);
        assert(r =~= s.drop_last());
        lemma_esum_snoc(s);
        assert(r.last() == s[n - 2] && r[0] == s[0]);
        lemma_tri2a_cross(s[n - 2], s[n - 1], s[0]);
        lemma_cross_o_antisym(s[0], s[n - 2]);
    } else {
        let r = s.remove(m);
        lemma_esum_remove(s, m);
        assert(r.last() == s.last() && r[0] == s[0]);
        lemma_tri2a_cross(s[m - 1], s[m], s[m + 1]);
        lemma_cross_o_antisym(s[m + 1], s[m - 1]);
    }
}

/// Flat mesh buffers: positions, triangle indices, normals and texture
/// coordinates.  The terminal artifact of the generation pipeline.
#[derive(Clone)]
pub struct TerrainMeshData {
    pub vertices: Vec<Pt3>,
    pub indices: Vec<u16>,
    pub normals: Vec<Pt3>,
    pub uvs: Vec<Pt2>,
}

impl TerrainMeshData {
    /// Buffer well-formedness: one normal and one texture coordinate per
    /// vertex, indices in whole triangles, every index in range.
    pub open spec fn wf(self) -> bool {
        &&& self.normals@.len() == self.vertices@.len()
        &&& self.uvs@.len() == self.vertices@.len()
        &&& self.indices@.len() % 3 == 0
        &&& forall|i: int|
            0 <= i < self.indices@.len() ==> (#[trigger] self.indices@[i]) < self.vertices@.len()
    }

    /// Empty buffers.
    pub fn empty() -> (m: TerrainMeshData)
        ensures
            m.wf(),
            m.vertices@.len() == 0,
            m.indices@.len() == 0,
            m.normals@.len() == 0,
            m.uvs@.len() == 0,
    {
        TerrainMeshData {
            vertices: Vec::new(),
            indices: Vec::new(),
            normals: Vec::new(),
            uvs: Vec::new(),
        }
    }
}

/// Sum of the doubled signed areas of the triangles listed in an index
/// buffer, whose entries address `pts` starting at `base`.
pub open spec fn tris2a(idx: Seq<u16>, pts: Seq<Pt2>, base: int) -> int
    decreases idx.len(),
{
    if idx.len() < 3 {
        0
    } else {
        tris2a(idx.subrange(0, idx.len() - 3), pts, base) + cross3(
            pts[idx[idx.len() - 3] - base],
            pts[idx[idx.len() - 2] - base],
            pts[idx[idx.len() - 1] - base],
        )
    }
}

/// A three-point polygon's doubled signed area is its triangle's.
pub proof fn lemma_cyc_tri(s: Seq<Pt2>)
    requires
        s.len() == 3,
    ensures
        cyc_sum(s) == cross3(s[0], s[1], s[2]),
{
    let t = s.drop_first();
    let u = t.drop_first();
    assert(t.len() == 2 && t[0] == s[1] && t[1] == s[2]);
    assert(u.len() == 1);
    assert(esum(u) == 0);
    assert(esum(t) == cross_o(t[0], t[1]) + esum(u));
    assert(esum(s) == cross_o(s[0], s[1]) + esum(t));
    lemma_tri2a_cross(s[0], s[1], s[2]);
}

/// Twice the signed area of the triangle `a b c`, executable.
fn cross3_val(a: Pt2, b: Pt2, c: Pt2) -> (r: i128)
    requires
        pt_wf(a),
        pt_wf(b),
        pt_wf(c),
    ensures
        r as int == cross3(a, b, c),
{
    let bax: i128 = (b.x.raw - a.x.raw) as i128;
    let bay: i128 = (b.y.raw - a.y.raw) as i128;
    let cax: i128 = (c.x.raw - a.x.raw) as i128;
    let cay: i128 = (c.y.raw - a.y.raw) as i128;
    proof {
        let lim = 2 * (PT_LIMIT as int);
        assert(-lim * lim <= bax * cay <= lim * lim) by (nonlinear_arith)
            requires
                -lim <= bax <= lim,
                -lim <= cay <= lim,
                lim == 2 * (PT_LIMIT as int),
        ;
        assert(-lim * lim <= cax * bay <= lim * lim) by (nonlinear_arith)
            requires
                -lim <= cax <= lim,
                -lim <= bay <= lim,
                lim == 2 * (PT_LIMIT as int),
        ;
    }
    bax * cay - cax * bay
}

/// Whether `p` lies inside or on the triangle `a b c`, for either winding.
pub fn point_in_triangle(p: Pt2, a: Pt2, b: Pt2, c: Pt2) -> (r: bool)
    requires
        pt_wf(p),
        pt_wf(a),
        pt_wf(b),
        pt_wf(c),
    ensures
        r == point_in_tri(p, a, b, c),
{
    let e0: i128 = cross3_val(a, b, p);
    let e1: i128 = cross3_val(b, c, p);
    let e2: i128 = cross3_val(c, a, p);
    (e0 >= 0 && e1 >= 0 && e2 >= 0) || (e0 <= 0 && e1 <= 0 && e2 <= 0)
}

/// An ear candidate at point indices `prev`, `curr`, `next` of `pts` is
/// valid when the corner winds counter-clockwise and no other point of the
/// remaining ring lies inside it.
pub open spec fn ear_check(pts: Seq<Pt2>, ring: Seq<usize>, prev: int, curr: int, next: int) -> bool {
    &&& cross3(pts[prev], pts[curr], pts[next]) > 0
    &&& forall|k: int|
        0 <= k < ring.len() && ring[k] != prev && ring[k] != curr && ring[k] != next
            ==> !point_in_tri(pts[#[trigger] ring[k] as int], pts[prev], pts[curr], pts[next])
}

/// Whether the corner `prev, curr, next` is a clippable ear: oriented
/// counter-clockwise, with no other remaining vertex inside it.
pub fn is_ear(points: &Vec<Pt2>, prev: usize, curr: usize, next: usize, remaining: &Vec<usize>) -> (r:
    bool)
    requires
        forall|j: int| 0 <= j < points@.len() ==> pt_wf(#[trigger] points@[j]),
        prev < points@.len(),
        curr < points@.len(),
        next < points@.len(),
        forall|k: int| 0 <= k < remaining@.len() ==> (#[trigger] remaining@[k]) < points@.len(),
    ensures
        r == ear_check(points@, remaining@, prev as int, curr as int, next as int),
{
    let p1: Pt2 = points[prev];
    let p2: Pt2 = points[curr];
    let p3: Pt2 = points[next];
    if !(cross3_val(p1, p2, p3) > 0) {
        return false;
    }
    let mut k: usize = 0;
    while k < remaining.len()
        invariant
            forall|j: int| 0 <= j < points@.len() ==> pt_wf(#[trigger] points@[j]),
            prev < points@.len(),
            curr < points@.len(),
            next < points@.len(),
            forall|kk: int| 0 <= kk < remaining@.len() ==> (#[trigger] remaining@[kk]) < points@.len(),
            p1 == points@[prev as int],
            p2 == points@[curr as int],
            p3 == points@[next as int],
            k <= remaining@.len(),
            forall|kk: int|
                0 <= kk < k && remaining@[kk] != prev && remaining@[kk] != curr && remaining@[kk]
                    != next ==> !point_in_tri(
                    points@[#[trigger] remaining@[kk] as int],
                    p1,
                    p2,
                    p3,
                ),
        decreases remaining@.len() - k,
    {
        let idx: usize = remaining[k];
        if idx != prev && idx != curr && idx != next {
            if point_in_triangle(points[idx], p1, p2, p3) {
                return false;
            }
        }
        k = k + 1;
    }
    true
}

/// Smallest x component among the points.
pub open spec fn min_x(pts: Seq<Pt2>) -> int
    decreases pts.len(),
{
    if pts.len() <= 1 {
        if pts.len() == 1 {
            pts[0].x.raw as int
        } else {
            0
        }
    } else {
        let m = min_x(pts.drop_last());
        if (pts.last().x.raw as int) < m {
            pts.last().x.raw as int
        } else {
            m
        }
    }
}

/// Companion of `min_x` for the y component.
pub open spec fn min_y(pts: Seq<Pt2>) -> int
    decreases pts.len(),
{
    if pts.len() <= 1 {
        if pts.len() == 1 {
            pts[0].y.raw as int
        } else {
            0
        }
    } else {
        let m = min_y(pts.drop_last());
        if (pts.last().y.raw as int) < m {
            pts.last().y.raw as int
        } else {
            m
        }
    }
}

/// Largest x component among the points.
pub open spec fn max_x(pts: Seq<Pt2>) -> int
    decreases pts.len(),
{
    if pts.len() <= 1 {
        if pts.len() == 1 {
            pts[0].x.raw as int
        } else {
            0
        }
    } else {
        let m = max_x(pts.drop_last());
        if (pts.last().x.raw as int) > m {
            pts.last().x.raw as int
        } else {
            m
        }
    }
}

/// Largest y component among the points.
pub open spec fn max_y(pts: Seq<Pt2>) -> int
    decreases pts.len(),
{
    if pts.len() <= 1 {
        if pts.len() == 1 {
            pts[0].y.raw as int
        } else {
            0
        }
    } else {
        let m = max_y(pts.drop_last());
        if (pts.last().y.raw as int) > m {
            pts.last().y.raw as int
        } else {
            m
        }
    }
}

/// The texture coordinate of a vertex: its position within the polygon's
/// bounding box, normalized per axis; an axis of zero extent maps to zero.
pub open spec fn uv_of(p: Pt2, pts: Seq<Pt2>) -> Pt2 {
    let sx = max_x(pts) - min_x(pts);
    let sy = max_y(pts) - min_y(pts);
    Pt2 {
        x: Fx {
            raw: (if sx == 0 {
                0
            } else {
                crate::fixed::fx_div_spec(p.x.raw - min_x(pts), sx)
            }) as i64,
        },
        y: Fx {
            raw: (if sy == 0 {
                0
            } else {
                crate::fixed::fx_div_spec(p.y.raw - min_y(pts), sy)
            }) as i64,
        },
    }
}

/// The extrema are bounds for every point.
proof fn lemma_minmax_bounds(pts: Seq<Pt2>, j: int)
    requires
        0 <= j < pts.len(),
    ensures
        min_x(pts) <= pts[j].x.raw,
        pts[j].x.raw <= max_x(pts),
        min_y(pts) <= pts[j].y.raw,
        pts[j].y.raw <= max_y(pts),
    decreases pts.len(),
{
    if pts.len() > 1 && j < pts.len() - 1 {
        lemma_minmax_bounds(pts.drop_last(), j);
    }
}

/// Triangulates one closed polygon into the shared mesh buffers by ear
/// clipping: appends the polygon's points as vertices (with flat normals and
/// bounding-box texture coordinates) and `3 (n - 2)` indices forming `n - 2`
/// triangles whose doubled signed areas sum to the polygon's.  When no ear
/// is found in a full scan, the first corner is clipped regardless, so the
/// pass always completes.
pub fn triangulate_polygon(
    points: &Vec<Pt2>,
    vertices: &mut Vec<Pt3>,
    indices: &mut Vec<u16>,
    normals: &mut Vec<Pt3>,
    uvs: &mut Vec<Pt2>,
)
    requires
        points@.len() >= 3,
        forall|j: int| 0 <= j < points@.len() ==> pt_wf(#[trigger] points@[j]),
        old(vertices)@.len() == old(normals)@.len(),
        old(vertices)@.len() == old(uvs)@.len(),
        old(vertices)@.len() + points@.len() <= 0xffff,
    ensures
        final(vertices)@.len() == old(vertices)@.len() + points@.len(),
        final(normals)@.len() == final(vertices)@.len(),
        final(uvs)@.len() == final(vertices)@.len(),
        forall|k: int| 0 <= k < old(vertices)@.len() ==> final(vertices)@[k] == old(vertices)@[k],
        forall|k: int| 0 <= k < old(normals)@.len() ==> final(normals)@[k] == old(normals)@[k],
        forall|k: int| 0 <= k < old(uvs)@.len() ==> final(uvs)@[k] == old(uvs)@[k],
        forall|j: int|
            0 <= j < points@.len() ==> final(vertices)@[old(vertices)@.len() + j] == (Pt3 {
                x: points@[j].x,
                y: points@[j].y,
                z: Fx { raw: 0 },
            }),
        forall|j: int|
            0 <= j < points@.len() ==> #[trigger] final(normals)@[old(normals)@.len() + j] == (Pt3 {
                x: Fx { raw: 0 },
                y: Fx { raw: 0 },
                z: Fx { raw: FX_SCALE },
            }),
        forall|j: int|
            0 <= j < points@.len() ==> final(uvs)@[old(uvs)@.len() + j] == uv_of(points@[j], points@),
        final(indices)@.len() == old(indices)@.len() + 3 * (points@.len() - 2),
        forall|k: int| 0 <= k < old(indices)@.len() ==> final(indices)@[k] == old(indices)@[k],
        forall|k: int|
            old(indices)@.len() <= k < final(indices)@.len() ==> old(vertices)@.len() <= (
            #[trigger] final(indices)@[k]) < old(vertices)@.len() + points@.len(),
        tris2a(
            final(indices)@.subrange(old(indices)@.len() as int, final(indices)@.len() as int),
            points@,
            old(vertices)@.len() as int,
        ) == cyc_sum(points@),
{
    let n: usize = points.len();
    let base: u16 = vertices.len() as u16;
    let ghost v0 = vertices@;
    let ghost idx0 = indices@.len() as int;

    // Bounding box for the texture coordinates.
    let mut mnx: i64 = points[0].x.raw;
    let mut mny: i64 = points[0].y.raw;
    let mut mxx: i64 = points[0].x.raw;
    let mut mxy: i64 = points[0].y.raw;
    let mut i: usize = 1;
    while i < n
        invariant
            n == points@.len(),
            1 <= i <= n,
            forall|j: int| 0 <= j < points@.len() ==> pt_wf(#[trigger] points@[j]),
            mnx == min_x(points@.subrange(0, i as int)),
            mny == min_y(points@.subrange(0, i as int)),
            mxx == max_x(points@.subrange(0, i as int)),
            mxy == max_y(points@.subrange(0, i as int)),
            -PT_LIMIT <= mnx <= PT_LIMIT,
            -PT_LIMIT <= mny <= PT_LIMIT,
            -PT_LIMIT <= mxx <= PT_LIMIT,
            -PT_LIMIT <= mxy <= PT_LIMIT,
        decreases n - i,
    {
        proof {
            assert(points@.subrange(0, i + 1).drop_last() =~= points@.subrange(0, i as int));
            assert(points@.subrange(0, i + 1).last() == points@[i as int]);
        }
        let p: Pt2 = points[i];
        if p.x.raw < mnx {
            mnx = p.x.raw;
        }
        if p.y.raw < mny {
            mny = p.y.raw;
        }
        if p.x.raw > mxx {
            mxx = p.x.raw;
        }
        if p.y.raw > mxy {
            mxy = p.y.raw;
        }
        i = i + 1;
    }
    proof {
        assert(points@.subrange(0, n as int) =~= points@);
    }
    let sx: i64 = mxx - mnx;
    let sy: i64 = mxy - mny;

    // Vertices, normals and texture coordinates.
    let mut j: usize = 0;
    while j < n
        invariant
            n == points@.len(),
            j <= n,
            forall|jj: int| 0 <= jj < points@.len() ==> pt_wf(#[trigger] points@[jj]),
            mnx == min_x(points@),
            mny == min_y(points@),
            mxx == max_x(points@),
            mxy == max_y(points@),
            -PT_LIMIT <= mnx <= PT_LIMIT,
            -PT_LIMIT <= mny <= PT_LIMIT,
            sx == mxx - mnx,
            sy == mxy - mny,
            0 <= sx <= 2 * PT_LIMIT,
            0 <= sy <= 2 * PT_LIMIT,
            vertices@.len() == old(vertices)@.len() + j,
            normals@.len() == old(normals)@.len() + j,
            uvs@.len() == old(uvs)@.len() + j,
            forall|k: int| 0 <= k < old(vertices)@.len() ==> vertices@[k] == old(vertices)@[k],
            forall|k: int| 0 <= k < old(normals)@.len() ==> normals@[k] == old(normals)@[k],
            forall|k: int| 0 <= k < old(uvs)@.len() ==> uvs@[k] == old(uvs)@[k],
            forall|jj: int|
                0 <= jj < j ==> vertices@[old(vertices)@.len() + jj] == (Pt3 {
                    x: points@[jj].x,
                    y: points@[jj].y,
                    z: Fx { raw: 0 },
                }),
            forall|jj: int|
                0 <= jj < j ==> #[trigger] normals@[old(normals)@.len() + jj] == (Pt3 {
                    x: Fx { raw: 0 },
                    y: Fx { raw: 0 },
                    z: Fx { raw: FX_SCALE },
                }),
            forall|jj: int|
                0 <= jj < j ==> uvs@[old(uvs)@.len() + jj] == uv_of(points@[jj], points@),
            indices@ == old(indices)@,
        decreases n - j,
    {
        let p: Pt2 = points[j];
        proof {
            lemma_minmax_bounds(points@, j as int);
        }
        vertices.push(Pt3 { x: p.x, y: p.y, z: Fx { raw: 0 } });
        normals.push(Pt3 { x: Fx { raw: 0 }, y: Fx { raw: 0 }, z: Fx { raw: FX_SCALE } });
        let ux: i64 = if sx == 0 {
            0
        } else {
            proof {
                assert(abs_val(p.x.raw - mnx) * (FX_SCALE as int) <= 0x7fff_ffff_ffff_ffff
                    * abs_val(sx as int)) by (nonlinear_arith)
                    requires
                        0 <= p.x.raw - mnx <= sx,
                        0 < sx,
                        abs_val(p.x.raw - mnx) == p.x.raw - mnx,
                        abs_val(sx as int) == sx,
                ;
            }
            let q: Fx = (Fx { raw: p.x.raw - mnx }).div_by(Fx { raw: sx });
            q.raw
        };
        let uy: i64 = if sy == 0 {
            0
        } else {
            proof {
                assert(abs_val(p.y.raw - mny) * (FX_SCALE as int) <= 0x7fff_ffff_ffff_ffff
                    * abs_val(sy as int)) by (nonlinear_arith)
                    requires
                        0 <= p.y.raw - mny <= sy,
                        0 < sy,
                        abs_val(p.y.raw - mny) == p.y.raw - mny,
                        abs_val(sy as int) == sy,
                ;
            }
            let q: Fx = (Fx { raw: p.y.raw - mny }).div_by(Fx { raw: sy });
            q.raw
        };
        uvs.push(Pt2 { x: Fx { raw: ux }, y: Fx { raw: uy } });
        proof {
            assert(uvs@[old(uvs)@.len() + j] == uv_of(points@[j as int], points@));
        }
        j = j + 1;
    }

    // Ear clipping over the ring of remaining point indices.
    let mut remaining: Vec<usize> = Vec::new();
    let mut t: usize = 0;
    while t < n
        invariant
            n == points@.len(),
            t <= n,
            remaining@.len() == t,
            forall|k: int| 0 <= k < t ==> remaining@[k] == k as usize,
        decreases n - t,
    {
        remaining.push(t);
        t = t + 1;
    }
    let ghost ring_pts = remaining@.map_values(|ix: usize| points@[ix as int]);
    proof {
        assert(ring_pts =~= points@);
        assert(indices@.subrange(idx0, indices@.len() as int) =~= Seq::<u16>::empty());
        assert(tris2a(indices@.subrange(idx0, indices@.len() as int), points@, base as int) == 0);
    }
    loop
        invariant
            n == points@.len(),
            3 <= n,
            base as int == old(vertices)@.len(),
            base as int + n <= 0xffff,
            forall|jj: int| 0 <= jj < points@.len() ==> pt_wf(#[trigger] points@[jj]),
            3 <= remaining@.len() <= n,
            forall|k: int| 0 <= k < remaining@.len() ==> (#[trigger] remaining@[k]) < n,
            idx0 == old(indices)@.len(),
            indices@.len() == idx0 + 3 * (n - remaining@.len()),
            forall|k: int| 0 <= k < idx0 ==> indices@[k] == old(indices)@[k],
            forall|k: int|
                idx0 <= k < indices@.len() ==> base <= (#[trigger] indices@[k]) < base as int + n,
            tris2a(indices@.subrange(idx0, indices@.len() as int), points@, base as int) + cyc_sum(
                remaining@.map_values(|ix: usize| points@[ix as int]),
            ) == cyc_sum(points@),
            vertices@.len() == old(vertices)@.len() + n,
            normals@.len() == old(normals)@.len() + n,
            uvs@.len() == old(uvs)@.len() + n,
            forall|k: int| 0 <= k < old(vertices)@.len() ==> vertices@[k] == old(vertices)@[k],
            forall|k: int| 0 <= k < old(normals)@.len() ==> normals@[k] == old(normals)@[k],
            forall|k: int| 0 <= k < old(uvs)@.len() ==> uvs@[k] == old(uvs)@[k],
            forall|jj: int|
                0 <= jj < points@.len() ==> vertices@[old(vertices)@.len() + jj] == (Pt3 {
                    x: points@[jj].x,
                    y: points@[jj].y,
                    z: Fx { raw: 0 },
                }),
            forall|jj: int|
                0 <= jj < points@.len() ==> #[trigger] normals@[old(normals)@.len() + jj] == (Pt3 {
                    x: Fx { raw: 0 },
                    y: Fx { raw: 0 },
                    z: Fx { raw: FX_SCALE },
                }),
            forall|jj: int|
                0 <= jj < points@.len() ==> uvs@[old(uvs)@.len() + jj] == uv_of(
                    points@[jj],
                    points@,
                ),
        ensures
            remaining@.len() == 3,
        decreases remaining@.len(),
    {
        if remaining.len() <= 3 {
            break;
        }
        let rlen: usize = remaining.len();
        let mut clip_pos: usize = 1;
        let mut found: bool = false;
        let mut s: usize = 0;
        while s < rlen && !found
            invariant
                rlen == remaining@.len(),
                n == points@.len(),
                forall|jj: int| 0 <= jj < points@.len() ==> pt_wf(#[trigger] points@[jj]),
                forall|k: int| 0 <= k < remaining@.len() ==> (#[trigger] remaining@[k]) < n,
                4 <= rlen,
                s <= rlen,
                clip_pos < rlen,
            decreases rlen - s + (if found { 0int } else { 1int }),
        {
            let pv: usize = remaining[if s == 0 {
                rlen - 1
            } else {
                s - 1
            }];
            let cu: usize = remaining[s];
            let nx: usize = remaining[if s == rlen - 1 {
                0
            } else {
                s + 1
            }];
            if is_ear(points, pv, cu, nx, &remaining) {
                clip_pos = s;
                found = true;
            } else {
                s = s + 1;
            }
        }
        // Clip the chosen corner (the scan's ear, or the forced default).
        let rl: usize = remaining.len();
        let ppos: usize = if clip_pos == 0 {
            rl - 1
        } else {
            clip_pos - 1
        };
        let npos: usize = if clip_pos == rl - 1 {
            0
        } else {
            clip_pos + 1
        };
        let pv: usize = remaining[ppos];
        let cu: usize = remaining[clip_pos];
        let nx: usize = remaining[npos];
        let ghost ring_before = remaining@.map_values(|ix: usize| points@[ix as int]);
        let ghost sub_before = indices@.subrange(idx0, indices@.len() as int);
        indices.push(base + (pv as u16));
        indices.push(base + (cu as u16));
        indices.push(base + (nx as u16));
        remaining.remove(clip_pos);
        proof {
            let sub_after = indices@.subrange(idx0, indices@.len() as int);
            assert(sub_after.len() == sub_before.len() + 3);
            assert(sub_after.subrange(0, sub_after.len() - 3) =~= sub_before);
            assert(sub_after[sub_after.len() - 3] == base + pv && sub_after[sub_after.len() - 2]
                == base + cu && sub_after[sub_after.len() - 1] == base + nx);
            assert(tris2a(sub_after, points@, base as int) == tris2a(sub_before, points@, base as int)
                + cross3(points@[pv as int], points@[cu as int], points@[nx as int]));
            let ring_after = remaining@.map_values(|ix: usize| points@[ix as int]);
            assert(ring_after =~= ring_before.remove(clip_pos as int));
            lemma_cyc_remove(ring_before, clip_pos as int);
            assert(ring_before[ppos as int] == points@[pv as int]);
            assert(ring_before[clip_pos as int] == points@[cu as int]);
            assert(ring_before[npos as int] == points@[nx as int]);
        }
    }
    // The last three vertices form the final triangle.
    let pv: usize = remaining[0];
    let cu: usize = remaining[1];
    let nx: usize = remaining[2];
    let ghost ring_last = remaining@.map_values(|ix: usize| points@[ix as int]);
    let ghost sub_before = indices@.subrange(idx0, indices@.len() as int);
    indices.push(base + (pv as u16));
    indices.push(base + (cu as u16));
    indices.push(base + (nx as u16));
    proof {
        let sub_after = indices@.subrange(idx0, indices@.len() as int);
        assert(sub_after.subrange(0, sub_after.len() - 3) =~= sub_before);
        assert(sub_after[sub_after.len() - 3] == base + pv && sub_after[sub_after.len() - 2] == base
            + cu && sub_after[sub_after.len() - 1] == base + nx);
        assert(tris2a(sub_after, points@, base as int) == tris2a(sub_before, points@, base as int)
            + cross3(points@[pv as int], points@[cu as int], points@[nx as int]));
        lemma_cyc_tri(ring_last);
        assert(ring_last[0] == points@[pv as int] && ring_last[1] == points@[cu as int]
            && ring_last[2] == points@[nx as int]);
    }
}

/// Ties a mesh to the contour it triangulates: one vertex per contour
/// point (with flat normals and bounding-box texture coordinates), `n - 2`
/// triangles whose indices stay in range and whose doubled signed areas sum
/// to the contour's.
pub open spec fn contour_mesh_ok(c: ContourPath, m: TerrainMeshData) -> bool {
    &&& m.wf()
    &&& m.vertices@.len() == c.points@.len()
    &&& (forall|j: int|
        0 <= j < c.points@.len() ==> m.vertices@[j] == (Pt3 {
            x: c.points@[j].x,
            y: c.points@[j].y,
            z: Fx { raw: 0 },
        }))
    &&& (forall|j: int|
        0 <= j < c.points@.len() ==> #[trigger] m.normals@[j] == (Pt3 {
            x: Fx { raw: 0 },
            y: Fx { raw: 0 },
            z: Fx { raw: FX_SCALE },
        }))
    &&& (forall|j: int| 0 <= j < c.points@.len() ==> m.uvs@[j] == uv_of(c.points@[j], c.points@))
    &&& m.indices@.len() == 3 * (c.points@.len() - 2)
    &&& tris2a(m.indices@, c.points@, 0) == cyc_sum(c.points@)
}

/// Triangulates one closed contour into a mesh of its own.
pub fn triangulate_single_contour(contour: &ContourPath) -> (m: TerrainMeshData)
    requires
        contour.wf(),
        3 <= contour.points@.len() <= 0xffff,
    ensures
        contour_mesh_ok(*contour, m),
        m.wf(),
{
    let mut vertices: Vec<Pt3> = Vec::new();
    let mut indices: Vec<u16> = Vec::new();
    let mut normals: Vec<Pt3> = Vec::new();
    let mut uvs: Vec<Pt2> = Vec::new();
    triangulate_polygon(&contour.points, &mut vertices, &mut indices, &mut normals, &mut uvs);
    proof {
        assert(indices@.subrange(0, indices@.len() as int) =~= indices@);
        assert forall|j: int| 0 <= j < contour.points@.len() implies #[trigger] normals@[j] == (
        Pt3 { x: Fx { raw: 0 }, y: Fx { raw: 0 }, z: Fx { raw: FX_SCALE } }) by {
            assert(normals@[0 + j] == Pt3 {
                x: Fx { raw: 0 },
                y: Fx { raw: 0 },
                z: Fx { raw: FX_SCALE },
            });
        }
        assert forall|j: int| 0 <= j < contour.points@.len() implies #[trigger] uvs@[j] == uv_of(
            contour.points@[j],
            contour.points@,
        ) by {
            assert(uvs@[0 + j] == uv_of(contour.points@[j], contour.points@));
        }
        assert forall|j: int| 0 <= j < contour.points@.len() implies #[trigger] vertices@[j] == (
        Pt3 { x: contour.points@[j].x, y: contour.points@[j].y, z: Fx { raw: 0 } }) by {
            assert(vertices@[0 + j] == Pt3 {
                x: contour.points@[j].x,
                y: contour.points@[j].y,
                z: Fx { raw: 0 },
            });
        }
        assert(forall|k: int| 0 <= k < indices@.len() ==> (#[trigger] indices@[k]) < vertices@.len());
        assert(indices@.len() % 3 == 0) by {
            assert(indices@.len() == 3 * (contour.points@.len() - 2));
            let t = contour.points@.len() - 2;
            assert((3 * t) % 3 == 0) by (nonlinear_arith);
        }
    }
    TerrainMeshData { vertices, indices, normals, uvs }
}

/// The vertex buffers of a run of meshes, concatenated in order.
pub open spec fn vertices_cat(ms: Seq<TerrainMeshData>) -> Seq<Pt3>
    decreases ms.len(),
{
    if ms.len() == 0 {
        Seq::empty()
    } else {
        vertices_cat(ms.drop_last()) + ms.last().vertices@
    }
}

/// The normal buffers of a run of meshes, concatenated in order.
pub open spec fn normals_cat(ms: Seq<TerrainMeshData>) -> Seq<Pt3>
    decreases ms.len(),
{
    if ms.len() == 0 {
        Seq::empty()
    } else {
        normals_cat(ms.drop_last()) + ms.last().normals@
    }
}

/// The texture-coordinate buffers of a run of meshes, concatenated in order.
pub open spec fn uvs_cat(ms: Seq<TerrainMeshData>) -> Seq<Pt2>
    decreases ms.len(),
{
    if ms.len() == 0 {
        Seq::empty()
    } else {
        uvs_cat(ms.drop_last()) + ms.last().uvs@
    }
}

/// The index buffers of a run of meshes, each mesh's entries offset by the
/// number of vertices that precede it.
pub open spec fn indices_cat(ms: Seq<TerrainMeshData>) -> Seq<u16>
    decreases ms.len(),
{
    if ms.len() == 0 {
        Seq::empty()
    } else {
        indices_cat(ms.drop_last()) + ms.last().indices@.map_values(
            |x: u16| (x + vertices_cat(ms.drop_last()).len()) as u16,
        )
    }
}

/// A prefix of the run never holds more vertices than the whole.
proof fn lemma_vertices_cat_prefix(ms: Seq<TerrainMeshData>, i: int)
    requires
        0 <= i <= ms.len(),
    ensures
        vertices_cat(ms.subrange(0, i)).len() <= vertices_cat(ms).len(),
    decreases ms.len() - i,
{
    if i == ms.len() {
        assert(ms.subrange(0, i) =~= ms);
    } else {
        lemma_vertices_cat_prefix(ms, i + 1);
        assert(ms.subrange(0, i + 1).drop_last() =~= ms.subrange(0, i));
        assert(vertices_cat(ms.subrange(0, i + 1)) == vertices_cat(ms.subrange(0, i))
            + ms.subrange(0, i + 1).last().vertices@);
    }
}

/// Merges a run of meshes into one buffer set: vertices, normals and texture
/// coordinates are concatenated in order, and each mesh's indices are offset
/// by the number of vertices that came before it.
pub fn merge_mesh_data(meshes: Vec<TerrainMeshData>) -> (merged: TerrainMeshData)
    requires
        forall|i: int| 0 <= i < meshes@.len() ==> (#[trigger] meshes@[i]).wf(),
        vertices_cat(meshes@).len() <= 0xffff,
    ensures
        merged.wf(),
        merged.vertices@ == vertices_cat(meshes@),
        merged.normals@ == normals_cat(meshes@),
        merged.uvs@ == uvs_cat(meshes@),
        merged.indices@ == indices_cat(meshes@),
{
    let mut merged: TerrainMeshData = TerrainMeshData::empty();
    proof {
        assert(merged.vertices@ =~= vertices_cat(meshes@.subrange(0, 0)));
        assert(merged.normals@ =~= normals_cat(meshes@.subrange(0, 0)));
        assert(merged.uvs@ =~= uvs_cat(meshes@.subrange(0, 0)));
        assert(merged.indices@ =~= indices_cat(meshes@.subrange(0, 0)));
    }
    let mut i: usize = 0;
    while i < meshes.len()
        invariant
            forall|ii: int| 0 <= ii < meshes@.len() ==> (#[trigger] meshes@[ii]).wf(),
            vertices_cat(meshes@).len() <= 0xffff,
            i <= meshes@.len(),
            merged.vertices@ == vertices_cat(meshes@.subrange(0, i as int)),
            merged.normals@ == normals_cat(meshes@.subrange(0, i as int)),
            merged.uvs@ == uvs_cat(meshes@.subrange(0, i as int)),
            merged.indices@ == indices_cat(meshes@.subrange(0, i as int)),
            merged.normals@.len() == merged.vertices@.len(),
            merged.uvs@.len() == merged.vertices@.len(),
            merged.indices@.len() % 3 == 0,
            forall|k: int|
                0 <= k < merged.indices@.len() ==> (#[trigger] merged.indices@[k])
                    < merged.vertices@.len(),
        decreases meshes@.len() - i,
    {
        proof {
            lemma_vertices_cat_prefix(meshes@, i + 1);
            assert(meshes@.subrange(0, i + 1).drop_last() =~= meshes@.subrange(0, i as int));
            assert(meshes@.subrange(0, i + 1).last() == meshes@[i as int]);
        }
        let base: usize = merged.vertices.len();
        let ghost pre_verts = merged.vertices@;
        let ghost pre_normals = merged.normals@;
        let ghost pre_uvs = merged.uvs@;
        let ghost pre_indices = merged.indices@;
        let mesh_count: usize = meshes[i].vertices.len();
        proof {
            assert(vertices_cat(meshes@.subrange(0, i + 1)).len() == pre_verts.len()
                + mesh_count);
            assert(base + mesh_count <= 0xffff);
        }
        let mut k: usize = 0;
        while k < mesh_count
            invariant
                i < meshes@.len(),
                mesh_count == meshes@[i as int].vertices@.len(),
                k <= mesh_count,
                merged.vertices@ == pre_verts + meshes@[i as int].vertices@.subrange(0, k as int),
                merged.normals@ == pre_normals,
                merged.uvs@ == pre_uvs,
                merged.indices@ == pre_indices,
            decreases mesh_count - k,
        {
            let v: Pt3 = meshes[i].vertices[k];
            merged.vertices.push(v);
            proof {
                assert(merged.vertices@ =~= pre_verts + meshes@[i as int].vertices@.subrange(
                    0,
                    k + 1,
                ));
            }
            k = k + 1;
        }
        let normal_count: usize = meshes[i].normals.len();
        let mut k2: usize = 0;
        while k2 < normal_count
            invariant
                i < meshes@.len(),
                normal_count == meshes@[i as int].normals@.len(),
                k2 <= normal_count,
                merged.normals@ == pre_normals + meshes@[i as int].normals@.subrange(0, k2 as int),
                merged.vertices@ == pre_verts + meshes@[i as int].vertices@,
                merged.uvs@ == pre_uvs,
                merged.indices@ == pre_indices,
            decreases normal_count - k2,
        {
            let v: Pt3 = meshes[i].normals[k2];
            merged.normals.push(v);
            proof {
                assert(merged.normals@ =~= pre_normals + meshes@[i as int].normals@.subrange(
                    0,
                    k2 + 1,
                ));
            }
            k2 = k2 + 1;
        }
        let uv_count: usize = meshes[i].uvs.len();
        let mut k3: usize = 0;
        while k3 < uv_count
            invariant
                i < meshes@.len(),
                uv_count == meshes@[i as int].uvs@.len(),
                k3 <= uv_count,
                merged.uvs@ == pre_uvs + meshes@[i as int].uvs@.subrange(0, k3 as int),
                merged.vertices@ == pre_verts + meshes@[i as int].vertices@,
                merged.normals@ == pre_normals + meshes@[i as int].normals@,
                merged.indices@ == pre_indices,
            decreases uv_count - k3,
        {
            let v: Pt2 = meshes[i].uvs[k3];
            merged.uvs.push(v);
            proof {
                assert(merged.uvs@ =~= pre_uvs + meshes@[i as int].uvs@.subrange(0, k3 + 1));
            }
            k3 = k3 + 1;
        }
        let idx_count: usize = meshes[i].indices.len();
        let base16: u16 = base as u16;
        let ghost off = |x: u16| (x + pre_verts.len()) as u16;
        let mut k4: usize = 0;
        while k4 < idx_count
            invariant
                i < meshes@.len(),
                meshes@[i as int].wf(),
                idx_count == meshes@[i as int].indices@.len(),
                mesh_count == meshes@[i as int].vertices@.len(),
                base == pre_verts.len(),
                base + mesh_count <= 0xffff,
                base16 == base,
                off == (|x: u16| (x + pre_verts.len()) as u16),
                k4 <= idx_count,
                merged.indices@ == pre_indices + meshes@[i as int].indices@.subrange(
                    0,
                    k4 as int,
                ).map_values(off),
                merged.vertices@ == pre_verts + meshes@[i as int].vertices@,
                merged.normals@ == pre_normals + meshes@[i as int].normals@,
                merged.uvs@ == pre_uvs + meshes@[i as int].uvs@,
            decreases idx_count - k4,
        {
            let x: u16 = meshes[i].indices[k4];
            proof {
                assert(meshes@[i as int].indices@[k4 as int] < mesh_count);
            }
            merged.indices.push(x + base16);
            proof {
                assert(merged.indices@ =~= pre_indices + meshes@[i as int].indices@.subrange(
                    0,
                    k4 + 1,
                ).map_values(off));
            }
            k4 = k4 + 1;
        }
        proof {
            assert(meshes@[i as int].indices@.subrange(0, idx_count as int) =~= meshes@[i as int].indices@);
            assert(merged.vertices@ =~= vertices_cat(meshes@.subrange(0, i + 1)));
            assert(merged.normals@ =~= normals_cat(meshes@.subrange(0, i + 1)));
            assert(merged.uvs@ =~= uvs_cat(meshes@.subrange(0, i + 1)));
            assert(merged.indices@ =~= indices_cat(meshes@.subrange(0, i + 1)));
            assert(merged.indices@.len() % 3 == 0) by {
                assert(pre_indices.len() % 3 == 0);
                assert(meshes@[i as int].indices@.len() % 3 == 0);
            }
        }
        i = i + 1;
    }
    proof {
        assert(meshes@.subrange(0, meshes@.len() as int) =~= meshes@);
    }
    merged
}


/// The contours one triangulation pass takes, front to back: closed
/// contours of at least three points, skipping any whose points would push
/// the running vertex total past the sixteen-bit index space.
pub open spec fn tri_selected(contours: Seq<ContourPath>, used: int) -> Seq<ContourPath>
    decreases contours.len(),
{
    if contours.len() == 0 {
        Seq::empty()
    } else {
        let c = contours[0];
        if c.is_closed && 3 <= c.points@.len() && c.points@.len() <= 0xffff - used {
            seq![c] + tri_selected(contours.drop_first(), used + c.points@.len())
        } else {
            tri_selected(contours.drop_first(), used)
        }
    }
}

/// The mesh decomposes into per-contour meshes, one per selected contour
/// in order, concatenated with each sub-buffer's indices offset by the
/// running vertex count.
pub open spec fn mesh_decomp(contours: Seq<ContourPath>, mesh: TerrainMeshData) -> bool {
    exists|ms: Seq<TerrainMeshData>|
        {
            let sel = tri_selected(contours, 0);
            &&& ms.len() == sel.len()
            &&& (forall|i: int| 0 <= i < sel.len() ==> contour_mesh_ok(sel[i], #[trigger] ms[i]))
            &&& mesh.vertices@ == #[trigger] vertices_cat(ms)
            &&& mesh.normals@ == normals_cat(ms)
            &&& mesh.uvs@ == uvs_cat(ms)
            &&& mesh.indices@ == indices_cat(ms)
        }
}

/// Triangulates every selected contour and merges the per-contour buffers
/// into one mesh, offsetting each sub-buffer's indices by the running
/// vertex count.
pub fn triangulate_contours(contours: &Vec<ContourPath>) -> (mesh: TerrainMeshData)
    requires
        forall|p: int| 0 <= p < contours@.len() ==> (#[trigger] contours@[p]).wf(),
    ensures
        mesh.wf(),
        mesh_decomp(contours@, mesh),
{
    let mut meshes: Vec<TerrainMeshData> = Vec::new();
    let ghost whole = contours@;
    let mut sel_done: Ghost<Seq<ContourPath>> = Ghost(Seq::empty());
    let mut total: usize = 0;
    let mut i: usize = 0;
    proof {
        assert(whole.subrange(0, whole.len() as int) =~= whole);
    }
    while i < contours.len()
        invariant
            whole == contours@,
            forall|p: int| 0 <= p < contours@.len() ==> (#[trigger] contours@[p]).wf(),
            i <= contours@.len(),
            meshes@.len() == sel_done@.len(),
            forall|k: int|
                0 <= k < sel_done@.len() ==> contour_mesh_ok(sel_done@[k], #[trigger] meshes@[k]),
            total == vertices_cat(meshes@).len(),
            total <= 0xffff,
            tri_selected(whole, 0) == sel_done@ + tri_selected(
                whole.subrange(i as int, whole.len() as int),
                total as int,
            ),
        decreases contours@.len() - i,
    {
        let ghost suffix = whole.subrange(i as int, whole.len() as int);
        proof {
            assert(suffix[0] == whole[i as int]);
            assert(suffix.drop_first() =~= whole.subrange(i + 1, whole.len() as int));
        }
        let c: &ContourPath = &contours[i];
        if c.is_closed && c.points.len() >= 3 && c.points.len() <= 0xffff - total {
            let m: TerrainMeshData = triangulate_single_contour(c);
            let ghost prev = meshes@;
            total = total + m.vertices.len();
            meshes.push(m);
            proof {
                assert(meshes@.drop_last() =~= prev);
            }
            sel_done = Ghost(sel_done@ + seq![whole[i as int]]);
            proof {
                assert(tri_selected(whole, 0) == sel_done@ + tri_selected(
                    whole.subrange(i + 1, whole.len() as int),
                    total as int,
                )) by {
                    assert(tri_selected(suffix, vertices_cat(prev).len() as int) == seq![
                        whole[i as int],
                    ] + tri_selected(suffix.drop_first(), total as int));
                    assert((sel_done@.drop_last() + tri_selected(suffix, vertices_cat(prev).len() as int))
                        =~= sel_done@ + tri_selected(
                        whole.subrange(i + 1, whole.len() as int),
                        total as int,
                    ));
                }
            }
        } else {
            proof {
                assert(tri_selected(suffix, total as int) == tri_selected(
                    suffix.drop_first(),
                    total as int,
                ));
            }
        }
        i = i + 1;
    }
    proof {
        assert(whole.subrange(whole.len() as int, whole.len() as int) =~= Seq::<
            ContourPath,
        >::empty());
        assert(tri_selected(whole, 0) =~= sel_done@);
    }
    let mesh: TerrainMeshData = merge_mesh_data(meshes);
    proof {
        assert({
            let sel = tri_selected(contours@, 0);
            &&& meshes@.len() == sel.len()
            &&& (forall|k: int|
                0 <= k < sel.len() ==> contour_mesh_ok(sel[k], #[trigger] meshes@[k]))
            &&& mesh.vertices@ == vertices_cat(meshes@)
            &&& mesh.normals@ == normals_cat(meshes@)
            &&& mesh.uvs@ == uvs_cat(meshes@)
            &&& mesh.indices@ == indices_cat(meshes@)
        });
    }
    mesh
}

} // verus!
