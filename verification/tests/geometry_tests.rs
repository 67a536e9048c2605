//! Interpolation, marching kernels, assembly, smoothing, triangulation and
//! mesh merging.

use hexterra::assemble::connect_segments_to_contours;
use hexterra::contour::{marching_square_cell, marching_triangle, Segment};
use hexterra::fixed::Fx;
use hexterra::geom::{interpolate_edge, Pt2, Pt3};
use hexterra::mesh::{merge_mesh_data, point_in_triangle, triangulate_single_contour, TerrainMeshData};
use hexterra::path::ContourPath;
use hexterra::spline::{catmull_rom, smooth_contour_with_splines};

fn fx(raw: i64) -> Fx {
    Fx { raw }
}

fn pt(x: i64, y: i64) -> Pt2 {
    Pt2 { x: fx(x), y: fx(y) }
}

#[test]
fn interpolation_crosses_at_half() {
    // Values 0.2 and 0.8 with threshold 0.5 on the edge from (0,0) to
    // (1,0): the crossing must be exactly (0.5, 0).
    let r = interpolate_edge(pt(0, 0), pt(1_000_000, 0), fx(200_000), fx(800_000), fx(500_000));
    assert_eq!(r.x.raw, 500_000);
    assert_eq!(r.y.raw, 0);
}

#[test]
fn interpolation_clamps_out_of_range() {
    // A threshold below both values clamps to the edge start.
    let r = interpolate_edge(pt(0, 0), pt(1_000_000, 0), fx(600_000), fx(800_000), fx(500_000));
    assert_eq!(r.x.raw, 0);
    // A threshold above both values clamps to the edge end.
    let r = interpolate_edge(pt(0, 0), pt(1_000_000, 0), fx(100_000), fx(400_000), fx(500_000));
    assert_eq!(r.x.raw, 1_000_000);
}

#[test]
fn marching_triangle_uniform_emits_nothing() {
    let th = fx(500_000);
    let a = pt(0, 0);
    let b = pt(1_000_000, 0);
    let c = pt(0, 1_000_000);
    assert!(marching_triangle(a, b, c, fx(100_000), fx(200_000), fx(300_000), th).is_none());
    assert!(marching_triangle(a, b, c, fx(900_000), fx(800_000), fx(700_000), th).is_none());
}

#[test]
fn marching_triangle_mixed_emits_crossing_segment() {
    // Only the first corner is land: the segment crosses the two edges at
    // their midpoints.
    let th = fx(500_000);
    let a = pt(0, 0);
    let b = pt(1_000_000, 0);
    let c = pt(0, 1_000_000);
    let out = marching_triangle(a, b, c, fx(1_000_000), fx(0), fx(0), th).unwrap();
    assert_eq!(out.points.len(), 2);
    assert!(!out.is_closed);
    assert_eq!(out.points[0], pt(500_000, 0));
    assert_eq!(out.points[1], pt(0, 500_000));
}

#[test]
fn marching_squares_saddle_emits_both_diagonals() {
    // Corners 0 and 2 are land (pattern five): both diagonal segments come
    // out instead of one.
    let th = fx(500_000);
    let corners = [fx(1_000_000), fx(0), fx(1_000_000), fx(0)];
    let segs = marching_square_cell(pt(0, 0), fx(1_000_000), fx(1_000_000), &corners, th).unwrap();
    assert_eq!(segs.len(), 2);
}

#[test]
fn marching_squares_single_corner() {
    let th = fx(500_000);
    let corners = [fx(1_000_000), fx(0), fx(0), fx(0)];
    let segs = marching_square_cell(pt(0, 0), fx(1_000_000), fx(1_000_000), &corners, th).unwrap();
    assert_eq!(segs.len(), 1);
    assert_eq!(segs[0].a, pt(0, 500_000));
    assert_eq!(segs[0].b, pt(500_000, 0));
}

#[test]
fn marching_squares_uniform_emits_nothing() {
    let th = fx(500_000);
    let corners = [fx(0), fx(0), fx(0), fx(0)];
    assert!(marching_square_cell(pt(0, 0), fx(1_000_000), fx(1_000_000), &corners, th).is_none());
}

#[test]
fn segments_chain_into_one_open_path() {
    let segs = vec![
        Segment { a: pt(0, 0), b: pt(1_000_000, 0) },
        Segment { a: pt(1_000_000, 0), b: pt(2_000_000, 0) },
        Segment { a: pt(2_000_000, 0), b: pt(3_000_000, 0) },
    ];
    let paths = connect_segments_to_contours(&segs, fx(1_000));
    assert_eq!(paths.len(), 1);
    assert!(!paths[0].is_closed);
    assert_eq!(paths[0].points.len(), 4);
    assert_eq!(paths[0].points[0], pt(0, 0));
    assert_eq!(paths[0].points[3], pt(3_000_000, 0));
}

#[test]
fn segments_close_into_a_square() {
    let s = 1_000_000;
    let segs = vec![
        Segment { a: pt(0, 0), b: pt(s, 0) },
        Segment { a: pt(s, 0), b: pt(s, s) },
        Segment { a: pt(s, s), b: pt(0, s) },
        Segment { a: pt(0, s), b: pt(0, 0) },
    ];
    let paths = connect_segments_to_contours(&segs, fx(1_000));
    assert_eq!(paths.len(), 1);
    assert!(paths[0].is_closed);
    assert_eq!(paths[0].points.len(), 4);
}

#[test]
fn catmull_rom_at_zero_is_the_second_control() {
    let r = catmull_rom(pt(0, 0), pt(1_000_000, 0), pt(2_000_000, 0), pt(3_000_000, 0), fx(0), fx(500_000));
    assert_eq!(r, pt(1_000_000, 0));
}

#[test]
fn catmull_rom_interpolates_a_straight_run_linearly() {
    // Equally spaced collinear controls collapse the cubic to the line.
    let r = catmull_rom(
        pt(0, 0),
        pt(1_000_000, 0),
        pt(2_000_000, 0),
        pt(3_000_000, 0),
        fx(500_000),
        fx(500_000),
    );
    assert_eq!(r, pt(1_500_000, 0));
}

fn shoelace2(points: &[Pt2]) -> i128 {
    let n = points.len();
    let mut sum: i128 = 0;
    for i in 0..n {
        let a = points[i];
        let b = points[(i + 1) % n];
        sum += (a.x.raw as i128) * (b.y.raw as i128) - (a.y.raw as i128) * (b.x.raw as i128);
    }
    sum
}

fn mesh_tri_area2(m: &TerrainMeshData) -> i128 {
    let mut sum: i128 = 0;
    let mut k = 0;
    while k + 3 <= m.indices.len() {
        let a = m.vertices[m.indices[k] as usize];
        let b = m.vertices[m.indices[k + 1] as usize];
        let c = m.vertices[m.indices[k + 2] as usize];
        sum += (b.x.raw as i128 - a.x.raw as i128) * (c.y.raw as i128 - a.y.raw as i128)
            - (c.x.raw as i128 - a.x.raw as i128) * (b.y.raw as i128 - a.y.raw as i128);
        k += 3;
    }
    sum
}

#[test]
fn ear_clipping_covers_a_convex_hexagon() {
    // A convex polygon of six points yields exactly four triangles whose
    // signed areas sum to the polygon's.
    let s = 1_000_000i64;
    let points = vec![
        pt(2 * s, 0),
        pt(s, 2 * s),
        pt(-s, 2 * s),
        pt(-2 * s, 0),
        pt(-s, -2 * s),
        pt(s, -2 * s),
    ];
    let contour = ContourPath { points: points.clone(), is_closed: true };
    let mesh = triangulate_single_contour(&contour);
    assert_eq!(mesh.vertices.len(), 6);
    assert_eq!(mesh.indices.len(), 3 * (6 - 2));
    assert_eq!(mesh_tri_area2(&mesh), shoelace2(&points));
}

#[test]
fn ear_clipping_square_has_two_triangles() {
    let s = 1_000_000i64;
    let points = vec![pt(0, 0), pt(s, 0), pt(s, s), pt(0, s)];
    let contour = ContourPath { points: points.clone(), is_closed: true };
    let mesh = triangulate_single_contour(&contour);
    assert_eq!(mesh.indices.len(), 6);
    assert_eq!(mesh_tri_area2(&mesh), shoelace2(&points));
    // The square's doubled area is two square units.
    assert_eq!(shoelace2(&points), 2 * (s as i128) * (s as i128));
    assert_eq!(mesh.normals.len(), 4);
    assert_eq!(mesh.uvs.len(), 4);
    // Texture coordinates normalize the bounding box.
    assert_eq!(mesh.uvs[0], pt(0, 0));
    assert_eq!(mesh.uvs[2], pt(1_000_000, 1_000_000));
}

#[test]
fn merge_offsets_second_buffer_by_first_vertex_count() {
    // Merging buffers of four and six vertices must offset the second
    // buffer's indices by exactly four and keep both vertex runs in order.
    let s = 1_000_000i64;
    let quad = ContourPath {
        points: vec![pt(0, 0), pt(s, 0), pt(s, s), pt(0, s)],
        is_closed: true,
    };
    let hexagon = ContourPath {
        points: vec![
            pt(2 * s, 0),
            pt(s, 2 * s),
            pt(-s, 2 * s),
            pt(-2 * s, 0),
            pt(-s, -2 * s),
            pt(s, -2 * s),
        ],
        is_closed: true,
    };
    let m1 = triangulate_single_contour(&quad);
    let m2 = triangulate_single_contour(&hexagon);
    assert_eq!(m1.vertices.len(), 4);
    assert_eq!(m2.vertices.len(), 6);
    let i1 = m1.indices.clone();
    let i2 = m2.indices.clone();
    let v1: Vec<Pt3> = m1.vertices.clone();
    let v2: Vec<Pt3> = m2.vertices.clone();
    let merged = merge_mesh_data(vec![m1, m2]);
    assert_eq!(merged.vertices.len(), 10);
    assert_eq!(&merged.vertices[0..4], &v1[..]);
    assert_eq!(&merged.vertices[4..10], &v2[..]);
    assert_eq!(&merged.indices[0..i1.len()], &i1[..]);
    for (k, idx) in i2.iter().enumerate() {
        assert_eq!(merged.indices[i1.len() + k], idx + 4);
    }
    assert_eq!(merged.normals.len(), 10);
    assert_eq!(merged.uvs.len(), 10);
}

#[test]
fn smoothing_clamps_open_paths_at_their_ends() {
    // A straight open run: with edge-clamped neighborhoods the midpoint of
    // the first spline piece lands at 0.4375 units, not at the 0.25 the
    // cyclic wrap would give.
    let open_run = ContourPath {
        points: vec![pt(0, 0), pt(1_000_000, 0), pt(2_000_000, 0), pt(3_000_000, 0)],
        is_closed: false,
    };
    let smoothed = smooth_contour_with_splines(&open_run, fx(500_000));
    assert!(!smoothed.is_closed);
    assert_eq!(smoothed.points.len(), 40);
    assert_eq!(smoothed.points[0], pt(0, 0));
    assert_eq!(smoothed.points[5], pt(437_500, 0));

    let closed_run = ContourPath {
        points: vec![pt(0, 0), pt(1_000_000, 0), pt(2_000_000, 0), pt(3_000_000, 0)],
        is_closed: true,
    };
    let smoothed = smooth_contour_with_splines(&closed_run, fx(500_000));
    assert!(smoothed.is_closed);
    assert_eq!(smoothed.points[5], pt(250_000, 0));
}

#[test]
fn point_in_triangle_ignores_winding() {
    let s = 1_000_000i64;
    let inside = pt(s / 2, s / 4);
    let outside = pt(3 * s, 3 * s);
    // Counter-clockwise corners, then the same triangle clockwise.
    assert!(point_in_triangle(inside, pt(0, 0), pt(2 * s, 0), pt(0, 2 * s)));
    assert!(point_in_triangle(inside, pt(0, 0), pt(0, 2 * s), pt(2 * s, 0)));
    assert!(!point_in_triangle(outside, pt(0, 0), pt(2 * s, 0), pt(0, 2 * s)));
    assert!(!point_in_triangle(outside, pt(0, 0), pt(0, 2 * s), pt(2 * s, 0)));
}

#[test]
fn connect_consumes_every_segment_once() {
    // Two separate chains: three segments and one lone segment; all four
    // are consumed, the lone one as a two-point open path.
    let far = 10_000_000;
    let segs = vec![
        Segment { a: pt(0, 0), b: pt(1_000_000, 0) },
        Segment { a: pt(1_000_000, 0), b: pt(2_000_000, 0) },
        Segment { a: pt(far, far), b: pt(far + 1_000_000, far) },
        Segment { a: pt(2_000_000, 0), b: pt(3_000_000, 0) },
    ];
    let paths = connect_segments_to_contours(&segs, fx(1_000));
    assert_eq!(paths.len(), 2);
    let consumed: usize = paths
        .iter()
        .map(|p| p.points.len() - 1 + if p.is_closed { 1 } else { 0 })
        .sum();
    assert_eq!(consumed, segs.len());
}
