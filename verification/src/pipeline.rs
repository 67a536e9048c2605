//! The staged generation pipeline: a low-resolution sampling and contour
//! pass, an upscale pass, and a final triangulation pass, each publishing
//! its progress.  The stages run sequentially here; a collaborator may run
//! the whole pipeline off its interactive thread and poll the progress.

use vstd::prelude::*;
use crate::assemble::from_endpoints;
use crate::contour::Segment;
use crate::fixed::{fx_div_spec, Fx, FX_SCALE};
use crate::geom::{pt_wf, Pt2};
use crate::hex::{abs_val, HexCoord};
use crate::mesh::{merge_mesh_data, triangulate_single_contour, vertices_cat, TerrainMeshData};
use crate::path::ContourPath;
use crate::assemble::connect_rel;
use crate::sampler::{
    cell_segments_upto, cell_tri_segment, disk_samples, sample_is_border, sample_segments,
    sample_segments_upto, segs_in_range, tri_vertex, OrganicContourSystem, SAMPLE_RADIUS_LIMIT,
    VERTEX_POS_LIMIT,
};
use crate::spline::{apply_catmull_rom_smoothing, spline_pt_wf, SPLINE_LIMIT};

verus! {

/// The stages of a generation pass, in order.
#[derive(Clone, Copy, PartialEq, Eq, Structural, Debug)]
pub enum GenerationStage {
    Idle,
    LoadingImage,
    SamplingTerrain,
    GeneratingContours,
    SmoothingContours,
    TriangulatingMesh,
    Complete,
}

/// The most recent known state of a generation pass: stage, completed
/// fraction, and a human-readable message.
pub struct TerrainGenerationProgress {
    pub stage: GenerationStage,
    pub progress: Fx,
    pub message: String,
}

impl TerrainGenerationProgress {
    /// A fresh, idle progress record.
    pub fn new() -> (p: TerrainGenerationProgress)
        ensures
            p.stage == GenerationStage::Idle,
            p.progress.raw == 0,
    {
        TerrainGenerationProgress {
            stage: GenerationStage::Idle,
            progress: Fx { raw: 0 },
            message: String::new(),
        }
    }
}

/// Copies a new stage, fraction and message into the progress record.
pub fn update_progress(
    progress: &mut TerrainGenerationProgress,
    stage: GenerationStage,
    value: Fx,
    message: String,
)
    ensures
        final(progress).stage == stage,
        final(progress).progress == value,
        final(progress).message@ == message@,
{
    progress.stage = stage;
    progress.progress = value;
    progress.message = message;
}

/// Tuning of the staged pipeline: the resolution reduction of the first
/// pass, whether the upscale pass smooths, and the work-count threshold
/// over which a collaborator may parallelize a stage.
pub struct TerrainSettings {
    pub low_res_scale: Fx,
    pub upscale_smoothing: bool,
    pub parallel_threshold: usize,
}

impl TerrainSettings {
    /// A usable resolution reduction: between one quarter and one.
    pub open spec fn wf(self) -> bool {
        250_000 <= self.low_res_scale.raw <= FX_SCALE
    }
}

impl Default for TerrainSettings {
    /// A quarter of the full resolution, smoothing on, and parallelism
    /// from one hundred work items up.
    fn default() -> (s: TerrainSettings)
        ensures
            s.low_res_scale.raw == 250_000,
            s.upscale_smoothing == true,
            s.parallel_threshold == 100,
            s.wf(),
    {
        TerrainSettings {
            low_res_scale: Fx { raw: 250_000 },
            upscale_smoothing: true,
            parallel_threshold: 100,
        }
    }
}

/// Every point of every path lies within the given raw magnitude.
pub open spec fn paths_within(paths: Seq<ContourPath>, limit: int) -> bool {
    forall|p: int, k: int|
        0 <= p < paths.len() && 0 <= k < paths[p].points@.len() ==> -limit <= (
        #[trigger] paths[p].points@[k]).x.raw <= limit && -limit <= paths[p].points@[k].y.raw
            <= limit
}

/// Extracts and assembles boundary contours from per-cell samples: each
/// sampled cell whose neighbor votes disagree is marched as six dual
/// triangles, and the emitted segments are stitched into paths.  The paths
/// come back unsmoothed, ready for the upscale pass.
pub fn generate_contours_from_samples(
    system: &OrganicContourSystem,
    samples: &Vec<(HexCoord, Fx)>,
) -> (out: Vec<ContourPath>)
    requires
        system.wf(),
        forall|i: int|
            0 <= i < samples@.len() ==> -(SAMPLE_RADIUS_LIMIT as int) <= (
            #[trigger] samples@[i]).0.q <= SAMPLE_RADIUS_LIMIT && -(SAMPLE_RADIUS_LIMIT as int)
                <= samples@[i].0.r <= SAMPLE_RADIUS_LIMIT,
    ensures
        connect_rel(
            sample_segments(
                system.binary_map,
                system.hex_layout,
                system.config,
                system.noise_seed,
                samples@,
            ),
            out@,
            1_000,
        ),
        forall|p: int| 0 <= p < out@.len() ==> (#[trigger] out@[p]).wf(),
        paths_within(out@, VERTEX_POS_LIMIT as int),
{
    let mut segments: Vec<Segment> = Vec::new();
    let mut i: usize = 0;
    while i < samples.len()
        invariant
            system.wf(),
            forall|k: int|
                0 <= k < samples@.len() ==> -(SAMPLE_RADIUS_LIMIT as int) <= (
                #[trigger] samples@[k]).0.q <= SAMPLE_RADIUS_LIMIT && -(
                SAMPLE_RADIUS_LIMIT as int) <= samples@[k].0.r <= SAMPLE_RADIUS_LIMIT,
            i <= samples@.len(),
            segs_in_range(segments@),
            segments@ == sample_segments_upto(
                system.binary_map,
                system.hex_layout,
                system.config,
                system.noise_seed,
                samples@,
                i as int,
            ),
        decreases samples@.len() - i,
    {
        let (hex, sample_value): (HexCoord, Fx) = samples[i];
        let (_, is_border): (crate::terrain::TerrainType, bool) = system.determine_terrain_type(
            hex,
            sample_value,
        );
        proof {
            assert(is_border == sample_is_border(
                system.binary_map,
                system.hex_layout,
                system.config,
                hex,
            ));
        }
        if is_border {
            let triangles: Vec<crate::triangle::Triangle> = system.hex_to_triangular_dual(hex);
            let mut t: usize = 0;
            while t < triangles.len()
                invariant
                    system.wf(),
                    i < samples@.len(),
                    hex == samples@[i as int].0,
                    triangles@.len() == 6,
                    forall|kk: int, v: int|
                        0 <= kk < 6 && 0 <= v < 3 ==> crate::sampler::vertex_pos_wf(
                            #[trigger] triangles@[kk].vertices[v],
                        ),
                    forall|kk: int, v: int|
                        0 <= kk < 6 && 0 <= v < 3 ==> #[trigger] triangles@[kk].vertices[v]
                            == tri_vertex(system.hex_layout, hex, kk, v),
                    t <= 6,
                    segs_in_range(segments@),
                    segments@ == sample_segments_upto(
                        system.binary_map,
                        system.hex_layout,
                        system.config,
                        system.noise_seed,
                        samples@,
                        i as int,
                    ) + cell_segments_upto(
                        system.binary_map,
                        system.hex_layout,
                        system.config,
                        system.noise_seed,
                        hex,
                        t as int,
                    ),
                decreases 6 - t,
            {
                let contour: Option<ContourPath> = system.generate_triangle_contour(
                    &triangles[t],
                );
                proof {
                    assert(triangles@[t as int].vertices[0] == tri_vertex(
                        system.hex_layout,
                        hex,
                        t as int,
                        0,
                    ));
                    assert(triangles@[t as int].vertices[1] == tri_vertex(
                        system.hex_layout,
                        hex,
                        t as int,
                        1,
                    ));
                    assert(triangles@[t as int].vertices[2] == tri_vertex(
                        system.hex_layout,
                        hex,
                        t as int,
                        2,
                    ));
                    assert(tri_vertex(system.hex_layout, hex, t as int, 0) == tri_vertex(
                        system.hex_layout,
                        hex,
                        0,
                        0,
                    ));
                }
                match contour {
                    Some(c) => {
                        let a: Pt2 = c.points[0];
                        let b: Pt2 = c.points[1];
                        proof {
                            assert(cell_tri_segment(
                                system.binary_map,
                                system.hex_layout,
                                system.config,
                                system.noise_seed,
                                hex,
                                t as int,
                            ) == Some(Segment { a, b }));
                        }
                        segments.push(Segment { a, b });
                        proof {
                            assert(segments@ =~= sample_segments_upto(
                                system.binary_map,
                                system.hex_layout,
                                system.config,
                                system.noise_seed,
                                samples@,
                                i as int,
                            ) + cell_segments_upto(
                                system.binary_map,
                                system.hex_layout,
                                system.config,
                                system.noise_seed,
                                hex,
                                t + 1,
                            ));
                        }
                    },
                    None => {
                        proof {
                            assert(cell_tri_segment(
                                system.binary_map,
                                system.hex_layout,
                                system.config,
                                system.noise_seed,
                                hex,
                                t as int,
                            ) is None);
                            assert(segments@ =~= sample_segments_upto(
                                system.binary_map,
                                system.hex_layout,
                                system.config,
                                system.noise_seed,
                                samples@,
                                i as int,
                            ) + cell_segments_upto(
                                system.binary_map,
                                system.hex_layout,
                                system.config,
                                system.noise_seed,
                                hex,
                                t + 1,
                            ));
                        }
                    },
                }
                t = t + 1;
            }
            proof {
                assert(segments@ =~= sample_segments_upto(
                    system.binary_map,
                    system.hex_layout,
                    system.config,
                    system.noise_seed,
                    samples@,
                    i + 1,
                ));
            }
        } else {
            proof {
                assert(segments@ =~= sample_segments_upto(
                    system.binary_map,
                    system.hex_layout,
                    system.config,
                    system.noise_seed,
                    samples@,
                    i + 1,
                ));
            }
        }
        i = i + 1;
    }
    proof {
        assert forall|j: int| 0 <= j < segments@.len() implies crate::contour::seg_wf(
            #[trigger] segments@[j],
        ) by {
            assert(segments@[j].a.x.raw <= VERTEX_POS_LIMIT);
        }
    }
    let out: Vec<ContourPath> = crate::assemble::connect_segments_to_contours(
        &segments,
        Fx { raw: 1_000 },
    );
    proof {
        assert forall|p: int, k: int|
            0 <= p < out@.len() && 0 <= k < out@[p].points@.len() implies -(
        VERTEX_POS_LIMIT as int) <= (#[trigger] out@[p].points@[k]).x.raw <= VERTEX_POS_LIMIT
            && -(VERTEX_POS_LIMIT as int) <= out@[p].points@[k].y.raw <= VERTEX_POS_LIMIT by {
            assert(crate::assemble::from_endpoints(out@[p].points@[k], segments@));
            let j = choose|j: int|
                0 <= j < segments@.len() && ((#[trigger] segments@[j]).a == out@[p].points@[k]
                    || segments@[j].b == out@[p].points@[k]);
            assert(segments@[j].a.x.raw <= VERTEX_POS_LIMIT);
        }
    }
    out
}

/// The low-resolution pass: samples every cell within the radius and
/// extracts the assembled (unsmoothed) contours.
pub fn generate_low_resolution(system: &OrganicContourSystem, hex_radius: u32) -> (out: Vec<
    ContourPath,
>)
    requires
        system.wf(),
        hex_radius <= SAMPLE_RADIUS_LIMIT,
    ensures
        connect_rel(
            sample_segments(
                system.binary_map,
                system.hex_layout,
                system.config,
                system.noise_seed,
                disk_samples(
                    system.binary_map,
                    system.hex_layout,
                    system.config,
                    hex_radius as int,
                ),
            ),
            out@,
            1_000,
        ),
        forall|p: int| 0 <= p < out@.len() ==> (#[trigger] out@[p]).wf(),
        paths_within(out@, VERTEX_POS_LIMIT as int),
{
    let origin: HexCoord = HexCoord { q: 0, r: 0 };
    let coords: Vec<HexCoord> = origin.range(hex_radius);
    proof {
        assert forall|k: int| 0 <= k < coords@.len() implies -(SAMPLE_RADIUS_LIMIT as int) <= (
        #[trigger] coords@[k]).q <= SAMPLE_RADIUS_LIMIT && -(SAMPLE_RADIUS_LIMIT as int)
            <= coords@[k].r <= SAMPLE_RADIUS_LIMIT by {
            crate::hex::lemma_range_contains(origin, hex_radius as int, coords@[k]);
            assert(crate::hex::range_seq(origin, hex_radius as int).contains(coords@[k]));
            assert(crate::hex::hex_dist(origin, coords@[k]) <= hex_radius);
        }
    }
    let mut samples: Vec<(HexCoord, Fx)> = Vec::new();
    let mut i: usize = 0;
    while i < coords.len()
        invariant
            system.wf(),
            forall|k: int|
                0 <= k < coords@.len() ==> -(SAMPLE_RADIUS_LIMIT as int) <= (
                #[trigger] coords@[k]).q <= SAMPLE_RADIUS_LIMIT && -(SAMPLE_RADIUS_LIMIT as int)
                    <= coords@[k].r <= SAMPLE_RADIUS_LIMIT,
            i <= coords@.len(),
            samples@.len() == i as int,
            forall|k: int|
                0 <= k < i ==> -(SAMPLE_RADIUS_LIMIT as int) <= (#[trigger] samples@[k]).0.q
                    <= SAMPLE_RADIUS_LIMIT && -(SAMPLE_RADIUS_LIMIT as int) <= samples@[k].0.r
                    <= SAMPLE_RADIUS_LIMIT,
            forall|k: int|
                0 <= k < i ==> #[trigger] samples@[k] == (
                    coords@[k],
                    Fx {
                        raw: crate::sampler::sample_hex_spec(
                            system.binary_map,
                            system.hex_layout,
                            system.config,
                            coords@[k],
                        ) as i64,
                    },
                ),
        decreases coords@.len() - i,
    {
        let h: HexCoord = coords[i];
        let v: Fx = system.sample_binary_map(h);
        samples.push((h, v));
        i = i + 1;
    }
    proof {
        assert(samples@ =~= disk_samples(
            system.binary_map,
            system.hex_layout,
            system.config,
            hex_radius as int,
        ));
    }
    generate_contours_from_samples(system, &samples)
}

/// One point divided by the resolution reduction factor.
pub open spec fn scaled_pt(p: Pt2, sf: int) -> Pt2 {
    Pt2 {
        x: Fx { raw: fx_div_spec(p.x.raw as int, sf) as i64 },
        y: Fx { raw: fx_div_spec(p.y.raw as int, sf) as i64 },
    }
}

/// A path's points divided pointwise by the factor.
pub open spec fn scaled_points(points: Seq<Pt2>, sf: int) -> Seq<Pt2> {
    points.map_values(|p: Pt2| scaled_pt(p, sf))
}

/// Subdivision `sub` of edge `j` of the subdivided upscale: a quarter-step
/// blend of the scaled edge ends, shifted by a small deterministic wobble.
pub open spec fn upscale_sub_pt(points: Seq<Pt2>, sf: int, path_idx: int, j: int, sub: int) -> Pt2 {
    let p1 = scaled_pt(points[j], sf);
    let p2 = scaled_pt(points[j + 1], sf);
    let t = sub * 250_000;
    let m = (path_idx * 1_000 + sub * 10) % 1_000;
    let w = m * 100 - 50_000;
    Pt2 {
        x: Fx { raw: (p1.x.raw + crate::fixed::fx_mul_spec(p2.x.raw - p1.x.raw, t) + w) as i64 },
        y: Fx { raw: (p1.y.raw + crate::fixed::fx_mul_spec(p2.y.raw - p1.y.raw, t) + w) as i64 },
    }
}

/// The subdivided upscale of one path: four blended samples per edge, then
/// the scaled last point.
pub open spec fn upscaled_points(points: Seq<Pt2>, sf: int, path_idx: int) -> Seq<Pt2> {
    if points.len() == 0 {
        Seq::empty()
    } else {
        Seq::new(
            ((points.len() - 1) * 4 + 1) as nat,
            |k: int|
                if k == (points.len() - 1) * 4 {
                    scaled_pt(points[points.len() - 1], sf)
                } else {
                    upscale_sub_pt(points, sf, path_idx, k / 4, k % 4)
                },
        )
    }
}

/// One path smoothed with five Catmull-Rom subdivisions at a tension of one
/// half; paths of fewer than four points, or over the size cap, pass
/// through unchanged.
pub open spec fn smooth5_of(c: ContourPath, o: ContourPath) -> bool {
    &&& o.is_closed == c.is_closed
    &&& (if c.points@.len() < 4 || c.points@.len() > 100_000_000 {
        o.points@ == c.points@
    } else {
        o.points@ == crate::spline::smoothed_seq(c.points@, 500_000, 5, c.is_closed)
    })
}

/// A run of paths smoothed elementwise with five subdivisions.
pub open spec fn smooth5_rel(cs: Seq<ContourPath>, os: Seq<ContourPath>) -> bool {
    os.len() == cs.len() && (forall|p: int| 0 <= p < cs.len() ==> smooth5_of(cs[p], #[trigger] os[p]))
}

/// The whole upscale pass: every path keeps its closed flag; with the
/// smoothing flag off each point is divided by the factor, and with it on
/// each edge is subdivided in four with the wobble and the result smoothed.
pub open spec fn upscale_rel(cs: Seq<ContourPath>, sf: int, smooth: bool, os: Seq<ContourPath>) -> bool {
    &&& os.len() == cs.len()
    &&& (forall|i: int| 0 <= i < cs.len() ==> (#[trigger] os[i]).is_closed == cs[i].is_closed)
    &&& (if !smooth {
        forall|i: int| 0 <= i < cs.len() ==> (#[trigger] os[i]).points@ == scaled_points(cs[i].points@, sf)
    } else {
        exists|mid: Seq<ContourPath>|
            {
                &&& mid.len() == cs.len()
                &&& (forall|i: int|
                    0 <= i < cs.len() ==> (#[trigger] mid[i]).is_closed == cs[i].is_closed
                        && mid[i].points@ == upscaled_points(cs[i].points@, sf, i))
                &&& smooth5_rel(mid, os)
            }
    })
}

/// The upscale pass: divides every contour point by the resolution
/// reduction factor, optionally subdividing each edge in four with a small
/// deterministic perturbation and then smoothing every path.
pub fn upscale_terrain_data(
    low_res_contours: &Vec<ContourPath>,
    scale_factor: Fx,
    smooth: bool,
) -> (out: Vec<ContourPath>)
    requires
        250_000 <= scale_factor.raw <= FX_SCALE,
        low_res_contours@.len() <= 1_000_000_000,
        forall|p: int| 0 <= p < low_res_contours@.len() ==> (#[trigger] low_res_contours@[p]).wf(),
        paths_within(low_res_contours@, VERTEX_POS_LIMIT as int),
    ensures
        upscale_rel(low_res_contours@, scale_factor.raw as int, smooth, out@),
        out@.len() == low_res_contours@.len(),
        forall|p: int| 0 <= p < out@.len() ==> (#[trigger] out@[p]).wf(),
        forall|p: int|
            0 <= p < out@.len() ==> (#[trigger] out@[p]).is_closed
                == low_res_contours@[p].is_closed,
{
    let mut upscaled: Vec<ContourPath> = Vec::new();
    let mut i: usize = 0;
    while i < low_res_contours.len()
        invariant
            250_000 <= scale_factor.raw <= FX_SCALE,
            low_res_contours@.len() <= 1_000_000_000,
            forall|p: int|
                0 <= p < low_res_contours@.len() ==> (#[trigger] low_res_contours@[p]).wf(),
            paths_within(low_res_contours@, VERTEX_POS_LIMIT as int),
            i <= low_res_contours@.len(),
            upscaled@.len() == i as int,
            forall|p: int|
                0 <= p < i ==> (#[trigger] upscaled@[p]).is_closed
                    == low_res_contours@[p].is_closed,
            smooth ==> forall|p: int|
                0 <= p < i ==> (#[trigger] upscaled@[p]).points@ == upscaled_points(
                    low_res_contours@[p].points@,
                    scale_factor.raw as int,
                    p,
                ),
            !smooth ==> forall|p: int|
                0 <= p < i ==> (#[trigger] upscaled@[p]).points@ == scaled_points(
                    low_res_contours@[p].points@,
                    scale_factor.raw as int,
                ),
            paths_within(upscaled@, SPLINE_LIMIT as int),
        decreases low_res_contours@.len() - i,
    {
        let contour: &ContourPath = &low_res_contours[i];
        let n: usize = contour.points.len();
        let mut new_points: Vec<Pt2> = Vec::new();
        let mut j: usize = 0;
        while j < n
            invariant
                250_000 <= scale_factor.raw <= FX_SCALE,
                low_res_contours@.len() <= 1_000_000_000,
                i < low_res_contours@.len(),
                contour == low_res_contours@[i as int],
                paths_within(low_res_contours@, VERTEX_POS_LIMIT as int),
                n == contour.points@.len(),
                j <= n,
                smooth ==> new_points@.len() == (if n == 0 {
                    0int
                } else if j < n {
                    4 * j as int
                } else {
                    4 * (n - 1) + 1
                }),
                !smooth ==> new_points@.len() == j as int,
                smooth ==> forall|k: int|
                    0 <= k < new_points@.len() ==> #[trigger] new_points@[k] == upscaled_points(
                        contour.points@,
                        scale_factor.raw as int,
                        i as int,
                    )[k],
                !smooth ==> forall|k: int|
                    0 <= k < new_points@.len() ==> #[trigger] new_points@[k] == scaled_pt(
                        contour.points@[k],
                        scale_factor.raw as int,
                    ),
                forall|k: int|
                    0 <= k < new_points@.len() ==> -SPLINE_LIMIT <= (
                    #[trigger] new_points@[k]).x.raw <= SPLINE_LIMIT && -SPLINE_LIMIT
                        <= new_points@[k].y.raw <= SPLINE_LIMIT,
            decreases n - j,
        {
            proof {
                assert(low_res_contours@[i as int].points@[j as int].x.raw <= VERTEX_POS_LIMIT);
            }
            let p1: Pt2 = scale_point(contour.points[j], scale_factor);
            if smooth && j + 1 < n {
                proof {
                    assert(low_res_contours@[i as int].points@[j + 1].x.raw <= VERTEX_POS_LIMIT);
                }
                let p2: Pt2 = scale_point(contour.points[j + 1], scale_factor);
                let mut sub: usize = 0;
                while sub < 4
                    invariant
                        sub <= 4,
                        smooth,
                        i < low_res_contours@.len(),
                        low_res_contours@.len() <= 1_000_000_000,
                        contour == low_res_contours@[i as int],
                        n == contour.points@.len(),
                        j + 1 < n,
                        p1 == scaled_pt(contour.points@[j as int], scale_factor.raw as int),
                        p2 == scaled_pt(contour.points@[j + 1], scale_factor.raw as int),
                        -SPLINE_LIMIT + 200_000 <= p1.x.raw <= SPLINE_LIMIT - 200_000,
                        -SPLINE_LIMIT + 200_000 <= p1.y.raw <= SPLINE_LIMIT - 200_000,
                        -SPLINE_LIMIT + 200_000 <= p2.x.raw <= SPLINE_LIMIT - 200_000,
                        -SPLINE_LIMIT + 200_000 <= p2.y.raw <= SPLINE_LIMIT - 200_000,
                        new_points@.len() == 4 * j as int + sub as int,
                        forall|k: int|
                            0 <= k < new_points@.len() ==> #[trigger] new_points@[k]
                                == upscaled_points(
                                contour.points@,
                                scale_factor.raw as int,
                                i as int,
                            )[k],
                        forall|k: int|
                            0 <= k < new_points@.len() ==> -SPLINE_LIMIT <= (
                            #[trigger] new_points@[k]).x.raw <= SPLINE_LIMIT && -SPLINE_LIMIT
                                <= new_points@[k].y.raw <= SPLINE_LIMIT,
                    decreases 4 - sub,
                {
                    // Blend a quarter of the way per step, with a small
                    // deterministic perturbation for a natural look.
                    let t: i64 = (sub as i64) * 250_000;
                    let bx: i64 = p1.x.raw + fx_frac(p2.x.raw - p1.x.raw, t);
                    let by: i64 = p1.y.raw + fx_frac(p2.y.raw - p1.y.raw, t);
                    let m: i64 = (((i as u64) * 1_000 + (sub as u64) * 10) % 1_000) as i64;
                    let wobble: i64 = m * 100 - 50_000;
                    proof {
                        vstd::arithmetic::div_mod::lemma_fundamental_div_mod_converse(
                            (4 * j + sub) as int,
                            4,
                            j as int,
                            sub as int,
                        );
                        assert(m as int == ((i as int) * 1_000 + (sub as int) * 10) % 1_000);
                    }
                    new_points.push(
                        Pt2 { x: Fx { raw: bx + wobble }, y: Fx { raw: by + wobble } },
                    );
                    sub = sub + 1;
                }
            } else {
                new_points.push(p1);
                proof {
                    if smooth {
                        assert(j == n - 1);
                        assert(new_points@.len() - 1 == 4 * (n - 1));
                    }
                }
            }
            j = j + 1;
        }
        proof {
            if !smooth {
                assert(new_points@ =~= scaled_points(
                    low_res_contours@[i as int].points@,
                    scale_factor.raw as int,
                ));
            } else {
                if n == 0 {
                    assert(new_points@ =~= upscaled_points(
                        low_res_contours@[i as int].points@,
                        scale_factor.raw as int,
                        i as int,
                    ));
                } else {
                    assert(new_points@ =~= upscaled_points(
                        low_res_contours@[i as int].points@,
                        scale_factor.raw as int,
                        i as int,
                    ));
                }
            }
        }
        upscaled.push(ContourPath { points: new_points, is_closed: contour.is_closed });
        i = i + 1;
    }
    if smooth {
        let out: Vec<ContourPath> = smooth_contours_parallel(&upscaled);
        proof {
            assert(upscale_rel(low_res_contours@, scale_factor.raw as int, smooth, out@)) by {
                assert(smooth5_rel(upscaled@, out@));
            }
        }
        out
    } else {
        let mut out: Vec<ContourPath> = Vec::new();
        let mut k: usize = 0;
        while k < upscaled.len()
            invariant
                k <= upscaled@.len(),
                out@.len() == k as int,
                paths_within(upscaled@, SPLINE_LIMIT as int),
                forall|p: int| 0 <= p < k ==> (#[trigger] out@[p]).wf(),
                forall|p: int|
                    0 <= p < k ==> (#[trigger] out@[p]).points@ == upscaled@[p].points@
                        && out@[p].is_closed == upscaled@[p].is_closed,
                upscaled@.len() == low_res_contours@.len(),
                !smooth,
                forall|p: int|
                    0 <= p < upscaled@.len() ==> (#[trigger] upscaled@[p]).is_closed
                        == low_res_contours@[p].is_closed,
                forall|p: int|
                    0 <= p < upscaled@.len() ==> (#[trigger] upscaled@[p]).points@
                        == scaled_points(
                        low_res_contours@[p].points@,
                        scale_factor.raw as int,
                    ),
            decreases upscaled@.len() - k,
        {
            proof {
                assert forall|kk: int|
                    0 <= kk < upscaled@[k as int].points@.len() implies pt_wf(
                    #[trigger] upscaled@[k as int].points@[kk],
                ) by {
                    assert(upscaled@[k as int].points@[kk].x.raw <= SPLINE_LIMIT);
                }
            }
            let copied: ContourPath = ContourPath {
                points: crate::sampler::clone_points(&upscaled[k].points),
                is_closed: upscaled[k].is_closed,
            };
            out.push(copied);
            k = k + 1;
        }
        out
    }
}

/// Divides one point by the resolution reduction factor.
fn scale_point(p: Pt2, scale_factor: Fx) -> (r: Pt2)
    requires
        250_000 <= scale_factor.raw <= FX_SCALE,
        -VERTEX_POS_LIMIT <= p.x.raw <= VERTEX_POS_LIMIT,
        -VERTEX_POS_LIMIT <= p.y.raw <= VERTEX_POS_LIMIT,
    ensures
        r == scaled_pt(p, scale_factor.raw as int),
        -SPLINE_LIMIT + 200_000 <= r.x.raw <= SPLINE_LIMIT - 200_000,
        -SPLINE_LIMIT + 200_000 <= r.y.raw <= SPLINE_LIMIT - 200_000,
{
    proof {
        assert(abs_val(p.x.raw as int) * (FX_SCALE as int) <= 0x7fff_ffff_ffff_ffff * abs_val(
            scale_factor.raw as int,
        )) by (nonlinear_arith)
            requires
                abs_val(p.x.raw as int) <= VERTEX_POS_LIMIT as int,
                250_000 <= scale_factor.raw,
                abs_val(scale_factor.raw as int) == scale_factor.raw,
        ;
        assert(abs_val(p.y.raw as int) * (FX_SCALE as int) <= 0x7fff_ffff_ffff_ffff * abs_val(
            scale_factor.raw as int,
        )) by (nonlinear_arith)
            requires
                abs_val(p.y.raw as int) <= VERTEX_POS_LIMIT as int,
                250_000 <= scale_factor.raw,
                abs_val(scale_factor.raw as int) == scale_factor.raw,
        ;
        lemma_upscale_mag(p.x.raw as int, scale_factor.raw as int);
        lemma_upscale_mag(p.y.raw as int, scale_factor.raw as int);
    }
    let rx: Fx = p.x.div_by(scale_factor);
    let ry: Fx = p.y.div_by(scale_factor);
    Pt2 { x: rx, y: ry }
}

/// Dividing a bounded point by at least a quarter keeps it under the
/// smoothing limit with room to spare.
proof fn lemma_upscale_mag(a: int, b: int)
    requires
        250_000 <= b,
        abs_val(a) <= VERTEX_POS_LIMIT as int,
    ensures
        abs_val(fx_div_spec(a, b)) <= SPLINE_LIMIT as int - 200_000,
{
    crate::fixed::lemma_tdiv_mag(a * (FX_SCALE as int), b);
    let q = crate::fixed::tdiv(a * (FX_SCALE as int), b);
    assert(abs_val(a * (FX_SCALE as int)) <= (VERTEX_POS_LIMIT as int) * (FX_SCALE as int))
        by (nonlinear_arith)
        requires
            abs_val(a) <= VERTEX_POS_LIMIT as int,
    ;
    assert(abs_val(q) <= SPLINE_LIMIT as int - 200_000) by (nonlinear_arith)
        requires
            abs_val(q) * b <= abs_val(a * (FX_SCALE as int)),
            abs_val(a * (FX_SCALE as int)) <= (VERTEX_POS_LIMIT as int) * (FX_SCALE as int),
            250_000 <= b,
            abs_val(q) >= 0,
    ;
}

/// A quarter-step blend used by the upscale subdivision.
fn fx_frac(delta: i64, t: i64) -> (r: i64)
    requires
        0 <= t <= FX_SCALE,
        -0x1_0000_0000_0000 <= delta <= 0x1_0000_0000_0000,
    ensures
        r == crate::fixed::fx_mul_spec(delta as int, t as int),
        delta >= 0 ==> 0 <= r <= delta,
        delta < 0 ==> delta <= r <= 0,
{
    proof {
        assert(abs_val(delta as int) * abs_val(t as int) <= 0x7fff_ffff_ffff_ffff * (
        FX_SCALE as int)) by (nonlinear_arith)
            requires
                abs_val(delta as int) <= 0x1_0000_0000_0000,
                abs_val(t as int) <= FX_SCALE as int,
        ;
        crate::fixed::lemma_fx_mul_frac_bound(delta as int, t as int);
    }
    let d: Fx = Fx { raw: delta };
    let out: Fx = d.mul_by(Fx { raw: t });
    out.raw
}

/// Smooths every contour with five Catmull-Rom subdivisions per point at a
/// tension of one half, the per-contour work a collaborator may fan out.
pub fn smooth_contours_parallel(contours: &Vec<ContourPath>) -> (out: Vec<ContourPath>)
    requires
        paths_within(contours@, SPLINE_LIMIT as int),
    ensures
        smooth5_rel(contours@, out@),
        out@.len() == contours@.len(),
        forall|p: int| 0 <= p < out@.len() ==> (#[trigger] out@[p]).wf(),
        forall|p: int|
            0 <= p < out@.len() ==> (#[trigger] out@[p]).is_closed == contours@[p].is_closed,
{
    let mut out: Vec<ContourPath> = Vec::new();
    let mut i: usize = 0;
    while i < contours.len()
        invariant
            paths_within(contours@, SPLINE_LIMIT as int),
            i <= contours@.len(),
            out@.len() == i as int,
            forall|p: int| 0 <= p < i ==> (#[trigger] out@[p]).wf(),
            forall|p: int| 0 <= p < i ==> smooth5_of(contours@[p], #[trigger] out@[p]),
        decreases contours@.len() - i,
    {
        proof {
            assert forall|k: int|
                0 <= k < contours@[i as int].points@.len() implies spline_pt_wf(
                #[trigger] contours@[i as int].points@[k],
            ) by {
                assert(contours@[i as int].points@[k].x.raw <= SPLINE_LIMIT);
            }
        }
        if contours[i].points.len() <= 100_000_000 {
            let smoothed: ContourPath = apply_catmull_rom_smoothing(&contours[i]);
            out.push(smoothed);
        } else {
            out.push(
                ContourPath {
                    points: crate::sampler::clone_points(&contours[i].points),
                    is_closed: contours[i].is_closed,
                },
            );
        }
        i = i + 1;
    }
    out
}

/// The final pass: triangulates every closed contour of at least three
/// points and merges the per-contour buffers into one mesh, offsetting each
/// sub-buffer's indices by the running vertex count.  Contours that would
/// push the mesh past the sixteen-bit index space are left out.
pub fn triangulate_mesh(contours: &Vec<ContourPath>) -> (mesh: TerrainMeshData)
    requires
        forall|p: int| 0 <= p < contours@.len() ==> (#[trigger] contours@[p]).wf(),
    ensures
        mesh.wf(),
        crate::mesh::mesh_decomp(contours@, mesh),
{
    crate::mesh::triangulate_contours(contours)
}

/// Runs the whole pipeline: the low-resolution sampling and contour pass,
/// the upscale pass, and the final triangulation, updating the progress
/// record at each stage boundary.  The mesh is tied to the three stages by
/// the intermediate contour runs.
pub fn generate_terrain(
    system: &OrganicContourSystem,
    hex_radius: u32,
    settings: &TerrainSettings,
    progress: &mut TerrainGenerationProgress,
) -> (mesh: TerrainMeshData)
    requires
        system.wf(),
        hex_radius <= SAMPLE_RADIUS_LIMIT,
        settings.wf(),
    ensures
        mesh.wf(),
        final(progress).stage == GenerationStage::Complete,
        final(progress).progress.raw == FX_SCALE,
        exists|low: Seq<ContourPath>|
            {
                &&& #[trigger] connect_rel(
                    sample_segments(
                        system.binary_map,
                        system.hex_layout,
                        system.config,
                        system.noise_seed,
                        disk_samples(
                            system.binary_map,
                            system.hex_layout,
                            system.config,
                            hex_radius as int,
                        ),
                    ),
                    low,
                    1_000,
                )
                &&& exists|high: Seq<ContourPath>|
                    {
                        &&& (if low.len() <= 1_000_000_000 {
                            upscale_rel(
                                low,
                                settings.low_res_scale.raw as int,
                                settings.upscale_smoothing,
                                high,
                            )
                        } else {
                            high == low
                        })
                        &&& #[trigger] crate::mesh::mesh_decomp(high, mesh)
                    }
            },
{
    update_progress(
        progress,
        GenerationStage::SamplingTerrain,
        Fx { raw: 0 },
        String::new(),
    );
    let low_res: Vec<ContourPath> = generate_low_resolution(system, hex_radius);
    let ghost low = low_res@;
    update_progress(
        progress,
        GenerationStage::GeneratingContours,
        Fx { raw: 250_000 },
        String::new(),
    );
    let high_res: Vec<ContourPath> = if low_res.len() <= 1_000_000_000 {
        upscale_terrain_data(&low_res, settings.low_res_scale, settings.upscale_smoothing)
    } else {
        low_res
    };
    update_progress(
        progress,
        GenerationStage::TriangulatingMesh,
        Fx { raw: 750_000 },
        String::new(),
    );
    let mesh: TerrainMeshData = triangulate_mesh(&high_res);
    update_progress(
        progress,
        GenerationStage::Complete,
        Fx { raw: FX_SCALE },
        String::new(),
    );
    proof {
        let glow = low;
        let ghigh = high_res@;
        assert({
            &&& connect_rel(
                sample_segments(
                    system.binary_map,
                    system.hex_layout,
                    system.config,
                    system.noise_seed,
                    disk_samples(
                        system.binary_map,
                        system.hex_layout,
                        system.config,
                        hex_radius as int,
                    ),
                ),
                glow,
                1_000,
            )
            &&& (if glow.len() <= 1_000_000_000 {
                upscale_rel(
                    glow,
                    settings.low_res_scale.raw as int,
                    settings.upscale_smoothing,
                    ghigh,
                )
            } else {
                ghigh == glow
            })
            &&& crate::mesh::mesh_decomp(ghigh, mesh)
        });
        assert(exists|high: Seq<ContourPath>|
            {
                &&& (if glow.len() <= 1_000_000_000 {
                    upscale_rel(
                        glow,
                        settings.low_res_scale.raw as int,
                        settings.upscale_smoothing,
                        high,
                    )
                } else {
                    high == glow
                })
                &&& #[trigger] crate::mesh::mesh_decomp(high, mesh)
            });
    }
    mesh
}

} // verus!
