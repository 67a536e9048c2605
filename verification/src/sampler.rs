//! The organic contour system: samples the source raster over the hex grid,
//! classifies each cell by neighbor vote, derives a distance field, and
//! holds everything the contour extractors need.

use vstd::prelude::*;
use crate::fixed::{fx_mul_spec, lemma_fx_mul_bound, Fx, FX_SCALE};
use crate::geom::{pt_wf, Pt2};
use crate::hex::{abs_val, coord_in_bounds, hex_dist, neighbor_of, range_seq, HexCoord};
use crate::layout::{HexLayout, SCALE_LIMIT};
use crate::path::ContourPath;
use crate::raster::GrayMap;
use crate::terrain::{border_spec, classify_spec, count_land, CellData, TerrainType};

verus! {

/// Largest hex radius the sampler accepts; keeps every sampled world
/// position within the raster sampling range.
pub const SAMPLE_RADIUS_LIMIT: u32 = 2_900;

/// Largest world-position magnitude the sampler reads.
pub const SAMPLE_POS_LIMIT: i64 = 9_000_000_000_000;

/// Configuration of the contour system: raster scale, fractal noise
/// parameters, the land/water threshold, and the spline tension.
#[derive(Clone, Copy, PartialEq, Eq, Structural, Debug)]
pub struct ContourConfig {
    pub pixels_per_hex: Fx,
    pub noise_amplitude: Fx,
    pub noise_frequency: Fx,
    pub noise_octaves: u32,
    pub threshold: Fx,
    pub spline_tension: Fx,
}

impl ContourConfig {
    /// A usable configuration: positive raster scale, fractional noise
    /// amplitude, positive frequency, a bounded octave count, and
    /// fractional threshold and tension.
    pub open spec fn wf(self) -> bool {
        &&& 0 < self.pixels_per_hex.raw <= 100_000_000
        &&& 0 <= self.noise_amplitude.raw <= FX_SCALE
        &&& 1 <= self.noise_frequency.raw <= 1_000_000_000
        &&& self.noise_octaves <= 32
        &&& 0 <= self.threshold.raw <= FX_SCALE
        &&& 0 <= self.spline_tension.raw <= FX_SCALE
    }
}

impl Default for ContourConfig {
    /// Four cells per raster pixel, moderate organic noise at three
    /// octaves, and a mid-level land threshold.
    fn default() -> (c: ContourConfig)
        ensures
            c.pixels_per_hex.raw == 250_000,
            c.noise_amplitude.raw == 300_000,
            c.noise_frequency.raw == 2_000_000,
            c.noise_octaves == 3,
            c.threshold.raw == 500_000,
            c.spline_tension.raw == 500_000,
            c.wf(),
    {
        ContourConfig {
            pixels_per_hex: Fx { raw: 250_000 },
            noise_amplitude: Fx { raw: 300_000 },
            noise_frequency: Fx { raw: 2_000_000 },
            noise_octaves: 3,
            threshold: Fx { raw: 500_000 },
            spline_tension: Fx { raw: 500_000 },
        }
    }
}

/// The lattice cell size of the noise field for a given frequency: one over
/// the frequency, in raw units, clamped to the supported range.
pub open spec fn noise_cell_spec(freq: int) -> int {
    let c = 1_000_000_000_000int / freq;
    if c < 1 {
        1
    } else if c > 0x1_0000_0000 {
        0x1_0000_0000
    } else {
        c
    }
}

/// Computes the noise lattice cell size for a frequency.
pub fn noise_cell(freq: Fx) -> (c: i64)
    requires
        1 <= freq.raw <= 1_000_000_000,
    ensures
        c == noise_cell_spec(freq.raw as int),
        1 <= c <= 0x1_0000_0000,
{
    let raw: i64 = ((1_000_000_000_000u64) / (freq.raw as u64)) as i64;
    if raw < 1 {
        1
    } else if raw > 0x1_0000_0000 {
        0x1_0000_0000
    } else {
        raw
    }
}

/// The raster x coordinate (fixed point) of a world position: the position
/// scaled by pixels-per-hex, shifted to the raster center.
pub open spec fn img_x_spec(map: GrayMap, config: ContourConfig, wx: int) -> int {
    fx_mul_spec(wx, config.pixels_per_hex.raw as int) + (map.width as int) * 500_000
}

/// Companion of `img_x_spec` for the y coordinate.
pub open spec fn img_y_spec(map: GrayMap, config: ContourConfig, wy: int) -> int {
    fx_mul_spec(wy, config.pixels_per_hex.raw as int) + (map.height as int) * 500_000
}

/// The nearest-pixel sample of the raster under a cell of the grid: its
/// world center mapped to raster coordinates and read as one pixel, with
/// out-of-range reads as water.
#[verifier::opaque]
pub open spec fn sample_hex_spec(
    map: GrayMap,
    layout: HexLayout,
    config: ContourConfig,
    h: HexCoord,
) -> int {
    let w = layout.world_of(h);
    let s = FX_SCALE as int;
    map.pixel_spec(img_x_spec(map, config, w.x.raw as int) / s, img_y_spec(map, config, w.y.raw as int) / s)
}

/// A magnitude bound for the raster coordinates of a bounded world position.
proof fn lemma_img_bound(map: GrayMap, config: ContourConfig, w: int)
    requires
        map.wf(),
        config.wf(),
        abs_val(w) <= SAMPLE_POS_LIMIT as int,
    ensures
        abs_val(fx_mul_spec(w, config.pixels_per_hex.raw as int)) <= 900_000_000_000_000,
{
    lemma_fx_mul_bound(
        w,
        config.pixels_per_hex.raw as int,
        SAMPLE_POS_LIMIT as int,
        100_000_000,
    );
    assert(abs_val(fx_mul_spec(w, config.pixels_per_hex.raw as int)) <= 900_000_000_000_000)
        by (nonlinear_arith)
        requires
            abs_val(fx_mul_spec(w, config.pixels_per_hex.raw as int)) * (FX_SCALE as int) <= (
            SAMPLE_POS_LIMIT as int) * 100_000_000,
    ;
}

/// Every cell within the sampler's radius sits within the sampling range.
pub proof fn lemma_sample_world_bound(layout: HexLayout, h: HexCoord)
    requires
        layout.wf(),
        -(SAMPLE_RADIUS_LIMIT as int) - 1 <= h.q <= SAMPLE_RADIUS_LIMIT + 1,
        -(SAMPLE_RADIUS_LIMIT as int) - 1 <= h.r <= SAMPLE_RADIUS_LIMIT + 1,
    ensures
        abs_val(layout.world_of(h).x.raw as int) <= SAMPLE_POS_LIMIT as int,
        abs_val(layout.world_of(h).y.raw as int) <= SAMPLE_POS_LIMIT as int,
{
    let ux = layout.unit_x(h.q as int, h.r as int);
    let uy = layout.unit_y(h.q as int, h.r as int);
    assert(abs_val(ux) <= 9_000_000_000 && abs_val(uy) <= 9_000_000_000);
    lemma_fx_mul_bound(layout.scale_x.raw as int, ux, SCALE_LIMIT as int, 9_000_000_000);
    lemma_fx_mul_bound(layout.scale_y.raw as int, uy, SCALE_LIMIT as int, 9_000_000_000);
    assert(abs_val(fx_mul_spec(layout.scale_x.raw as int, ux)) <= SAMPLE_POS_LIMIT as int)
        by (nonlinear_arith)
        requires
            abs_val(fx_mul_spec(layout.scale_x.raw as int, ux)) * (FX_SCALE as int) <= (
            SCALE_LIMIT as int) * 9_000_000_000,
    ;
    assert(abs_val(fx_mul_spec(layout.scale_y.raw as int, uy)) <= SAMPLE_POS_LIMIT as int)
        by (nonlinear_arith)
        requires
            abs_val(fx_mul_spec(layout.scale_y.raw as int, uy)) * (FX_SCALE as int) <= (
            SCALE_LIMIT as int) * 9_000_000_000,
    ;
}

/// Samples the raster for one cell of the grid: nearest pixel under the
/// cell's world center.
pub fn sample_binary_map_for_hex(
    map: &GrayMap,
    hex: HexCoord,
    layout: &HexLayout,
    config: &ContourConfig,
) -> (r: Fx)
    requires
        map.wf(),
        layout.wf(),
        config.wf(),
        -(SAMPLE_RADIUS_LIMIT as int) - 1 <= hex.q <= SAMPLE_RADIUS_LIMIT + 1,
        -(SAMPLE_RADIUS_LIMIT as int) - 1 <= hex.r <= SAMPLE_RADIUS_LIMIT + 1,
    ensures
        r.raw == sample_hex_spec(*map, *layout, *config, hex),
        0 <= r.raw <= FX_SCALE,
{
    proof {
        reveal(sample_hex_spec);
        lemma_sample_world_bound(*layout, hex);
    }
    let w: Pt2 = layout.hex_to_world_pos(hex);
    proof {
        lemma_img_bound(*map, *config, w.x.raw as int);
        lemma_img_bound(*map, *config, w.y.raw as int);
        assert(abs_val(w.x.raw as int) * abs_val(config.pixels_per_hex.raw as int)
            <= 0x7fff_ffff_ffff_ffff * (FX_SCALE as int)) by (nonlinear_arith)
            requires
                abs_val(w.x.raw as int) <= SAMPLE_POS_LIMIT as int,
                abs_val(config.pixels_per_hex.raw as int) <= 100_000_000,
        ;
        assert(abs_val(w.y.raw as int) * abs_val(config.pixels_per_hex.raw as int)
            <= 0x7fff_ffff_ffff_ffff * (FX_SCALE as int)) by (nonlinear_arith)
            requires
                abs_val(w.y.raw as int) <= SAMPLE_POS_LIMIT as int,
                abs_val(config.pixels_per_hex.raw as int) <= 100_000_000,
        ;
    }
    let ix: Fx = w.x.mul_by(config.pixels_per_hex);
    let iy: Fx = w.y.mul_by(config.pixels_per_hex);
    let sx: i64 = ix.raw + (map.width as i64) * 500_000;
    let sy: i64 = iy.raw + (map.height as i64) * 500_000;
    let px: i64 = crate::intmath::flr_div(sx, FX_SCALE);
    let py: i64 = crate::intmath::flr_div(sy, FX_SCALE);
    map.get_pixel_value(px, py)
}

/// Whether a cell record carries exactly the classification of cell `h`:
/// its sample, its border flag from the neighbor votes, and its terrain
/// category.
pub open spec fn cell_classified(
    map: GrayMap,
    layout: HexLayout,
    config: ContourConfig,
    c: CellData,
    h: HexCoord,
) -> bool {
    let vals = neighbor_samples(map, layout, config, h);
    let land_n = count_land(vals, config.threshold.raw as int);
    &&& c.coord == h
    &&& c.sample_value.raw == sample_hex_spec(map, layout, config, h)
    &&& c.is_border == border_spec(land_n, 6 - land_n)
    &&& c.terrain_type == classify_spec(
        c.sample_value.raw as int,
        land_n,
        6 - land_n,
        config.threshold.raw as int,
    )
}

/// The samples of a cell's six neighbors, in direction order.
pub open spec fn neighbor_samples(
    map: GrayMap,
    layout: HexLayout,
    config: ContourConfig,
    h: HexCoord,
) -> Seq<int> {
    Seq::new(6, |i: int| sample_hex_spec(map, layout, config, neighbor_of(h, i)))
}

/// The whole contour system: the source raster, the grid layout, the
/// configuration, the classified cells, and the noise seed.
pub struct OrganicContourSystem {
    pub binary_map: GrayMap,
    pub hex_layout: HexLayout,
    pub config: ContourConfig,
    pub hex_cells: Vec<CellData>,
    pub noise_seed: u64,
}

impl OrganicContourSystem {
    /// A usable system: raster, layout and configuration all well-formed.
    pub open spec fn wf(self) -> bool {
        self.binary_map.wf() && self.hex_layout.wf() && self.config.wf()
    }

    /// Builds a system over a raster, layout and configuration, with an
    /// empty cell grid.
    pub fn new(binary_map: GrayMap, hex_layout: HexLayout, config: ContourConfig) -> (s:
        OrganicContourSystem)
        requires
            binary_map.wf(),
            hex_layout.wf(),
            config.wf(),
        ensures
            s.wf(),
            s.binary_map == binary_map,
            s.hex_layout == hex_layout,
            s.config == config,
            s.hex_cells@.len() == 0,
            s.noise_seed == 42,
    {
        OrganicContourSystem {
            binary_map,
            hex_layout,
            config,
            hex_cells: Vec::new(),
            noise_seed: 42,
        }
    }

    /// Samples the raster under one cell.
    pub fn sample_binary_map(&self, hex: HexCoord) -> (r: Fx)
        requires
            self.wf(),
            -(SAMPLE_RADIUS_LIMIT as int) - 1 <= hex.q <= SAMPLE_RADIUS_LIMIT + 1,
            -(SAMPLE_RADIUS_LIMIT as int) - 1 <= hex.r <= SAMPLE_RADIUS_LIMIT + 1,
        ensures
            r.raw == sample_hex_spec(self.binary_map, self.hex_layout, self.config, hex),
            0 <= r.raw <= FX_SCALE,
    {
        sample_binary_map_for_hex(&self.binary_map, hex, &self.hex_layout, &self.config)
    }

    /// Classifies one cell from its sample and its six neighbors' samples.
    pub fn determine_terrain_type(&self, hex: HexCoord, sample_value: Fx) -> (r: (
        TerrainType,
        bool,
    ))
        requires
            self.wf(),
            -(SAMPLE_RADIUS_LIMIT as int) <= hex.q <= SAMPLE_RADIUS_LIMIT,
            -(SAMPLE_RADIUS_LIMIT as int) <= hex.r <= SAMPLE_RADIUS_LIMIT,
        ensures
            ({
                let vals = neighbor_samples(self.binary_map, self.hex_layout, self.config, hex);
                let land_n = count_land(vals, self.config.threshold.raw as int);
                &&& r.0 == classify_spec(
                    sample_value.raw as int,
                    land_n,
                    6 - land_n,
                    self.config.threshold.raw as int,
                )
                &&& r.1 == border_spec(land_n, 6 - land_n)
            }),
    {
        proof {
            assert(coord_in_bounds(hex));
        }
        let nb: [HexCoord; 6] = hex.neighbors();
        let v0: Fx = self.sample_binary_map(nb[0]);
        let v1: Fx = self.sample_binary_map(nb[1]);
        let v2: Fx = self.sample_binary_map(nb[2]);
        let v3: Fx = self.sample_binary_map(nb[3]);
        let v4: Fx = self.sample_binary_map(nb[4]);
        let v5: Fx = self.sample_binary_map(nb[5]);
        let vals_arr: [Fx; 6] = [v0, v1, v2, v3, v4, v5];
        let r = crate::terrain::determine_terrain_type(sample_value, &vals_arr, self.config.threshold);
        proof {
            let vals = neighbor_samples(self.binary_map, self.hex_layout, self.config, hex);
            assert(Seq::new(6, |i: int| vals_arr[i].raw as int) =~= vals);
        }
        r
    }

    /// Builds the cell grid: samples and classifies every cell within
    /// `radius` of the origin, then derives the distance field in a pure
    /// second pass.
    #[verifier::spinoff_prover]
    #[verifier::rlimit(60)]
    pub fn initialize_hex_grid(&mut self, radius: u32)
        requires
            old(self).wf(),
            radius <= SAMPLE_RADIUS_LIMIT,
        ensures
            final(self).wf(),
            final(self).binary_map == old(self).binary_map,
            final(self).hex_layout == old(self).hex_layout,
            final(self).config == old(self).config,
            final(self).noise_seed == old(self).noise_seed,
            final(self).hex_cells@.len() == range_seq(HexCoord { q: 0, r: 0 }, radius as int).len(),
            forall|i: int|
                0 <= i < final(self).hex_cells@.len() ==> cell_classified(
                    old(self).binary_map,
                    old(self).hex_layout,
                    old(self).config,
                    #[trigger] final(self).hex_cells@[i],
                    range_seq(HexCoord { q: 0, r: 0 }, radius as int)[i],
                ),
            distance_field_ok(final(self).hex_cells@),
            cells_in_radius(final(self).hex_cells@, radius as int),
    {
        let origin: HexCoord = HexCoord { q: 0, r: 0 };
        let coords: Vec<HexCoord> = origin.range(radius);
        proof {
            assert forall|i: int| 0 <= i < coords@.len() implies -(radius as int) <= (
            #[trigger] coords@[i]).q <= radius as int && -(radius as int) <= coords@[i].r
                <= radius as int by {
                crate::hex::lemma_range_contains(origin, radius as int, coords@[i]);
                assert(range_seq(origin, radius as int).contains(coords@[i]));
                assert(hex_dist(origin, coords@[i]) <= radius);
            }
        }
        let mut base_cells: Vec<CellData> = Vec::new();
        let mut i: usize = 0;
        while i < coords.len()
            invariant
                self.wf(),
                *self == *old(self),
                radius <= SAMPLE_RADIUS_LIMIT,
                coords@ == range_seq(HexCoord { q: 0, r: 0 }, radius as int),
                forall|k: int|
                    0 <= k < coords@.len() ==> -(radius as int) <= (#[trigger] coords@[k]).q
                        <= radius as int && -(radius as int) <= coords@[k].r <= radius as int,
                i <= coords@.len(),
                base_cells@.len() == i as int,
                forall|k: int|
                    0 <= k < i ==> cell_classified(
                        self.binary_map,
                        self.hex_layout,
                        self.config,
                        #[trigger] base_cells@[k],
                        coords@[k],
                    ),
            decreases coords@.len() - i,
        {
            let h: HexCoord = coords[i];
            let sample_value: Fx = self.sample_binary_map(h);
            let (terrain_type, is_border): (TerrainType, bool) = self.determine_terrain_type(
                h,
                sample_value,
            );
            base_cells.push(
                CellData {
                    coord: h,
                    terrain_type,
                    is_border,
                    sample_value,
                    distance_to_edge: 0,
                },
            );
            i = i + 1;
        }
        let cells: Vec<CellData> = calculate_distance_fields(&base_cells);
        proof {
            assert forall|k: int| 0 <= k < cells@.len() implies -(radius as int) <= (
            #[trigger] cells@[k]).coord.q <= radius as int && -(radius as int)
                <= cells@[k].coord.r <= radius as int by {
                assert(cells@[k].coord == base_cells@[k].coord);
                assert(cell_classified(
                    self.binary_map,
                    self.hex_layout,
                    self.config,
                    base_cells@[k],
                    coords@[k],
                ));
            }
            assert forall|k: int| 0 <= k < cells@.len() implies cell_classified(
                self.binary_map,
                self.hex_layout,
                self.config,
                #[trigger] cells@[k],
                coords@[k],
            ) by {
                assert(cell_classified(
                    self.binary_map,
                    self.hex_layout,
                    self.config,
                    base_cells@[k],
                    coords@[k],
                ));
            }
        }
        self.hex_cells = cells;
    }
}

/// Every cell coordinate lies within `radius` of the origin.
pub open spec fn cells_in_radius(cells: Seq<CellData>, radius: int) -> bool {
    forall|i: int|
        0 <= i < cells.len() ==> -radius <= (#[trigger] cells[i]).coord.q <= radius && -radius
            <= cells[i].coord.r <= radius
}

/// The least hex distance from `coord` to any border cell of the run, or
/// the maximum value when the run holds no border cell.
pub open spec fn border_min_dist(cells: Seq<CellData>, coord: HexCoord) -> int
    decreases cells.len(),
{
    if cells.len() == 0 {
        0xffff_ffff
    } else {
        let rest = border_min_dist(cells.drop_last(), coord);
        if cells.last().is_border && hex_dist(coord, cells.last().coord) < rest {
            hex_dist(coord, cells.last().coord)
        } else {
            rest
        }
    }
}

/// The distance field is correct: border cells carry zero; every other
/// cell carries the least hex distance to any border cell (or the maximum
/// value when there is none).
pub open spec fn distance_field_ok(cells: Seq<CellData>) -> bool {
    forall|i: int|
        0 <= i < cells.len() ==> (#[trigger] cells[i]).distance_to_edge == (
        if cells[i].is_border {
            0int
        } else {
            border_min_dist(cells, cells[i].coord)
        })
}

/// Two runs that agree on border flags and coordinates agree on the least
/// border distance.
proof fn lemma_border_min_same(a: Seq<CellData>, b: Seq<CellData>, coord: HexCoord)
    requires
        a.len() == b.len(),
        forall|i: int|
            0 <= i < a.len() ==> (#[trigger] a[i]).is_border == b[i].is_border && a[i].coord
                == b[i].coord,
    ensures
        border_min_dist(a, coord) == border_min_dist(b, coord),
    decreases a.len(),
{
    if a.len() > 0 {
        assert(a.drop_last().len() == b.drop_last().len());
        assert(forall|i: int|
            0 <= i < a.drop_last().len() ==> (#[trigger] a.drop_last()[i]).is_border
                == b.drop_last()[i].is_border && a.drop_last()[i].coord == b.drop_last()[i].coord);
        lemma_border_min_same(a.drop_last(), b.drop_last(), coord);
        assert(a.last().is_border == b[a.len() - 1].is_border);
        assert(a.last().coord == b[a.len() - 1].coord);
    }
}

/// The least border distance for one cell.
fn min_border_distance(cells: &Vec<CellData>, coord: HexCoord) -> (best: u32)
    requires
        forall|k: int| 0 <= k < cells@.len() ==> coord_in_bounds((#[trigger] cells@[k]).coord),
        coord_in_bounds(coord),
    ensures
        best == border_min_dist(cells@, coord),
{
    let mut best: u32 = 0xffff_ffff;
    let mut j: usize = 0;
    while j < cells.len()
        invariant
            forall|k: int| 0 <= k < cells@.len() ==> coord_in_bounds((#[trigger] cells@[k]).coord),
            coord_in_bounds(coord),
            j <= cells@.len(),
            best == border_min_dist(cells@.subrange(0, j as int), coord),
        decreases cells@.len() - j,
    {
        proof {
            assert(cells@.subrange(0, j + 1).drop_last() =~= cells@.subrange(0, j as int));
            assert(cells@.subrange(0, j + 1).last() == cells@[j as int]);
        }
        if cells[j].is_border {
            let d: u32 = coord.distance(&cells[j].coord);
            if d < best {
                best = d;
            }
        }
        j = j + 1;
    }
    proof {
        assert(cells@.subrange(0, cells@.len() as int) =~= cells@);
    }
    best
}

/// Derives the distance field as a pure second pass: each non-border cell
/// gets the least hex distance to any border cell; everything else about
/// every cell is kept as it was.
pub fn calculate_distance_fields(cells: &Vec<CellData>) -> (out: Vec<CellData>)
    requires
        forall|i: int| 0 <= i < cells@.len() ==> coord_in_bounds((#[trigger] cells@[i]).coord),
    ensures
        out@.len() == cells@.len(),
        forall|i: int|
            0 <= i < cells@.len() ==> {
                let c = (#[trigger] out@[i]);
                &&& c.coord == cells@[i].coord
                &&& c.terrain_type == cells@[i].terrain_type
                &&& c.is_border == cells@[i].is_border
                &&& c.sample_value == cells@[i].sample_value
            },
        distance_field_ok(out@),
{
    let mut out: Vec<CellData> = Vec::new();
    let mut i: usize = 0;
    while i < cells.len()
        invariant
            forall|k: int| 0 <= k < cells@.len() ==> coord_in_bounds((#[trigger] cells@[k]).coord),
            i <= cells@.len(),
            out@.len() == i as int,
            forall|k: int|
                0 <= k < i ==> {
                    let c = (#[trigger] out@[k]);
                    &&& c.coord == cells@[k].coord
                    &&& c.terrain_type == cells@[k].terrain_type
                    &&& c.is_border == cells@[k].is_border
                    &&& c.sample_value == cells@[k].sample_value
                },
            forall|k: int|
                0 <= k < i ==> (#[trigger] out@[k]).distance_to_edge == (
                if out@[k].is_border {
                    0int
                } else {
                    border_min_dist(cells@, out@[k].coord)
                }),
        decreases cells@.len() - i,
    {
        let c: CellData = cells[i];
        let dist: u32 = if c.is_border {
            0
        } else {
            min_border_distance(cells, c.coord)
        };
        out.push(
            CellData {
                coord: c.coord,
                terrain_type: c.terrain_type,
                is_border: c.is_border,
                sample_value: c.sample_value,
                distance_to_edge: dist,
            },
        );
        i = i + 1;
    }
    proof {
        assert forall|k: int| 0 <= k < out@.len() implies (#[trigger] out@[k]).distance_to_edge
            == (if out@[k].is_border {
            0int
        } else {
            border_min_dist(out@, out@[k].coord)
        }) by {
            if !out@[k].is_border {
                lemma_border_min_same(cells@, out@, out@[k].coord);
            }
        }
    }
    out
}


/// Largest world-position magnitude a sampled vertex may have.
pub const VERTEX_POS_LIMIT: i64 = 9_500_000_000_000;

/// The scalar field both extractors march over: the bilinear raster sample
/// at the vertex's raster position, perturbed by the fractal noise scaled
/// by the configured amplitude.
#[verifier::opaque]
pub open spec fn vertex_value_spec(
    map: GrayMap,
    config: ContourConfig,
    seed: u64,
    p: Pt2,
) -> int {
    map.sample_spec(
        img_x_spec(map, config, p.x.raw as int),
        img_y_spec(map, config, p.y.raw as int),
    ) + fx_mul_spec(
        crate::noise::fractal_spec(
            seed,
            p.x.raw as int,
            p.y.raw as int,
            noise_cell_spec(config.noise_frequency.raw as int),
            FX_SCALE as int,
            config.noise_octaves as int,
        ),
        config.noise_amplitude.raw as int,
    )
}

/// A point within the vertex sampling range.
pub open spec fn vertex_pos_wf(p: Pt2) -> bool {
    -VERTEX_POS_LIMIT <= p.x.raw <= VERTEX_POS_LIMIT && -VERTEX_POS_LIMIT <= p.y.raw
        <= VERTEX_POS_LIMIT
}

impl OrganicContourSystem {
    /// Samples the noise-perturbed scalar field at one vertex position.
    pub fn sample_at_vertex(&self, p: Pt2) -> (r: Fx)
        requires
            self.wf(),
            vertex_pos_wf(p),
        ensures
            r.raw == vertex_value_spec(self.binary_map, self.config, self.noise_seed, p),
            -12 * FX_SCALE <= r.raw <= 12 * FX_SCALE,
    {
        proof {
            reveal(vertex_value_spec);
            lemma_fx_mul_bound(
                p.x.raw as int,
                self.config.pixels_per_hex.raw as int,
                VERTEX_POS_LIMIT as int,
                100_000_000,
            );
            lemma_fx_mul_bound(
                p.y.raw as int,
                self.config.pixels_per_hex.raw as int,
                VERTEX_POS_LIMIT as int,
                100_000_000,
            );
            assert(abs_val(p.x.raw as int) * abs_val(self.config.pixels_per_hex.raw as int)
                <= 0x7fff_ffff_ffff_ffff * (FX_SCALE as int)) by (nonlinear_arith)
                requires
                    abs_val(p.x.raw as int) <= VERTEX_POS_LIMIT as int,
                    abs_val(self.config.pixels_per_hex.raw as int) <= 100_000_000,
            ;
            assert(abs_val(p.y.raw as int) * abs_val(self.config.pixels_per_hex.raw as int)
                <= 0x7fff_ffff_ffff_ffff * (FX_SCALE as int)) by (nonlinear_arith)
                requires
                    abs_val(p.y.raw as int) <= VERTEX_POS_LIMIT as int,
                    abs_val(self.config.pixels_per_hex.raw as int) <= 100_000_000,
            ;
            assert(abs_val(fx_mul_spec(p.x.raw as int, self.config.pixels_per_hex.raw as int))
                <= 950_000_000_000_000) by (nonlinear_arith)
                requires
                    abs_val(fx_mul_spec(p.x.raw as int, self.config.pixels_per_hex.raw as int)) * (
                    FX_SCALE as int) <= (VERTEX_POS_LIMIT as int) * 100_000_000,
            ;
            assert(abs_val(fx_mul_spec(p.y.raw as int, self.config.pixels_per_hex.raw as int))
                <= 950_000_000_000_000) by (nonlinear_arith)
                requires
                    abs_val(fx_mul_spec(p.y.raw as int, self.config.pixels_per_hex.raw as int)) * (
                    FX_SCALE as int) <= (VERTEX_POS_LIMIT as int) * 100_000_000,
            ;
        }
        let ix: Fx = p.x.mul_by(self.config.pixels_per_hex);
        let iy: Fx = p.y.mul_by(self.config.pixels_per_hex);
        let sx: i64 = ix.raw + (self.binary_map.width as i64) * 500_000;
        let sy: i64 = iy.raw + (self.binary_map.height as i64) * 500_000;
        let base: Fx = self.binary_map.sample_at_position(Fx { raw: sx }, Fx { raw: sy });
        let cell: i64 = noise_cell(self.config.noise_frequency);
        let n: Fx = crate::noise::fractal_noise(
            self.noise_seed,
            p.x,
            p.y,
            cell,
            Fx { raw: FX_SCALE },
            self.config.noise_octaves,
        );
        proof {
            assert(abs_val(n.raw as int) * abs_val(self.config.noise_amplitude.raw as int)
                <= 0x7fff_ffff_ffff_ffff * (FX_SCALE as int)) by (nonlinear_arith)
                requires
                    abs_val(n.raw as int) <= 8 * (FX_SCALE as int),
                    abs_val(self.config.noise_amplitude.raw as int) <= FX_SCALE as int,
            ;
            crate::fixed::lemma_fx_mul_frac_bound(
                n.raw as int,
                self.config.noise_amplitude.raw as int,
            );
        }
        let perturb: Fx = n.mul_by(self.config.noise_amplitude);
        Fx { raw: base.raw + perturb.raw }
    }

    /// Splits a cell into the six triangles of the dual grid, fanning from
    /// its center to its corners.
    pub fn hex_to_triangular_dual(&self, hex: HexCoord) -> (out: Vec<crate::triangle::Triangle>)
        requires
            self.wf(),
            -(SAMPLE_RADIUS_LIMIT as int) <= hex.q <= SAMPLE_RADIUS_LIMIT,
            -(SAMPLE_RADIUS_LIMIT as int) <= hex.r <= SAMPLE_RADIUS_LIMIT,
        ensures
            out@.len() == 6,
            forall|k: int|
                0 <= k < 6 ==> {
                    let t = (#[trigger] out@[k]);
                    &&& t.id.hex == hex
                    &&& t.id.index == k
                    &&& t.vertices[0] == self.hex_layout.world_of(hex)
                    &&& t.vertices[1] == self.hex_layout.corner_of(hex, k)
                    &&& t.vertices[2] == self.hex_layout.corner_of(
                        hex,
                        if k == 5 {
                            0int
                        } else {
                            k + 1
                        },
                    )
                },
            forall|k: int, v: int|
                0 <= k < 6 && 0 <= v < 3 ==> vertex_pos_wf(#[trigger] out@[k].vertices[v]),
    {
        proof {
            lemma_sample_world_bound(self.hex_layout, hex);
        }
        let center: Pt2 = self.hex_layout.hex_to_world_pos(hex);
        let corners: [Pt2; 6] = self.hex_layout.hex_corners(hex);
        proof {
            assert forall|k: int| 0 <= k < 6 implies vertex_pos_wf(
                self.hex_layout.corner_of(hex, k),
            ) by {
                lemma_fx_mul_bound(
                    self.hex_layout.scale_x.raw as int,
                    self.hex_layout.corner_unit_x(k),
                    SCALE_LIMIT as int,
                    1_732_051,
                );
                lemma_fx_mul_bound(
                    self.hex_layout.scale_y.raw as int,
                    self.hex_layout.corner_unit_y(k),
                    SCALE_LIMIT as int,
                    1_732_051,
                );
                assert(abs_val(fx_mul_spec(
                    self.hex_layout.scale_x.raw as int,
                    self.hex_layout.corner_unit_x(k),
                )) <= 2 * (SCALE_LIMIT as int)) by (nonlinear_arith)
                    requires
                        abs_val(fx_mul_spec(
                            self.hex_layout.scale_x.raw as int,
                            self.hex_layout.corner_unit_x(k),
                        )) * (FX_SCALE as int) <= (SCALE_LIMIT as int) * 1_732_051,
                ;
                assert(abs_val(fx_mul_spec(
                    self.hex_layout.scale_y.raw as int,
                    self.hex_layout.corner_unit_y(k),
                )) <= 2 * (SCALE_LIMIT as int)) by (nonlinear_arith)
                    requires
                        abs_val(fx_mul_spec(
                            self.hex_layout.scale_y.raw as int,
                            self.hex_layout.corner_unit_y(k),
                        )) * (FX_SCALE as int) <= (SCALE_LIMIT as int) * 1_732_051,
                ;
            }
        }
        let mut out: Vec<crate::triangle::Triangle> = Vec::new();
        let mut k: usize = 0;
        while k < 6
            invariant
                self.wf(),
                center == self.hex_layout.world_of(hex),
                forall|kk: int| 0 <= kk < 6 ==> corners[kk] == self.hex_layout.corner_of(hex, kk),
                vertex_pos_wf(center),
                forall|kk: int|
                    0 <= kk < 6 ==> vertex_pos_wf(self.hex_layout.corner_of(hex, kk)),
                k <= 6,
                out@.len() == k as int,
                forall|kk: int|
                    0 <= kk < k ==> {
                        let t = (#[trigger] out@[kk]);
                        &&& t.id.hex == hex
                        &&& t.id.index == kk
                        &&& t.vertices[0] == self.hex_layout.world_of(hex)
                        &&& t.vertices[1] == self.hex_layout.corner_of(hex, kk)
                        &&& t.vertices[2] == self.hex_layout.corner_of(
                            hex,
                            if kk == 5 {
                                0int
                            } else {
                                kk + 1
                            },
                        )
                    },
                forall|kk: int, v: int|
                    0 <= kk < k && 0 <= v < 3 ==> vertex_pos_wf(#[trigger] out@[kk].vertices[v]),
            decreases 6 - k,
        {
            let v1: Pt2 = corners[k];
            let v2: Pt2 = if k == 5 {
                corners[0]
            } else {
                corners[k + 1]
            };
            out.push(
                crate::triangle::Triangle {
                    id: crate::triangle::TriangleId { hex, index: k },
                    vertices: [center, v1, v2],
                },
            );
            k = k + 1;
        }
        out
    }

    /// Runs marching triangles over one dual triangle: samples the scalar
    /// field at its three vertices and emits the crossing segment for a
    /// mixed pattern.
    pub fn generate_triangle_contour(&self, triangle: &crate::triangle::Triangle) -> (r: Option<
        ContourPath,
    >)
        requires
            self.wf(),
            forall|v: int| 0 <= v < 3 ==> vertex_pos_wf(#[trigger] triangle.vertices[v]),
        ensures
            r matches Some(c) ==> {
                &&& c.points@.len() == 2
                &&& !c.is_closed
                &&& c.wf()
                &&& forall|k: int|
                    0 <= k < 2 ==> -VERTEX_POS_LIMIT <= (#[trigger] c.points@[k]).x.raw
                        <= VERTEX_POS_LIMIT && -VERTEX_POS_LIMIT <= c.points@[k].y.raw
                        <= VERTEX_POS_LIMIT
            },
            ({
                let v0 = vertex_value_spec(
                    self.binary_map,
                    self.config,
                    self.noise_seed,
                    triangle.vertices[0],
                );
                let v1 = vertex_value_spec(
                    self.binary_map,
                    self.config,
                    self.noise_seed,
                    triangle.vertices[1],
                );
                let v2 = vertex_value_spec(
                    self.binary_map,
                    self.config,
                    self.noise_seed,
                    triangle.vertices[2],
                );
                let seg = crate::contour::mt_segment(
                    triangle.vertices[0],
                    triangle.vertices[1],
                    triangle.vertices[2],
                    v0,
                    v1,
                    v2,
                    self.config.threshold.raw as int,
                );
                &&& (r is Some) == (seg is Some)
                &&& (r matches Some(c) ==> c.points@[0] == seg->0.a && c.points@[1] == seg->0.b)
            }),
    {
        let p0: Pt2 = triangle.vertices[0];
        let p1: Pt2 = triangle.vertices[1];
        let p2: Pt2 = triangle.vertices[2];
        let v0: Fx = self.sample_at_vertex(p0);
        let v1: Fx = self.sample_at_vertex(p1);
        let v2: Fx = self.sample_at_vertex(p2);
        crate::contour::marching_triangle(p0, p1, p2, v0, v1, v2, self.config.threshold)
    }
}


/// Vertex `v` of the k-th dual triangle of cell `h`: the cell center, then
/// two consecutive corners.
pub open spec fn tri_vertex(layout: HexLayout, h: HexCoord, k: int, v: int) -> Pt2 {
    if v == 0 {
        layout.world_of(h)
    } else if v == 1 {
        layout.corner_of(h, k)
    } else {
        layout.corner_of(
            h,
            if k == 5 {
                0int
            } else {
                k + 1
            },
        )
    }
}

/// The boundary segment the k-th dual triangle of cell `h` emits, if any:
/// marching triangles over the noise-perturbed field at its three vertices.
pub open spec fn cell_tri_segment(
    map: GrayMap,
    layout: HexLayout,
    config: ContourConfig,
    seed: u64,
    h: HexCoord,
    k: int,
) -> Option<crate::contour::Segment> {
    crate::contour::mt_segment(
        tri_vertex(layout, h, 0, 0),
        tri_vertex(layout, h, k, 1),
        tri_vertex(layout, h, k, 2),
        vertex_value_spec(map, config, seed, tri_vertex(layout, h, 0, 0)),
        vertex_value_spec(map, config, seed, tri_vertex(layout, h, k, 1)),
        vertex_value_spec(map, config, seed, tri_vertex(layout, h, k, 2)),
        config.threshold.raw as int,
    )
}

/// The segments of the first `k` dual triangles of a border cell, in order.
pub open spec fn cell_segments_upto(
    map: GrayMap,
    layout: HexLayout,
    config: ContourConfig,
    seed: u64,
    h: HexCoord,
    k: int,
) -> Seq<crate::contour::Segment>
    decreases k,
{
    if k <= 0 {
        Seq::empty()
    } else {
        cell_segments_upto(map, layout, config, seed, h, k - 1) + (match cell_tri_segment(
            map,
            layout,
            config,
            seed,
            h,
            k - 1,
        ) {
            Some(sg) => seq![sg],
            None => Seq::empty(),
        })
    }
}

/// Whether the cell at `h` is a border cell: its six neighbors' samples do
/// not all agree with each other.
pub open spec fn sample_is_border(
    map: GrayMap,
    layout: HexLayout,
    config: ContourConfig,
    h: HexCoord,
) -> bool {
    let vals = neighbor_samples(map, layout, config, h);
    let land_n = count_land(vals, config.threshold.raw as int);
    border_spec(land_n, 6 - land_n)
}

/// The segments the first `i` samples emit: six marched dual triangles for
/// every border cell, nothing for the rest.
pub open spec fn sample_segments_upto(
    map: GrayMap,
    layout: HexLayout,
    config: ContourConfig,
    seed: u64,
    samples: Seq<(HexCoord, Fx)>,
    i: int,
) -> Seq<crate::contour::Segment>
    decreases i,
{
    if i <= 0 {
        Seq::empty()
    } else {
        sample_segments_upto(map, layout, config, seed, samples, i - 1) + (if sample_is_border(
            map,
            layout,
            config,
            samples[i - 1].0,
        ) {
            cell_segments_upto(map, layout, config, seed, samples[i - 1].0, 6)
        } else {
            Seq::empty()
        })
    }
}

/// The segments a run of samples emits.
pub open spec fn sample_segments(
    map: GrayMap,
    layout: HexLayout,
    config: ContourConfig,
    seed: u64,
    samples: Seq<(HexCoord, Fx)>,
) -> Seq<crate::contour::Segment> {
    sample_segments_upto(map, layout, config, seed, samples, samples.len() as int)
}

/// The segments the first `i` classified cells emit: six marched dual
/// triangles for every border cell, nothing for the rest.
pub open spec fn cells_segments_upto(
    map: GrayMap,
    layout: HexLayout,
    config: ContourConfig,
    seed: u64,
    cells: Seq<CellData>,
    i: int,
) -> Seq<crate::contour::Segment>
    decreases i,
{
    if i <= 0 {
        Seq::empty()
    } else {
        cells_segments_upto(map, layout, config, seed, cells, i - 1) + (if cells[i - 1].is_border {
            cell_segments_upto(map, layout, config, seed, cells[i - 1].coord, 6)
        } else {
            Seq::empty()
        })
    }
}

/// The segments a run of classified cells emits.
pub open spec fn cells_segments(
    map: GrayMap,
    layout: HexLayout,
    config: ContourConfig,
    seed: u64,
    cells: Seq<CellData>,
) -> Seq<crate::contour::Segment> {
    cells_segments_upto(map, layout, config, seed, cells, cells.len() as int)
}

/// The samples of the disk of the given radius around the origin, in disk
/// order.
pub open spec fn disk_samples(
    map: GrayMap,
    layout: HexLayout,
    config: ContourConfig,
    radius: int,
) -> Seq<(HexCoord, Fx)> {
    Seq::new(
        range_seq(HexCoord { q: 0, r: 0 }, radius).len(),
        |i: int|
            (
                range_seq(HexCoord { q: 0, r: 0 }, radius)[i],
                Fx {
                    raw: sample_hex_spec(
                        map,
                        layout,
                        config,
                        range_seq(HexCoord { q: 0, r: 0 }, radius)[i],
                    ) as i64,
                },
            ),
    )
}

/// One path smoothed with ten Catmull-Rom subdivisions at the given
/// tension; paths of fewer than four points, or over the size cap, pass
/// through unchanged.
pub open spec fn smooth10_of(c: ContourPath, o: ContourPath, tau: int) -> bool {
    &&& o.is_closed == c.is_closed
    &&& (if c.points@.len() < 4 || c.points@.len() > 100_000_000 {
        o.points@ == c.points@
    } else {
        o.points@ == crate::spline::smoothed_seq(c.points@, tau, 10, c.is_closed)
    })
}

/// A run of paths smoothed elementwise with ten subdivisions.
pub open spec fn smooth10_rel(cs: Seq<ContourPath>, os: Seq<ContourPath>, tau: int) -> bool {
    os.len() == cs.len() && (forall|p: int|
        0 <= p < cs.len() ==> smooth10_of(cs[p], #[trigger] os[p], tau))
}

/// Every endpoint of every segment sits within the vertex sampling range.
pub open spec fn segs_in_range(segs: Seq<crate::contour::Segment>) -> bool {
    forall|j: int|
        0 <= j < segs.len() ==> {
            let sg = (#[trigger] segs[j]);
            &&& -VERTEX_POS_LIMIT <= sg.a.x.raw <= VERTEX_POS_LIMIT
            &&& -VERTEX_POS_LIMIT <= sg.a.y.raw <= VERTEX_POS_LIMIT
            &&& -VERTEX_POS_LIMIT <= sg.b.x.raw <= VERTEX_POS_LIMIT
            &&& -VERTEX_POS_LIMIT <= sg.b.y.raw <= VERTEX_POS_LIMIT
        }
}

/// Stitches a bag of in-range segments into paths and smooths every path
/// with ten Catmull-Rom subdivisions per point at the given tension.
fn assemble_and_smooth(segments: &Vec<crate::contour::Segment>, tension: Fx) -> (out: Vec<
    ContourPath,
>)
    requires
        segs_in_range(segments@),
        0 <= tension.raw <= FX_SCALE,
    ensures
        forall|p: int| 0 <= p < out@.len() ==> (#[trigger] out@[p]).wf(),
        exists|mid: Seq<ContourPath>|
            crate::assemble::connect_rel(segments@, mid, 1_000) && smooth10_rel(
                mid,
                out@,
                tension.raw as int,
            ),
{
    proof {
        assert forall|j: int| 0 <= j < segments@.len() implies crate::contour::seg_wf(
            #[trigger] segments@[j],
        ) by {
            assert(segments@[j].a.x.raw <= VERTEX_POS_LIMIT);
        }
    }
    let connected: Vec<ContourPath> = crate::assemble::connect_segments_to_contours(
        segments,
        Fx { raw: 1_000 },
    );
    let mut out: Vec<ContourPath> = Vec::new();
    let mut i: usize = 0;
    while i < connected.len()
        invariant
            segs_in_range(segments@),
            0 <= tension.raw <= FX_SCALE,
            forall|p: int| 0 <= p < connected@.len() ==> (#[trigger] connected@[p]).wf(),
            forall|p: int, k: int|
                0 <= p < connected@.len() && 0 <= k < connected@[p].points@.len()
                    ==> crate::assemble::from_endpoints(
                    #[trigger] connected@[p].points@[k],
                    segments@,
                ),
            crate::assemble::connect_rel(segments@, connected@, 1_000),
            i <= connected@.len(),
            out@.len() == i as int,
            forall|p: int| 0 <= p < out@.len() ==> (#[trigger] out@[p]).wf(),
            forall|p: int|
                0 <= p < i ==> smooth10_of(connected@[p], #[trigger] out@[p], tension.raw as int),
        decreases connected@.len() - i,
    {
        proof {
            assert forall|k: int|
                0 <= k < connected@[i as int].points@.len() implies crate::spline::spline_pt_wf(
                #[trigger] connected@[i as int].points@[k],
            ) by {
                assert(crate::assemble::from_endpoints(
                    connected@[i as int].points@[k],
                    segments@,
                ));
                let j = choose|j: int|
                    0 <= j < segments@.len() && ((#[trigger] segments@[j]).a == connected@[
                        i as int
                    ].points@[k] || segments@[j].b == connected@[i as int].points@[k]);
                assert(segments@[j].a.x.raw <= VERTEX_POS_LIMIT);
            }
        }
        if connected[i].points.len() <= 100_000_000 {
            let smoothed: ContourPath = crate::spline::smooth_contour_with_splines(
                &connected[i],
                tension,
            );
            out.push(smoothed);
        } else {
            let kept: ContourPath = ContourPath {
                points: clone_points(&connected[i].points),
                is_closed: connected[i].is_closed,
            };
            out.push(kept);
        }
        i = i + 1;
    }
    proof {
        assert(crate::assemble::connect_rel(segments@, connected@, 1_000) && smooth10_rel(
            connected@,
            out@,
            tension.raw as int,
        ));
    }
    out
}

impl OrganicContourSystem {
    /// Extracts organic contours with the dual-triangle strategy: marches
    /// the six triangles of every border cell, stitches the emitted
    /// segments into paths, and smooths each path.
    pub fn generate_organic_contours(&self) -> (out: Vec<ContourPath>)
        requires
            self.wf(),
            cells_in_radius(self.hex_cells@, SAMPLE_RADIUS_LIMIT as int),
        ensures
            forall|p: int| 0 <= p < out@.len() ==> (#[trigger] out@[p]).wf(),
            exists|mid: Seq<ContourPath>|
                crate::assemble::connect_rel(
                    cells_segments(
                        self.binary_map,
                        self.hex_layout,
                        self.config,
                        self.noise_seed,
                        self.hex_cells@,
                    ),
                    mid,
                    1_000,
                ) && smooth10_rel(mid, out@, self.config.spline_tension.raw as int),
    {
        let mut segments: Vec<crate::contour::Segment> = Vec::new();
        let mut i: usize = 0;
        while i < self.hex_cells.len()
            invariant
                self.wf(),
                cells_in_radius(self.hex_cells@, SAMPLE_RADIUS_LIMIT as int),
                i <= self.hex_cells@.len(),
                segs_in_range(segments@),
                segments@ == cells_segments_upto(
                    self.binary_map,
                    self.hex_layout,
                    self.config,
                    self.noise_seed,
                    self.hex_cells@,
                    i as int,
                ),
            decreases self.hex_cells@.len() - i,
        {
            let cell: CellData = self.hex_cells[i];
            if cell.is_border {
                let triangles: Vec<crate::triangle::Triangle> = self.hex_to_triangular_dual(
                    cell.coord,
                );
                let mut t: usize = 0;
                while t < triangles.len()
                    invariant
                        self.wf(),
                        i < self.hex_cells@.len(),
                        cell == self.hex_cells@[i as int],
                        cell.is_border,
                        triangles@.len() == 6,
                        forall|kk: int, v: int|
                            0 <= kk < 6 && 0 <= v < 3 ==> vertex_pos_wf(
                                #[trigger] triangles@[kk].vertices[v],
                            ),
                        forall|kk: int, v: int|
                            0 <= kk < 6 && 0 <= v < 3 ==> #[trigger] triangles@[kk].vertices[v]
                                == tri_vertex(self.hex_layout, cell.coord, kk, v),
                        t <= 6,
                        segs_in_range(segments@),
                        segments@ == cells_segments_upto(
                            self.binary_map,
                            self.hex_layout,
                            self.config,
                            self.noise_seed,
                            self.hex_cells@,
                            i as int,
                        ) + cell_segments_upto(
                            self.binary_map,
                            self.hex_layout,
                            self.config,
                            self.noise_seed,
                            cell.coord,
                            t as int,
                        ),
                    decreases 6 - t,
                {
                    let contour: Option<ContourPath> = self.generate_triangle_contour(
                        &triangles[t],
                    );
                    proof {
                        assert(triangles@[t as int].vertices[0] == tri_vertex(
                            self.hex_layout,
                            cell.coord,
                            t as int,
                            0,
                        ));
                        assert(triangles@[t as int].vertices[1] == tri_vertex(
                            self.hex_layout,
                            cell.coord,
                            t as int,
                            1,
                        ));
                        assert(triangles@[t as int].vertices[2] == tri_vertex(
                            self.hex_layout,
                            cell.coord,
                            t as int,
                            2,
                        ));
                        assert(tri_vertex(self.hex_layout, cell.coord, t as int, 0) == tri_vertex(
                            self.hex_layout,
                            cell.coord,
                            0,
                            0,
                        ));
                    }
                    match contour {
                        Some(c) => {
                            let a: Pt2 = c.points[0];
                            let b: Pt2 = c.points[1];
                            proof {
                                assert(cell_tri_segment(
                                    self.binary_map,
                                    self.hex_layout,
                                    self.config,
                                    self.noise_seed,
                                    cell.coord,
                                    t as int,
                                ) == Some(crate::contour::Segment { a, b }));
                            }
                            segments.push(crate::contour::Segment { a, b });
                            proof {
                                assert(segments@ =~= cells_segments_upto(
                                    self.binary_map,
                                    self.hex_layout,
                                    self.config,
                                    self.noise_seed,
                                    self.hex_cells@,
                                    i as int,
                                ) + cell_segments_upto(
                                    self.binary_map,
                                    self.hex_layout,
                                    self.config,
                                    self.noise_seed,
                                    cell.coord,
                                    t + 1,
                                ));
                            }
                        },
                        None => {
                            proof {
                                assert(cell_tri_segment(
                                    self.binary_map,
                                    self.hex_layout,
                                    self.config,
                                    self.noise_seed,
                                    cell.coord,
                                    t as int,
                                ) is None);
                                assert(segments@ =~= cells_segments_upto(
                                    self.binary_map,
                                    self.hex_layout,
                                    self.config,
                                    self.noise_seed,
                                    self.hex_cells@,
                                    i as int,
                                ) + cell_segments_upto(
                                    self.binary_map,
                                    self.hex_layout,
                                    self.config,
                                    self.noise_seed,
                                    cell.coord,
                                    t + 1,
                                ));
                            }
                        },
                    }
                    t = t + 1;
                }
                proof {
                    assert(segments@ =~= cells_segments_upto(
                        self.binary_map,
                        self.hex_layout,
                        self.config,
                        self.noise_seed,
                        self.hex_cells@,
                        i + 1,
                    ));
                }
            } else {
                proof {
                    assert(segments@ =~= cells_segments_upto(
                        self.binary_map,
                        self.hex_layout,
                        self.config,
                        self.noise_seed,
                        self.hex_cells@,
                        i + 1,
                    ));
                }
            }
            i = i + 1;
        }
        assemble_and_smooth(&segments, self.config.spline_tension)
    }
}


/// A plain copy of a point vector.
pub fn clone_points(points: &Vec<Pt2>) -> (out: Vec<Pt2>)
    ensures
        out@ == points@,
{
    let mut out: Vec<Pt2> = Vec::new();
    let mut i: usize = 0;
    while i < points.len()
        invariant
            i <= points@.len(),
            out@ == points@.subrange(0, i as int),
        decreases points@.len() - i,
    {
        out.push(points[i]);
        proof {
            assert(out@ =~= points@.subrange(0, i + 1));
        }
        i = i + 1;
    }
    proof {
        assert(out@ =~= points@);
    }
    out
}


/// The corner-grid sample at node `(x, y)` of the marching grid anchored at
/// `(mnx, mny)` with cell extents `(csx, csy)`.
pub open spec fn grid_value(
    map: GrayMap,
    config: ContourConfig,
    seed: u64,
    mnx: int,
    mny: int,
    csx: int,
    csy: int,
    x: int,
    y: int,
) -> int {
    vertex_value_spec(
        map,
        config,
        seed,
        Pt2 { x: Fx { raw: (mnx + x * csx) as i64 }, y: Fx { raw: (mny + y * csy) as i64 } },
    )
}

/// The segments the first `cx` cells of grid row `cy` emit.
pub open spec fn grid_row_segments(
    map: GrayMap,
    config: ContourConfig,
    seed: u64,
    mnx: int,
    mny: int,
    csx: int,
    csy: int,
    cy: int,
    cx: int,
) -> Seq<crate::contour::Segment>
    decreases cx,
{
    if cx <= 0 {
        Seq::empty()
    } else {
        grid_row_segments(map, config, seed, mnx, mny, csx, csy, cy, cx - 1)
            + crate::contour::ms_segments(
            Pt2 {
                x: Fx { raw: (mnx + (cx - 1) * csx) as i64 },
                y: Fx { raw: (mny + cy * csy) as i64 },
            },
            csx,
            csy,
            grid_value(map, config, seed, mnx, mny, csx, csy, cx - 1, cy),
            grid_value(map, config, seed, mnx, mny, csx, csy, cx, cy),
            grid_value(map, config, seed, mnx, mny, csx, csy, cx, cy + 1),
            grid_value(map, config, seed, mnx, mny, csx, csy, cx - 1, cy + 1),
            config.threshold.raw as int,
        )
    }
}

/// The segments the first `cy` rows of a `g` by `g` marching pass emit.
pub open spec fn grid_rows_upto(
    map: GrayMap,
    config: ContourConfig,
    seed: u64,
    mnx: int,
    mny: int,
    csx: int,
    csy: int,
    g: int,
    cy: int,
) -> Seq<crate::contour::Segment>
    decreases cy,
{
    if cy <= 0 {
        Seq::empty()
    } else {
        grid_rows_upto(map, config, seed, mnx, mny, csx, csy, g, cy - 1) + grid_row_segments(
            map,
            config,
            seed,
            mnx,
            mny,
            csx,
            csy,
            cy - 1,
            g,
        )
    }
}

/// The segments of the whole regular-grid pass: the cell bounds padded by
/// one scale, split into a `g` by `g` grid, sampled at every node and
/// marched cell by cell.
pub open spec fn grid_segments(
    map: GrayMap,
    layout: HexLayout,
    config: ContourConfig,
    seed: u64,
    cells: Seq<CellData>,
    g: int,
) -> Seq<crate::contour::Segment> {
    let mnx = cells_min_x(layout, cells) - layout.scale_x.raw;
    let mny = cells_min_y(layout, cells) - layout.scale_y.raw;
    let mxx = cells_max_x(layout, cells) + layout.scale_x.raw;
    let mxy = cells_max_y(layout, cells) + layout.scale_y.raw;
    grid_rows_upto(map, config, seed, mnx, mny, (mxx - mnx) / g, (mxy - mny) / g, g, g)
}

/// Smallest world x among the cells' centers.
pub open spec fn cells_min_x(layout: HexLayout, cells: Seq<CellData>) -> int
    decreases cells.len(),
{
    if cells.len() <= 1 {
        if cells.len() == 1 {
            layout.world_of(cells[0].coord).x.raw as int
        } else {
            0
        }
    } else {
        let m = cells_min_x(layout, cells.drop_last());
        let v = layout.world_of(cells.last().coord).x.raw as int;
        if v < m {
            v
        } else {
            m
        }
    }
}

/// Smallest world y among the cells' centers.
pub open spec fn cells_min_y(layout: HexLayout, cells: Seq<CellData>) -> int
    decreases cells.len(),
{
    if cells.len() <= 1 {
        if cells.len() == 1 {
            layout.world_of(cells[0].coord).y.raw as int
        } else {
            0
        }
    } else {
        let m = cells_min_y(layout, cells.drop_last());
        let v = layout.world_of(cells.last().coord).y.raw as int;
        if v < m {
            v
        } else {
            m
        }
    }
}

/// Largest world x among the cells' centers.
pub open spec fn cells_max_x(layout: HexLayout, cells: Seq<CellData>) -> int
    decreases cells.len(),
{
    if cells.len() <= 1 {
        if cells.len() == 1 {
            layout.world_of(cells[0].coord).x.raw as int
        } else {
            0
        }
    } else {
        let m = cells_max_x(layout, cells.drop_last());
        let v = layout.world_of(cells.last().coord).x.raw as int;
        if v > m {
            v
        } else {
            m
        }
    }
}

/// Largest world y among the cells' centers.
pub open spec fn cells_max_y(layout: HexLayout, cells: Seq<CellData>) -> int
    decreases cells.len(),
{
    if cells.len() <= 1 {
        if cells.len() == 1 {
            layout.world_of(cells[0].coord).y.raw as int
        } else {
            0
        }
    } else {
        let m = cells_max_y(layout, cells.drop_last());
        let v = layout.world_of(cells.last().coord).y.raw as int;
        if v > m {
            v
        } else {
            m
        }
    }
}

impl OrganicContourSystem {
    /// The padded bounding box of the cell grid's world positions: every
    /// cell center, padded by one cell scale on each side.
    pub fn calculate_bounds(&self) -> (r: (Pt2, Pt2))
        requires
            self.wf(),
            self.hex_cells@.len() >= 1,
            cells_in_radius(self.hex_cells@, SAMPLE_RADIUS_LIMIT as int),
        ensures
            r.0.x.raw == cells_min_x(self.hex_layout, self.hex_cells@) - self.hex_layout.scale_x.raw,
            r.0.y.raw == cells_min_y(self.hex_layout, self.hex_cells@) - self.hex_layout.scale_y.raw,
            r.1.x.raw == cells_max_x(self.hex_layout, self.hex_cells@) + self.hex_layout.scale_x.raw,
            r.1.y.raw == cells_max_y(self.hex_layout, self.hex_cells@) + self.hex_layout.scale_y.raw,
            r.0.x.raw <= r.1.x.raw,
            r.0.y.raw <= r.1.y.raw,
            -9_002_000_000_000 <= r.0.x.raw <= 9_002_000_000_000,
            -9_002_000_000_000 <= r.0.y.raw <= 9_002_000_000_000,
            -9_002_000_000_000 <= r.1.x.raw <= 9_002_000_000_000,
            -9_002_000_000_000 <= r.1.y.raw <= 9_002_000_000_000,
    {
        proof {
            lemma_sample_world_bound(self.hex_layout, self.hex_cells@[0].coord);
        }
        let first: Pt2 = self.hex_layout.hex_to_world_pos(self.hex_cells[0].coord);
        let sx: i64 = self.hex_layout.scale_x.raw;
        let sy: i64 = self.hex_layout.scale_y.raw;
        let mut mnx: i64 = first.x.raw - sx;
        let mut mny: i64 = first.y.raw - sy;
        let mut mxx: i64 = first.x.raw + sx;
        let mut mxy: i64 = first.y.raw + sy;
        proof {
            assert(self.hex_cells@.subrange(0, 1).len() == 1);
            assert(self.hex_cells@.subrange(0, 1)[0] == self.hex_cells@[0]);
        }
        let mut i: usize = 1;
        while i < self.hex_cells.len()
            invariant
                self.wf(),
                self.hex_cells@.len() >= 1,
                cells_in_radius(self.hex_cells@, SAMPLE_RADIUS_LIMIT as int),
                sx == self.hex_layout.scale_x.raw,
                sy == self.hex_layout.scale_y.raw,
                1 <= i <= self.hex_cells@.len(),
                -9_002_000_000_000 <= mnx <= mxx <= 9_002_000_000_000,
                -9_002_000_000_000 <= mny <= mxy <= 9_002_000_000_000,
                mnx == cells_min_x(self.hex_layout, self.hex_cells@.subrange(0, i as int)) - sx,
                mny == cells_min_y(self.hex_layout, self.hex_cells@.subrange(0, i as int)) - sy,
                mxx == cells_max_x(self.hex_layout, self.hex_cells@.subrange(0, i as int)) + sx,
                mxy == cells_max_y(self.hex_layout, self.hex_cells@.subrange(0, i as int)) + sy,
            decreases self.hex_cells@.len() - i,
        {
            proof {
                lemma_sample_world_bound(self.hex_layout, self.hex_cells@[i as int].coord);
                assert(self.hex_cells@.subrange(0, i + 1).drop_last() =~= self.hex_cells@.subrange(
                    0,
                    i as int,
                ));
                assert(self.hex_cells@.subrange(0, i + 1).last() == self.hex_cells@[i as int]);
            }
            let p: Pt2 = self.hex_layout.hex_to_world_pos(self.hex_cells[i].coord);
            if p.x.raw - sx < mnx {
                mnx = p.x.raw - sx;
            }
            if p.y.raw - sy < mny {
                mny = p.y.raw - sy;
            }
            if p.x.raw + sx > mxx {
                mxx = p.x.raw + sx;
            }
            if p.y.raw + sy > mxy {
                mxy = p.y.raw + sy;
            }
            i = i + 1;
        }
        proof {
            assert(self.hex_cells@.subrange(0, self.hex_cells@.len() as int) =~= self.hex_cells@);
        }
        (Pt2 { x: Fx { raw: mnx }, y: Fx { raw: mny } }, Pt2 { x: Fx { raw: mxx }, y: Fx { raw: mxy } })
    }

    /// Extracts contours with the regular-grid strategy: samples the
    /// noise-perturbed field on a uniform grid over the cell bounds, runs
    /// marching squares on every grid cell, stitches the emitted segments
    /// into paths, and smooths each path.
    pub fn generate_organic_contours_global(&self, grid_size: u32) -> (out: Vec<ContourPath>)
        requires
            self.wf(),
            self.hex_cells@.len() >= 1,
            cells_in_radius(self.hex_cells@, SAMPLE_RADIUS_LIMIT as int),
            1 <= grid_size <= 2048,
        ensures
            forall|p: int| 0 <= p < out@.len() ==> (#[trigger] out@[p]).wf(),
            exists|mid: Seq<ContourPath>|
                crate::assemble::connect_rel(
                    grid_segments(
                        self.binary_map,
                        self.hex_layout,
                        self.config,
                        self.noise_seed,
                        self.hex_cells@,
                        grid_size as int,
                    ),
                    mid,
                    1_000,
                ) && smooth10_rel(mid, out@, self.config.spline_tension.raw as int),
    {
        let (mn, mx): (Pt2, Pt2) = self.calculate_bounds();
        let g: i64 = grid_size as i64;
        let csx: i64 = (((mx.x.raw - mn.x.raw) as u64) / (g as u64)) as i64;
        let csy: i64 = (((mx.y.raw - mn.y.raw) as u64) / (g as u64)) as i64;
        proof {
            let spanx = (mx.x.raw - mn.x.raw) as int;
            let spany = (mx.y.raw - mn.y.raw) as int;
            vstd::arithmetic::div_mod::lemma_fundamental_div_mod(spanx, g as int);
            vstd::arithmetic::div_mod::lemma_fundamental_div_mod(spany, g as int);
            assert(spanx <= spanx * (g as int) + (g as int - 1)) by (nonlinear_arith)
                requires
                    1 <= g,
                    0 <= spanx,
            ;
            assert(spany <= spany * (g as int) + (g as int - 1)) by (nonlinear_arith)
                requires
                    1 <= g,
                    0 <= spany,
            ;
            crate::intmath::lemma_flr_div_bounds(spanx, g as int, 0, spanx);
            crate::intmath::lemma_flr_div_bounds(spany, g as int, 0, spany);
            assert(csx <= spanx && csy <= spany);
            assert forall|t: int| 0 <= t <= g implies 0 <= #[trigger] (t * (csx as int))
                <= spanx by {
                assert(0 <= t * (csx as int) <= (g as int) * (csx as int)) by (nonlinear_arith)
                    requires
                        0 <= t <= g,
                        0 <= csx,
                ;
            }
            assert forall|t: int| 0 <= t <= g implies 0 <= #[trigger] (t * (csy as int))
                <= spany by {
                assert(0 <= t * (csy as int) <= (g as int) * (csy as int)) by (nonlinear_arith)
                    requires
                        0 <= t <= g,
                        0 <= csy,
                ;
            }
        }
        // Sample the field on the (g + 1) x (g + 1) grid of cell corners.
        let side: usize = (grid_size + 1) as usize;
        let mut values: Vec<Fx> = Vec::new();
        let mut y: usize = 0;
        while y < side
            invariant
                self.wf(),
                1 <= g <= 2048,
                side == g + 1,
                0 <= csx,
                0 <= csy,
                forall|t: int|
                    0 <= t <= g ==> 0 <= #[trigger] (t * (csx as int)) <= (mx.x.raw - mn.x.raw),
                forall|t: int|
                    0 <= t <= g ==> 0 <= #[trigger] (t * (csy as int)) <= (mx.y.raw - mn.y.raw),
                mn.x.raw <= mx.x.raw <= 9_002_000_000_000,
                mn.y.raw <= mx.y.raw <= 9_002_000_000_000,
                -9_002_000_000_000 <= mn.x.raw <= 9_002_000_000_000,
                -9_002_000_000_000 <= mn.y.raw <= 9_002_000_000_000,
                y <= side,
                values@.len() == y * side,
                forall|k: int|
                    0 <= k < values@.len() ==> -12 * FX_SCALE <= (#[trigger] values@[k]).raw <= 12
                        * FX_SCALE,
                forall|k: int|
                    0 <= k < values@.len() ==> (#[trigger] values@[k]).raw == grid_value(
                        self.binary_map,
                        self.config,
                        self.noise_seed,
                        mn.x.raw as int,
                        mn.y.raw as int,
                        csx as int,
                        csy as int,
                        k % (side as int),
                        k / (side as int),
                    ),
            decreases side - y,
        {
            let mut x: usize = 0;
            while x < side
                invariant
                    self.wf(),
                    1 <= g <= 2048,
                    side == g + 1,
                    0 <= csx,
                    0 <= csy,
                    forall|t: int|
                        0 <= t <= g ==> 0 <= #[trigger] (t * (csx as int)) <= (mx.x.raw
                            - mn.x.raw),
                    forall|t: int|
                        0 <= t <= g ==> 0 <= #[trigger] (t * (csy as int)) <= (mx.y.raw
                            - mn.y.raw),
                    mn.x.raw <= mx.x.raw <= 9_002_000_000_000,
                    mn.y.raw <= mx.y.raw <= 9_002_000_000_000,
                    -9_002_000_000_000 <= mn.x.raw <= 9_002_000_000_000,
                    -9_002_000_000_000 <= mn.y.raw <= 9_002_000_000_000,
                    y < side,
                    x <= side,
                    values@.len() == y * side + x,
                    forall|k: int|
                        0 <= k < values@.len() ==> -12 * FX_SCALE <= (#[trigger] values@[k]).raw
                            <= 12 * FX_SCALE,
                    forall|k: int|
                        0 <= k < values@.len() ==> (#[trigger] values@[k]).raw == grid_value(
                            self.binary_map,
                            self.config,
                            self.noise_seed,
                            mn.x.raw as int,
                            mn.y.raw as int,
                            csx as int,
                            csy as int,
                            k % (side as int),
                            k / (side as int),
                        ),
                decreases side - x,
            {
                let px: i64 = mn.x.raw + (x as i64) * csx;
                let py: i64 = mn.y.raw + (y as i64) * csy;
                let v: Fx = self.sample_at_vertex(Pt2 { x: Fx { raw: px }, y: Fx { raw: py } });
                proof {
                    vstd::arithmetic::div_mod::lemma_fundamental_div_mod_converse(
                        (y * side + x) as int,
                        side as int,
                        y as int,
                        x as int,
                    );
                }
                values.push(v);
                proof {
                    assert(y * side + (x + 1) == y * side + x + 1);
                }
                x = x + 1;
            }
            proof {
                assert((y + 1) * side == y * side + side) by (nonlinear_arith);
            }
            y = y + 1;
        }
        proof {
            assert(values@.len() == side * side);
        }
        // March every grid cell.
        let mut segments: Vec<crate::contour::Segment> = Vec::new();
        let mut cy: usize = 0;
        while cy < side - 1
            invariant
                self.wf(),
                1 <= g <= 2048,
                side == g + 1,
                0 <= csx,
                0 <= csy,
                forall|t: int|
                    0 <= t <= g ==> 0 <= #[trigger] (t * (csx as int)) <= (mx.x.raw - mn.x.raw),
                forall|t: int|
                    0 <= t <= g ==> 0 <= #[trigger] (t * (csy as int)) <= (mx.y.raw - mn.y.raw),
                mn.x.raw <= mx.x.raw <= 9_002_000_000_000,
                mn.y.raw <= mx.y.raw <= 9_002_000_000_000,
                -9_002_000_000_000 <= mn.x.raw <= 9_002_000_000_000,
                -9_002_000_000_000 <= mn.y.raw <= 9_002_000_000_000,
                csx <= mx.x.raw - mn.x.raw,
                csy <= mx.y.raw - mn.y.raw,
                values@.len() == side * side,
                forall|k: int|
                    0 <= k < values@.len() ==> -12 * FX_SCALE <= (#[trigger] values@[k]).raw <= 12
                        * FX_SCALE,
                forall|k: int|
                    0 <= k < values@.len() ==> (#[trigger] values@[k]).raw == grid_value(
                        self.binary_map,
                        self.config,
                        self.noise_seed,
                        mn.x.raw as int,
                        mn.y.raw as int,
                        csx as int,
                        csy as int,
                        k % (side as int),
                        k / (side as int),
                    ),
                cy <= side - 1,
                segs_in_range(segments@),
                segments@ == grid_rows_upto(
                    self.binary_map,
                    self.config,
                    self.noise_seed,
                    mn.x.raw as int,
                    mn.y.raw as int,
                    csx as int,
                    csy as int,
                    g as int,
                    cy as int,
                ),
            decreases side - 1 - cy,
        {
            let mut cx: usize = 0;
            while cx < side - 1
                invariant
                    self.wf(),
                    1 <= g <= 2048,
                    side == g + 1,
                    0 <= csx,
                    0 <= csy,
                    forall|t: int|
                        0 <= t <= g ==> 0 <= #[trigger] (t * (csx as int)) <= (mx.x.raw
                            - mn.x.raw),
                    forall|t: int|
                        0 <= t <= g ==> 0 <= #[trigger] (t * (csy as int)) <= (mx.y.raw
                            - mn.y.raw),
                    mn.x.raw <= mx.x.raw <= 9_002_000_000_000,
                    mn.y.raw <= mx.y.raw <= 9_002_000_000_000,
                    -9_002_000_000_000 <= mn.x.raw <= 9_002_000_000_000,
                    -9_002_000_000_000 <= mn.y.raw <= 9_002_000_000_000,
                    csx <= mx.x.raw - mn.x.raw,
                    csy <= mx.y.raw - mn.y.raw,
                    values@.len() == side * side,
                    forall|k: int|
                        0 <= k < values@.len() ==> -12 * FX_SCALE <= (#[trigger] values@[k]).raw
                            <= 12 * FX_SCALE,
                    forall|k: int|
                        0 <= k < values@.len() ==> (#[trigger] values@[k]).raw == grid_value(
                            self.binary_map,
                            self.config,
                            self.noise_seed,
                            mn.x.raw as int,
                            mn.y.raw as int,
                            csx as int,
                            csy as int,
                            k % (side as int),
                            k / (side as int),
                        ),
                    cy < side - 1,
                    cx <= side - 1,
                    segs_in_range(segments@),
                    segments@ == grid_rows_upto(
                        self.binary_map,
                        self.config,
                        self.noise_seed,
                        mn.x.raw as int,
                        mn.y.raw as int,
                        csx as int,
                        csy as int,
                        g as int,
                        cy as int,
                    ) + grid_row_segments(
                        self.binary_map,
                        self.config,
                        self.noise_seed,
                        mn.x.raw as int,
                        mn.y.raw as int,
                        csx as int,
                        csy as int,
                        cy as int,
                        cx as int,
                    ),
                decreases side - 1 - cx,
            {
                proof {
                    assert((side as int) * (side as int) <= 4_198_401) by (nonlinear_arith)
                        requires
                            2 <= side <= 2049,
                    ;
                    assert((cy as int) * (side as int) + cx + 1 < (side as int) * (side as int))
                        by (nonlinear_arith)
                        requires
                            0 <= cy < side - 1,
                            0 <= cx < side - 1,
                            2 <= side,
                    ;
                    assert((cy as int + 1) * (side as int) + cx + 1 < (side as int) * (
                    side as int)) by (nonlinear_arith)
                        requires
                            0 <= cy < side - 1,
                            0 <= cx < side - 1,
                            2 <= side,
                    ;
                    assert((cx as int + 1) * (csx as int) == (cx as int) * (csx as int) + (
                    csx as int)) by (nonlinear_arith);
                    assert((cy as int + 1) * (csy as int) == (cy as int) * (csy as int) + (
                    csy as int)) by (nonlinear_arith);
                }
                let c0: Fx = values[cy * side + cx];
                let c1: Fx = values[cy * side + cx + 1];
                let c2: Fx = values[(cy + 1) * side + cx + 1];
                let c3: Fx = values[(cy + 1) * side + cx];
                proof {
                    vstd::arithmetic::div_mod::lemma_fundamental_div_mod_converse(
                        (cy * side + cx) as int,
                        side as int,
                        cy as int,
                        cx as int,
                    );
                    vstd::arithmetic::div_mod::lemma_fundamental_div_mod_converse(
                        (cy * side + cx + 1) as int,
                        side as int,
                        cy as int,
                        cx as int + 1,
                    );
                    vstd::arithmetic::div_mod::lemma_fundamental_div_mod_converse(
                        ((cy + 1) * side + cx + 1) as int,
                        side as int,
                        cy as int + 1,
                        cx as int + 1,
                    );
                    vstd::arithmetic::div_mod::lemma_fundamental_div_mod_converse(
                        ((cy + 1) * side + cx) as int,
                        side as int,
                        cy as int + 1,
                        cx as int,
                    );
                }
                let corners: [Fx; 4] = [c0, c1, c2, c3];
                let bx: i64 = mn.x.raw + (cx as i64) * csx;
                let by: i64 = mn.y.raw + (cy as i64) * csy;
                let base: Pt2 = Pt2 { x: Fx { raw: bx }, y: Fx { raw: by } };
                let segs: Option<Vec<crate::contour::Segment>> =
                    crate::contour::marching_square_cell(
                    base,
                    Fx { raw: csx },
                    Fx { raw: csy },
                    &corners,
                    self.config.threshold,
                );
                let ghost pre_segments = segments@;
                let ghost cell_segs = crate::contour::ms_segments(
                    base,
                    csx as int,
                    csy as int,
                    c0.raw as int,
                    c1.raw as int,
                    c2.raw as int,
                    c3.raw as int,
                    self.config.threshold.raw as int,
                );
                match segs {
                    Some(v) => {
                        let mut si: usize = 0;
                        while si < v.len()
                            invariant
                                si <= v@.len(),
                                segs_in_range(segments@),
                                segments@ == pre_segments + v@.subrange(0, si as int),
                                v@ == cell_segs,
                                forall|k: int|
                                    0 <= k < v@.len() ==> {
                                        let sg = (#[trigger] v@[k]);
                                        &&& -VERTEX_POS_LIMIT <= sg.a.x.raw <= VERTEX_POS_LIMIT
                                        &&& -VERTEX_POS_LIMIT <= sg.a.y.raw <= VERTEX_POS_LIMIT
                                        &&& -VERTEX_POS_LIMIT <= sg.b.x.raw <= VERTEX_POS_LIMIT
                                        &&& -VERTEX_POS_LIMIT <= sg.b.y.raw <= VERTEX_POS_LIMIT
                                    },
                            decreases v@.len() - si,
                        {
                            proof {
                                assert(segments@ =~= pre_segments + v@.subrange(0, si as int));
                            }
                            segments.push(v[si]);
                            proof {
                                assert(segments@ =~= pre_segments + v@.subrange(0, si + 1));
                            }
                            si = si + 1;
                        }
                        proof {
                            assert(v@.subrange(0, v@.len() as int) =~= v@);
                        }
                    },
                    None => {
                        proof {
                            assert(cell_segs.len() == 0);
                            assert(segments@ =~= pre_segments + cell_segs);
                        }
                    },
                }
                proof {
                    assert(segments@ =~= pre_segments + cell_segs);
                    assert(grid_row_segments(
                        self.binary_map,
                        self.config,
                        self.noise_seed,
                        mn.x.raw as int,
                        mn.y.raw as int,
                        csx as int,
                        csy as int,
                        cy as int,
                        cx as int + 1,
                    ) =~= grid_row_segments(
                        self.binary_map,
                        self.config,
                        self.noise_seed,
                        mn.x.raw as int,
                        mn.y.raw as int,
                        csx as int,
                        csy as int,
                        cy as int,
                        cx as int,
                    ) + cell_segs);
                }
                cx = cx + 1;
            }
            proof {
                assert(grid_rows_upto(
                    self.binary_map,
                    self.config,
                    self.noise_seed,
                    mn.x.raw as int,
                    mn.y.raw as int,
                    csx as int,
                    csy as int,
                    g as int,
                    cy as int + 1,
                ) =~= grid_rows_upto(
                    self.binary_map,
                    self.config,
                    self.noise_seed,
                    mn.x.raw as int,
                    mn.y.raw as int,
                    csx as int,
                    csy as int,
                    g as int,
                    cy as int,
                ) + grid_row_segments(
                    self.binary_map,
                    self.config,
                    self.noise_seed,
                    mn.x.raw as int,
                    mn.y.raw as int,
                    csx as int,
                    csy as int,
                    cy as int,
                    g as int,
                ));
            }
            cy = cy + 1;
        }
        proof {
            assert(segments@ =~= grid_segments(
                self.binary_map,
                self.hex_layout,
                self.config,
                self.noise_seed,
                self.hex_cells@,
                grid_size as int,
            ));
        }
        assemble_and_smooth(&segments, self.config.spline_tension)
    }
}


impl OrganicContourSystem {
    /// Builds one mesh from a set of contours: every closed contour of at
    /// least three points is triangulated by ear clipping and the
    /// per-contour buffers are merged, each sub-buffer's indices offset by
    /// the running vertex count.  Contours that would push the buffers past
    /// the sixteen-bit index space are left out.
    pub fn generate_mesh(&self, contours: &Vec<ContourPath>) -> (mesh:
        crate::mesh::TerrainMeshData)
        requires
            forall|p: int| 0 <= p < contours@.len() ==> (#[trigger] contours@[p]).wf(),
        ensures
            mesh.wf(),
            crate::mesh::mesh_decomp(contours@, mesh),
    {
        crate::mesh::triangulate_contours(contours)
    }
}

} // verus!


