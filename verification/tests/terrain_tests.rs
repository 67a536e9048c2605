//! Raster sampling, classification, the layout conversions, the noise
//! field, and the staged pipeline end to end.

use hexterra::fixed::Fx;
use hexterra::geom::Pt2;
use hexterra::path::ContourPath;
use hexterra::hex::HexCoord;
use hexterra::layout::{HexLayout, HexOrientation};
use hexterra::noise::{fractal_noise, noise_at};
use hexterra::pipeline::{
    generate_low_resolution, generate_terrain, triangulate_mesh, update_progress,
    upscale_terrain_data, GenerationStage, TerrainGenerationProgress, TerrainSettings,
};
use hexterra::raster::GrayMap;
use hexterra::sampler::{sample_binary_map_for_hex, ContourConfig, OrganicContourSystem};
use hexterra::terrain::{determine_terrain_type, TerrainType};

fn fx(raw: i64) -> Fx {
    Fx { raw }
}

/// A small raster: a white (land) disk on a black (water) field.
fn island_map(side: u32) -> GrayMap {
    let mut pixels = Vec::new();
    let c = side as i64 / 2;
    for y in 0..side as i64 {
        for x in 0..side as i64 {
            let dx = x - c;
            let dy = y - c;
            if dx * dx + dy * dy <= (side as i64 / 8) * (side as i64 / 8) {
                pixels.push(255u8);
            } else {
                pixels.push(0u8);
            }
        }
    }
    GrayMap::new(side, side, pixels).unwrap()
}

fn flat_layout() -> HexLayout {
    HexLayout::new(HexOrientation::Flat, fx(2_000_000), fx(2_000_000))
}

#[test]
fn raster_reads_pixels_and_water_out_of_range() {
    let map = island_map(16);
    assert_eq!(map.get_pixel_value(8, 8).raw, 1_000_000);
    assert_eq!(map.get_pixel_value(0, 0).raw, 0);
    assert_eq!(map.get_pixel_value(-1, 5).raw, 0);
    assert_eq!(map.get_pixel_value(5, 99).raw, 0);
}

#[test]
fn bilinear_sampling_blends_between_pixels() {
    let mut pixels = vec![0u8; 4];
    pixels[0] = 255;
    let map = GrayMap::new(2, 2, pixels).unwrap();
    // Exactly on the white pixel.
    assert_eq!(map.sample_at_position(fx(0), fx(0)).raw, 1_000_000);
    // Halfway toward the black neighbor.
    assert_eq!(map.sample_at_position(fx(500_000), fx(0)).raw, 500_000);
}

#[test]
fn classification_covers_all_five_categories() {
    let th = fx(500_000);
    let land = fx(900_000);
    let water = fx(100_000);
    // Interior land: all neighbors agree.
    let r = determine_terrain_type(land, &[land, land, land, land, land, land], th);
    assert_eq!(r.0, TerrainType::Land);
    assert!(!r.1);
    // Border land is cliff.
    let r = determine_terrain_type(land, &[water, land, land, land, land, land], th);
    assert_eq!(r.0, TerrainType::Cliff);
    assert!(r.1);
    // Border water is beach.
    let r = determine_terrain_type(water, &[water, land, land, water, water, water], th);
    assert_eq!(r.0, TerrainType::Beach);
    assert!(r.1);
    // Water surrounded by land only is shallow.
    let r = determine_terrain_type(water, &[land, land, land, land, land, land], th);
    assert_eq!(r.0, TerrainType::ShallowWater);
    assert!(!r.1);
    // Water with no land anywhere is deep.
    let r = determine_terrain_type(water, &[water, water, water, water, water, water], th);
    assert_eq!(r.0, TerrainType::DeepWater);
    assert!(!r.1);
}

#[test]
fn layout_round_trip_returns_the_cell() {
    let layout = flat_layout();
    for (q, r) in [(0, 0), (3, -2), (-5, 4), (10, 10)] {
        let h = HexCoord::new(q, r);
        let w = layout.hex_to_world_pos(h);
        assert_eq!(layout.world_pos_to_hex(w), h);
    }
}

#[test]
fn pointy_layout_round_trip_returns_the_cell() {
    let layout = HexLayout::new(HexOrientation::Pointy, fx(1_500_000), fx(1_500_000));
    for (q, r) in [(0, 0), (2, 3), (-4, 1)] {
        let h = HexCoord::new(q, r);
        let w = layout.hex_to_world_pos(h);
        assert_eq!(layout.world_pos_to_hex(w), h);
    }
}

#[test]
fn noise_is_deterministic_and_bounded() {
    let a = noise_at(42, fx(123_456), fx(-654_321), 500_000);
    let b = noise_at(42, fx(123_456), fx(-654_321), 500_000);
    assert_eq!(a.raw, b.raw);
    assert!(a.raw >= -4_000_000 && a.raw <= 4_000_000);
    let c = noise_at(43, fx(123_456), fx(-654_321), 500_000);
    let d = noise_at(42, fx(123_457), fx(-654_321), 500_000);
    // Another seed or position gives an independent value.
    assert!(c.raw != a.raw || d.raw != a.raw);
    let f = fractal_noise(42, fx(123_456), fx(-654_321), 500_000, fx(1_000_000), 3);
    let g = fractal_noise(42, fx(123_456), fx(-654_321), 500_000, fx(1_000_000), 3);
    assert_eq!(f.raw, g.raw);
    assert!(f.raw >= -8_000_000 && f.raw <= 8_000_000);
}

#[test]
fn fractal_noise_with_zero_octaves_is_silent() {
    let f = fractal_noise(7, fx(1), fx(2), 1_000, fx(1_000_000), 0);
    assert_eq!(f.raw, 0);
}

#[test]
fn sampler_reads_land_at_the_island_center() {
    let map = island_map(64);
    let layout = flat_layout();
    let config = ContourConfig::default();
    // The origin cell sits at the raster center, on land.
    let v = sample_binary_map_for_hex(&map, HexCoord::new(0, 0), &layout, &config);
    assert_eq!(v.raw, 1_000_000);
    // A far-away cell maps outside the raster: water.
    let v = sample_binary_map_for_hex(&map, HexCoord::new(200, 0), &layout, &config);
    assert_eq!(v.raw, 0);
}

#[test]
fn grid_initialization_classifies_and_measures_distance() {
    let map = island_map(64);
    let layout = flat_layout();
    let config = ContourConfig {
        noise_amplitude: fx(0),
        ..ContourConfig::default()
    };
    let mut system = OrganicContourSystem::new(map, layout, config);
    system.initialize_hex_grid(12);
    assert_eq!(system.hex_cells.len(), (3 * 12 * 13 + 1) as usize);
    // The grid holds both land and water somewhere.
    assert!(system.hex_cells.iter().any(|c| c.sample_value.raw > 500_000));
    assert!(system.hex_cells.iter().any(|c| c.sample_value.raw <= 500_000));
    // There is a border, and border cells carry distance zero.
    assert!(system.hex_cells.iter().any(|c| c.is_border));
    for c in &system.hex_cells {
        if c.is_border {
            assert_eq!(c.distance_to_edge, 0);
        } else {
            assert!(c.distance_to_edge > 0);
        }
    }
}

#[test]
fn dual_triangle_extraction_finds_the_coastline() {
    let map = island_map(64);
    let layout = flat_layout();
    let config = ContourConfig {
        noise_amplitude: fx(0),
        ..ContourConfig::default()
    };
    let mut system = OrganicContourSystem::new(map, layout, config);
    system.initialize_hex_grid(12);
    let contours = system.generate_organic_contours();
    assert!(!contours.is_empty());
    for c in &contours {
        assert!(c.points.len() >= 2);
    }
}

#[test]
fn grid_extraction_finds_the_coastline() {
    let map = island_map(64);
    let layout = flat_layout();
    let config = ContourConfig {
        noise_amplitude: fx(0),
        ..ContourConfig::default()
    };
    let mut system = OrganicContourSystem::new(map, layout, config);
    system.initialize_hex_grid(12);
    let contours = system.generate_organic_contours_global(24);
    assert!(!contours.is_empty());
}

#[test]
fn pipeline_produces_a_well_formed_mesh() {
    let map = island_map(64);
    let layout = flat_layout();
    let config = ContourConfig {
        noise_amplitude: fx(0),
        ..ContourConfig::default()
    };
    let system = OrganicContourSystem::new(map, layout, config);
    let settings = TerrainSettings::default();
    let mut progress = TerrainGenerationProgress::new();
    assert_eq!(progress.stage, GenerationStage::Idle);
    let mesh = generate_terrain(&system, 12, &settings, &mut progress);
    assert_eq!(progress.stage, GenerationStage::Complete);
    assert_eq!(progress.progress.raw, 1_000_000);
    assert_eq!(mesh.indices.len() % 3, 0);
    assert_eq!(mesh.normals.len(), mesh.vertices.len());
    assert_eq!(mesh.uvs.len(), mesh.vertices.len());
    for idx in &mesh.indices {
        assert!((*idx as usize) < mesh.vertices.len());
    }
}

#[test]
fn low_resolution_pass_yields_unsmoothed_contours() {
    let map = island_map(64);
    let layout = flat_layout();
    let config = ContourConfig {
        noise_amplitude: fx(0),
        ..ContourConfig::default()
    };
    let system = OrganicContourSystem::new(map, layout, config);
    let contours = generate_low_resolution(&system, 12);
    assert!(!contours.is_empty());
    let mesh = triangulate_mesh(&contours);
    assert_eq!(mesh.indices.len() % 3, 0);
}

#[test]
fn progress_updates_replace_the_snapshot() {
    let mut progress = TerrainGenerationProgress::new();
    update_progress(
        &mut progress,
        GenerationStage::SmoothingContours,
        fx(400_000),
        String::from("smoothing"),
    );
    assert_eq!(progress.stage, GenerationStage::SmoothingContours);
    assert_eq!(progress.progress.raw, 400_000);
    assert_eq!(progress.message, "smoothing");
}

#[test]
fn system_mesh_from_extracted_contours() {
    let map = island_map(64);
    let layout = flat_layout();
    let config = ContourConfig {
        noise_amplitude: fx(0),
        ..ContourConfig::default()
    };
    let mut system = OrganicContourSystem::new(map, layout, config);
    system.initialize_hex_grid(12);
    let contours = system.generate_organic_contours();
    let mesh = system.generate_mesh(&contours);
    assert_eq!(mesh.indices.len() % 3, 0);
    assert_eq!(mesh.normals.len(), mesh.vertices.len());
    assert_eq!(mesh.uvs.len(), mesh.vertices.len());
    for idx in &mesh.indices {
        assert!((*idx as usize) < mesh.vertices.len());
    }
}

#[test]
fn upscale_divides_points_by_the_scale_factor() {
    let path = ContourPath {
        points: vec![
            Pt2 { x: fx(1_000_000), y: fx(-2_000_000) },
            Pt2 { x: fx(500_000), y: fx(0) },
        ],
        is_closed: false,
    };
    let out = upscale_terrain_data(&vec![path], fx(500_000), false);
    assert_eq!(out.len(), 1);
    assert!(!out[0].is_closed);
    assert_eq!(out[0].points.len(), 2);
    assert_eq!(out[0].points[0], Pt2 { x: fx(2_000_000), y: fx(-4_000_000) });
    assert_eq!(out[0].points[1], Pt2 { x: fx(1_000_000), y: fx(0) });
}

#[test]
fn sampling_stays_inside_the_pixel_envelope() {
    let map = island_map(16);
    // Between two pixels the sample sits within two millionths of the
    // four surrounding pixel values.
    let v = map.sample_at_position(fx(7_300_000), fx(8_100_000));
    assert!(v.raw >= -2 && v.raw <= 1_000_000);
}
