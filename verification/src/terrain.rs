//! Terrain categories and the neighbor-vote classification of sampled
//! cells.  A cell is land when its sample exceeds the threshold; it is a
//! border cell when its six neighbors do not all agree with each other.

use vstd::prelude::*;
use crate::fixed::Fx;
use crate::hex::HexCoord;

verus! {

/// The terrain category of a cell.
#[derive(Clone, Copy, PartialEq, Eq, Structural, Debug)]
pub enum TerrainType {
    DeepWater,
    ShallowWater,
    Beach,
    Cliff,
    Land,
}

/// Per-cell classification result, produced once per generation pass.
#[derive(Clone, Copy, PartialEq, Eq, Structural, Debug)]
pub struct CellData {
    pub coord: HexCoord,
    pub terrain_type: TerrainType,
    pub is_border: bool,
    pub sample_value: Fx,
    pub distance_to_edge: u32,
}

/// How many of the values exceed the threshold.
pub open spec fn count_land(vals: Seq<int>, th: int) -> int
    decreases vals.len(),
{
    if vals.len() == 0 {
        0
    } else {
        count_land(vals.drop_last(), th) + (if vals.last() > th {
            1int
        } else {
            0int
        })
    }
}

/// The terrain category for a sample with the given neighbor votes: border
/// land is cliff, interior land is land; border water is beach, interior
/// water with land in sight is shallow, and deep only with no land
/// neighbors at all.
pub open spec fn classify_spec(sample: int, land_n: int, water_n: int, th: int) -> TerrainType {
    let is_land = sample > th;
    let is_border = land_n > 0 && water_n > 0;
    if is_land {
        if is_border {
            TerrainType::Cliff
        } else {
            TerrainType::Land
        }
    } else {
        if is_border {
            TerrainType::Beach
        } else if land_n > 0 {
            TerrainType::ShallowWater
        } else {
            TerrainType::DeepWater
        }
    }
}

/// The border flag for the given neighbor votes.
pub open spec fn border_spec(land_n: int, water_n: int) -> bool {
    land_n > 0 && water_n > 0
}

/// The vote count never leaves `[0, len]`.
pub proof fn lemma_count_land_range(vals: Seq<int>, th: int)
    ensures
        0 <= count_land(vals, th) <= vals.len(),
    decreases vals.len(),
{
    if vals.len() > 0 {
        lemma_count_land_range(vals.drop_last(), th);
    }
}

/// With six neighbors the land and water votes always sum to six, so a cell
/// with neither land nor water neighbors cannot exist.
pub proof fn lemma_votes_total(vals: Seq<int>, th: int)
    requires
        vals.len() == 6,
    ensures
        count_land(vals, th) + (6 - count_land(vals, th)) == 6,
        !(count_land(vals, th) == 0 && 6 - count_land(vals, th) == 0),
{
    lemma_count_land_range(vals, th);
}

/// Classifies a cell from its own sample and its six neighbors' samples:
/// returns the terrain category and the border flag.
pub fn determine_terrain_type(sample: Fx, neighbor_vals: &[Fx; 6], threshold: Fx) -> (r: (
    TerrainType,
    bool,
))
    ensures
        ({
            let vals = Seq::new(6, |i: int| neighbor_vals[i].raw as int);
            let land_n = count_land(vals, threshold.raw as int);
            &&& r.0 == classify_spec(sample.raw as int, land_n, 6 - land_n, threshold.raw as int)
            &&& r.1 == border_spec(land_n, 6 - land_n)
        }),
{
    let ghost vals = Seq::new(6, |i: int| neighbor_vals[i].raw as int);
    let mut land_neighbors: u32 = 0;
    let mut water_neighbors: u32 = 0;
    let mut i: usize = 0;
    while i < 6
        invariant
            i <= 6,
            vals == Seq::new(6, |k: int| neighbor_vals[k].raw as int),
            land_neighbors == count_land(vals.subrange(0, i as int), threshold.raw as int),
            land_neighbors + water_neighbors == i,
        decreases 6 - i,
    {
        proof {
            assert(vals.subrange(0, i + 1).drop_last() =~= vals.subrange(0, i as int));
            assert(vals.subrange(0, i + 1).last() == neighbor_vals[i as int].raw as int);
            crate::terrain::lemma_count_land_range(
                vals.subrange(0, i as int),
                threshold.raw as int,
            );
        }
        if neighbor_vals[i].raw > threshold.raw {
            land_neighbors = land_neighbors + 1;
        } else {
            water_neighbors = water_neighbors + 1;
        }
        i = i + 1;
    }
    proof {
        assert(vals.subrange(0, 6) =~= vals);
    }
    let is_land: bool = sample.raw > threshold.raw;
    let is_border: bool = land_neighbors > 0 && water_neighbors > 0;
    let terrain_type: TerrainType = if is_land {
        if is_border {
            TerrainType::Cliff
        } else {
            TerrainType::Land
        }
    } else {
        if is_border {
            TerrainType::Beach
        } else if land_neighbors > 0 {
            TerrainType::ShallowWater
        } else {
            TerrainType::DeepWater
        }
    };
    (terrain_type, is_border)
}

} // verus!
