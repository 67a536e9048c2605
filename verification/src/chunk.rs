//! Chunk identifiers: a coarser-resolution grouping of hex cells, the unit of
//! load and unload.  A chunk id is derived from a fine coordinate by flooring
//! each axial component to a multiple of the chunk size, and maps back to a
//! representative center cell inside the same footprint.

use vstd::prelude::*;
use vstd::arithmetic::div_mod::{lemma_fundamental_div_mod, lemma_fundamental_div_mod_converse};
use crate::hex::{
    HexCoord, hex_dist, coord_in_bounds, neighbor_of, ring_seq, range_seq, rings_seq, RADIUS_LIMIT,
    COORD_LIMIT,
};
use crate::intmath::{flr_div, lemma_flr_div_bounds};

verus! {

/// Identifier of a chunk: a coarse coordinate plus the chunk size it was
/// derived with.
#[derive(Clone, Copy, PartialEq, Eq, Structural, Debug, Hash)]
pub struct ChunkId {
    pub coord: HexCoord,
    pub size: u8,
}

/// The coarse coordinate of the chunk holding `h`, for a chunk size of
/// `size` cells per axis: each axial component floored to its multiple.
pub open spec fn chunk_of(h: HexCoord, size: int) -> HexCoord {
    HexCoord { q: ((h.q as int) / size) as i32, r: ((h.r as int) / size) as i32 }
}

/// The representative fine cell at the middle of a chunk's footprint.
pub open spec fn center_of(c: HexCoord, size: int) -> HexCoord {
    HexCoord {
        q: (c.q * size + size / 2) as i32,
        r: (c.r * size + size / 2) as i32,
    }
}

/// Whether a chunk coordinate is small enough that its center stays in the
/// working coordinate range.
pub open spec fn chunk_coord_in_bounds(c: HexCoord, size: int) -> bool {
    -COORD_LIMIT <= c.q * size && c.q * size + size <= COORD_LIMIT && -COORD_LIMIT <= c.r * size
        && c.r * size + size <= COORD_LIMIT
}

impl ChunkId {
    /// Pairs a coarse coordinate with its chunk size.
    pub fn new(coord: HexCoord, size: u8) -> (c: ChunkId)
        ensures
            c.coord == coord,
            c.size == size,
    {
        ChunkId { coord, size }
    }

    /// The chunk holding the given fine coordinate.
    pub fn from_hex_coord(coord: HexCoord, chunk_size: u8) -> (c: ChunkId)
        requires
            coord_in_bounds(coord),
            chunk_size >= 1,
        ensures
            c.coord == chunk_of(coord, chunk_size as int),
            c.size == chunk_size,
            coord_in_bounds(c.coord),
    {
        let s: i64 = chunk_size as i64;
        proof {
            assert((-(COORD_LIMIT as int)) * (s as int) <= -(COORD_LIMIT as int)) by (nonlinear_arith)
                requires
                    1 <= s,
            ;
            assert((COORD_LIMIT as int) * (s as int) >= COORD_LIMIT as int) by (nonlinear_arith)
                requires
                    1 <= s,
            ;
            lemma_flr_div_bounds(coord.q as int, s as int, -(COORD_LIMIT as int), COORD_LIMIT as int);
            lemma_flr_div_bounds(coord.r as int, s as int, -(COORD_LIMIT as int), COORD_LIMIT as int);
        }
        let cq: i64 = flr_div(coord.q as i64, s);
        let cr: i64 = flr_div(coord.r as i64, s);
        ChunkId { coord: HexCoord { q: cq as i32, r: cr as i32 }, size: chunk_size }
    }

    /// The representative fine cell at the middle of this chunk's footprint.
    pub fn to_center(&self) -> (h: HexCoord)
        requires
            self.size >= 1,
            chunk_coord_in_bounds(self.coord, self.size as int),
        ensures
            h == center_of(self.coord, self.size as int),
            coord_in_bounds(h),
    {
        let s: i64 = self.size as i64;
        let q: i64 = (self.coord.q as i64) * s + s / 2;
        let r: i64 = (self.coord.r as i64) * s + s / 2;
        HexCoord { q: q as i32, r: r as i32 }
    }

    /// The q component of the coarse coordinate.
    pub fn q(&self) -> (q: i32)
        ensures
            q == self.coord.q,
    {
        self.coord.q
    }

    /// The r component of the coarse coordinate.
    pub fn r(&self) -> (r: i32)
        ensures
            r == self.coord.r,
    {
        self.coord.r
    }

    /// Hex distance between the coarse coordinates of two chunks.
    pub fn distance(&self, other: &ChunkId) -> (d: u32)
        requires
            coord_in_bounds(self.coord),
            coord_in_bounds(other.coord),
        ensures
            d == hex_dist(self.coord, other.coord),
    {
        self.coord.distance(&other.coord)
    }

    /// The six adjacent chunks, with the same chunk size.
    pub fn neighbors(&self) -> (out: [ChunkId; 6])
        requires
            coord_in_bounds(self.coord),
        ensures
            forall|i: int|
                0 <= i < 6 ==> out[i] == (ChunkId {
                    coord: neighbor_of(self.coord, i),
                    size: self.size,
                }),
    {
        let n = self.coord.neighbors();
        [
            ChunkId { coord: n[0], size: self.size },
            ChunkId { coord: n[1], size: self.size },
            ChunkId { coord: n[2], size: self.size },
            ChunkId { coord: n[3], size: self.size },
            ChunkId { coord: n[4], size: self.size },
            ChunkId { coord: n[5], size: self.size },
        ]
    }

    /// The chunks whose coarse coordinates lie within `radius` of this one.
    pub fn range(&self, radius: u32) -> (out: Vec<ChunkId>)
        requires
            coord_in_bounds(self.coord),
            radius <= RADIUS_LIMIT,
        ensures
            out@.len() == range_seq(self.coord, radius as int).len(),
            forall|k: int|
                0 <= k < out@.len() ==> out@[k] == (ChunkId {
                    coord: range_seq(self.coord, radius as int)[k],
                    size: self.size,
                }),
    {
        let cells: Vec<HexCoord> = self.coord.range(radius);
        let mut out: Vec<ChunkId> = Vec::new();
        let mut i: usize = 0;
        while i < cells.len()
            invariant
                cells@ == range_seq(self.coord, radius as int),
                i <= cells@.len(),
                out@.len() == i as int,
                forall|k: int|
                    0 <= k < i ==> out@[k] == (ChunkId { coord: cells@[k], size: self.size }),
            decreases cells@.len() - i,
        {
            out.push(ChunkId { coord: cells[i], size: self.size });
            i = i + 1;
        }
        out
    }

    /// The chunks whose coarse coordinates lie at exactly `radius`.
    pub fn ring(&self, radius: u32) -> (out: Vec<ChunkId>)
        requires
            coord_in_bounds(self.coord),
            radius <= RADIUS_LIMIT,
        ensures
            out@.len() == ring_seq(self.coord, radius as int).len(),
            forall|k: int|
                0 <= k < out@.len() ==> out@[k] == (ChunkId {
                    coord: ring_seq(self.coord, radius as int)[k],
                    size: self.size,
                }),
    {
        let cells: Vec<HexCoord> = self.coord.ring(radius);
        let mut out: Vec<ChunkId> = Vec::new();
        let mut i: usize = 0;
        while i < cells.len()
            invariant
                cells@ == ring_seq(self.coord, radius as int),
                i <= cells@.len(),
                out@.len() == i as int,
                forall|k: int|
                    0 <= k < i ==> out@[k] == (ChunkId { coord: cells@[k], size: self.size }),
            decreases cells@.len() - i,
        {
            out.push(ChunkId { coord: cells[i], size: self.size });
            i = i + 1;
        }
        out
    }

    /// The chunks on the rings at each radius of `radii`, in order.
    pub fn rings(&self, radii: &Vec<u32>) -> (out: Vec<ChunkId>)
        requires
            coord_in_bounds(self.coord),
            forall|i: int| 0 <= i < radii@.len() ==> radii@[i] <= RADIUS_LIMIT,
        ensures
            out@.len() == rings_seq(self.coord, radii@).len(),
            forall|k: int|
                0 <= k < out@.len() ==> out@[k] == (ChunkId {
                    coord: rings_seq(self.coord, radii@)[k],
                    size: self.size,
                }),
    {
        let cells: Vec<HexCoord> = self.coord.rings(radii);
        let mut out: Vec<ChunkId> = Vec::new();
        let mut i: usize = 0;
        while i < cells.len()
            invariant
                cells@ == rings_seq(self.coord, radii@),
                i <= cells@.len(),
                out@.len() == i as int,
                forall|k: int|
                    0 <= k < i ==> out@[k] == (ChunkId { coord: cells@[k], size: self.size }),
            decreases cells@.len() - i,
        {
            out.push(ChunkId { coord: cells[i], size: self.size });
            i = i + 1;
        }
        out
    }

    /// The chunk under a world position, for the given layout.
    pub fn from_position(
        position: crate::geom::Pt2,
        layout: &crate::layout::HexLayout,
        chunk_size: u8,
    ) -> (c: ChunkId)
        requires
            layout.wf(),
            crate::hex::abs_val(position.x.raw as int) <= (layout.scale_x.raw as int) * 90_000_000,
            crate::hex::abs_val(position.y.raw as int) <= (layout.scale_y.raw as int) * 90_000_000,
            chunk_size >= 1,
        ensures
            c.coord == chunk_of(layout.hex_of_world(position), chunk_size as int),
            c.size == chunk_size,
            coord_in_bounds(c.coord),
    {
        let h: HexCoord = layout.world_pos_to_hex(position);
        ChunkId::from_hex_coord(h, chunk_size)
    }
}

/// A chunk's footprint is the half-open square of side `size` at its scaled
/// coordinate: `chunk_of` sends a cell to `c` exactly when the cell lies in
/// `c`'s footprint.
pub proof fn lemma_chunk_footprint(h: HexCoord, c: HexCoord, size: int)
    requires
        1 <= size,
    ensures
        chunk_of(h, size) == c <==> (c.q * size <= h.q < c.q * size + size && c.r * size <= h.r
            < c.r * size + size),
{
    if c.q * size <= h.q < c.q * size + size && c.r * size <= h.r < c.r * size + size {
        lemma_fundamental_div_mod_converse(h.q as int, size, c.q as int, h.q - c.q * size);
        lemma_fundamental_div_mod_converse(h.r as int, size, c.r as int, h.r - c.r * size);
    }
    if chunk_of(h, size) == c {
        lemma_fundamental_div_mod(h.q as int, size);
        lemma_fundamental_div_mod(h.r as int, size);
        let q = (h.q as int) / size;
        let r = (h.r as int) / size;
        assert(-0x8000_0000 <= q <= 0x7fff_ffff) by {
            lemma_flr_div_bounds(h.q as int, size, -0x8000_0000, 0x7fff_ffff);
            assert((-0x8000_0000) * size <= -0x8000_0000 <= h.q) by (nonlinear_arith)
                requires
                    1 <= size,
            ;
            assert(h.q <= 0x7fff_ffff <= 0x7fff_ffff * size + (size - 1)) by (nonlinear_arith)
                requires
                    1 <= size,
            ;
        }
        assert(-0x8000_0000 <= r <= 0x7fff_ffff) by {
            lemma_flr_div_bounds(h.r as int, size, -0x8000_0000, 0x7fff_ffff);
            assert((-0x8000_0000) * size <= -0x8000_0000 <= h.r) by (nonlinear_arith)
                requires
                    1 <= size,
            ;
            assert(h.r <= 0x7fff_ffff <= 0x7fff_ffff * size + (size - 1)) by (nonlinear_arith)
                requires
                    1 <= size,
            ;
        }
        assert(c.q == q && c.r == r);
        assert(size * q == q * size) by (nonlinear_arith);
        assert(size * r == r * size) by (nonlinear_arith);
    }
}

/// Resolution round trip: the chunk of a chunk's center is the chunk itself,
/// so the center cell a chunk maps back to is independent of which fine cell
/// inside the footprint the chunk was derived from.
pub proof fn lemma_chunk_center_round_trip(c: HexCoord, size: int)
    requires
        1 <= size,
        chunk_coord_in_bounds(c, size),
    ensures
        chunk_of(center_of(c, size), size) == c,
{
    lemma_fundamental_div_mod(size, 2);
    let h = center_of(c, size);
    assert(h.q == c.q * size + size / 2 && h.r == c.r * size + size / 2);
    lemma_chunk_footprint(h, c, size);
}

/// Two fine cells in the same chunk map back to the same center.
pub proof fn lemma_center_independent(h1: HexCoord, h2: HexCoord, size: int)
    requires
        1 <= size,
        chunk_of(h1, size) == chunk_of(h2, size),
    ensures
        center_of(chunk_of(h1, size), size) == center_of(chunk_of(h2, size), size),
{
}

} // verus!
