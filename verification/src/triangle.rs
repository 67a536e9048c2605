//! Triangles of the dual grid: each hex cell fans into six triangles from
//! its center to its edges; their ids name the owning cell and fan index.

use vstd::prelude::*;
use crate::geom::Pt2;
use crate::hex::HexCoord;

verus! {

/// Identifier of one dual-grid triangle: the owning cell and its fan index.
#[derive(Clone, Copy, PartialEq, Eq, Structural, Debug, Hash)]
pub struct TriangleId {
    pub hex: HexCoord,
    pub index: usize,
}

/// One triangle of the dual grid.
#[derive(Clone, Copy, Debug)]
pub struct Triangle {
    pub id: TriangleId,
    pub vertices: [Pt2; 3],
}

} // verus!
