//! Contour paths: ordered point sequences with a closed/open flag, produced
//! by assembly and smoothing and consumed by triangulation.

use vstd::prelude::*;
use crate::geom::{pt_wf, Pt2};

verus! {

/// An ordered polyline or polygon approximating a terrain boundary.
#[derive(Clone)]
pub struct ContourPath {
    pub points: Vec<Pt2>,
    pub is_closed: bool,
}

impl ContourPath {
    /// All points of the path are well-formed.
    pub open spec fn wf(self) -> bool {
        forall|i: int| 0 <= i < self.points@.len() ==> pt_wf(#[trigger] self.points@[i])
    }

    /// A path over the given points.
    pub fn new(points: Vec<Pt2>, is_closed: bool) -> (p: ContourPath)
        ensures
            p.points@ == points@,
            p.is_closed == is_closed,
    {
        ContourPath { points, is_closed }
    }
}

} // verus!
