//! Procedural hexagonal terrain library.
//!
//! The crate derives renderable land/water geometry from a binary raster
//! projected onto a hexagonal grid, and manages which spatial chunks of that
//! geometry are materialized as a viewer moves.  All arithmetic that the
//! original domain expresses over floating point is carried out here in
//! fixed-point (millionths), so that every algorithm can be verified.

pub mod assemble;
pub mod cache;
pub mod chunk;
pub mod contour;
pub mod fixed;
pub mod geom;
pub mod hex;
pub mod intmath;
pub mod layout;
pub mod mesh;
pub mod noise;
pub mod path;
pub mod pipeline;
pub mod raster;
pub mod sampler;
pub mod spline;
pub mod streaming;
pub mod terrain;
pub mod triangle;
