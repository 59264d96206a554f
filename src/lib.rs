//! Verified core of a Monte Carlo path tracer: the integer and decision
//! logic of the renderer. It plans the bounding volume hierarchy over the
//! scene's primitives, looks up bitmap textures, orients axis-aligned
//! rectangles, steers the recursive radiance estimator under its bounce
//! budget, lays out the raster and its stratified samples, and makes the
//! discrete random choices of light sampling.
use vstd::prelude::*;

pub mod bvh;
pub mod geometry;
pub mod integrator;
pub mod raster;
pub mod sampling;
pub mod texture;

pub use bvh::{build_layout, BvhLayout, Centroid};
pub use geometry::RectAxisType;
pub use integrator::{depth_exhausted, next_estimate, Estimate, Interaction, MAX_DEPTH};
pub use raster::{subpixel_cell, subpixel_sample_count, Raster};
pub use sampling::{choose_light_child, choose_mixture_component, CosinePdf};
pub use texture::{ImageTexture, Rgb8};

verus! {

} // verus!
