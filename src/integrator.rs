//! Control of the recursive radiance estimator.
//!
//! The estimator follows a light path one hit at a time with a hard budget
//! of bounces. At each step it either stops (budget spent, ray missed, or
//! the surface does not scatter) or traces one more ray with one bounce
//! less; which of these happens depends only on the remaining budget and on
//! what the closest hit offers, and is decided here.
use vstd::prelude::*;

verus! {

/// The bounce budget given to every camera ray.
pub const MAX_DEPTH: i64 = 32;

/// What the closest hit along a ray offers the estimator.
#[derive(Clone, Copy, Debug, PartialEq, Eq, Structural)]
pub enum Interaction {
    /// Nothing is hit: the ray leaves the scene.
    Miss,
    /// The surface's material declines to scatter; only its emission counts.
    Absorbed,
    /// The material scatters into one definite direction (mirror, glass),
    /// with no density to divide by.
    Specular,
    /// The material scatters by a density (diffuse), so the next direction is
    /// importance-sampled and weighted.
    Diffuse,
}

/// How the estimate at one step is formed.
#[derive(Clone, Copy, Debug, PartialEq, Eq, Structural)]
pub enum Estimate {
    /// Zero radiance.
    Black,
    /// The scene's background radiance.
    Background,
    /// The surface's own emission alone.
    Emitted,
    /// Emission plus the albedo times the radiance along the scattered ray,
    /// traced with `depth` bounces left.
    Attenuated { depth: i64 },
    /// Emission plus the albedo, weighted by scattering density over
    /// sampling density, times the radiance along a sampled direction,
    /// traced with `depth` bounces left.
    Weighted { depth: i64 },
}

/// The estimate formed with `depth` bounces left at a hit offering
/// `interaction`.
pub open spec fn estimate_spec(depth: int, interaction: Interaction) -> Estimate {
    if depth <= 0 {
        Estimate::Black
    } else {
        match interaction {
            Interaction::Miss => Estimate::Background,
            Interaction::Absorbed => Estimate::Emitted,
            Interaction::Specular => Estimate::Attenuated { depth: (depth - 1) as i64 },
            Interaction::Diffuse => Estimate::Weighted { depth: (depth - 1) as i64 },
        }
    }
}

/// Whether the bounce budget is spent: the estimate is then zero radiance
/// and the ray is not traced at all.
pub fn depth_exhausted(depth: i64) -> (r: bool)
    ensures
        r == (depth <= 0),
        r ==> forall|i: Interaction| #[trigger] estimate_spec(depth as int, i) == Estimate::Black,
{
    depth <= 0
}

/// How to form the estimate with `depth` bounces left when the closest hit
/// offers `interaction`.
pub fn next_estimate(depth: i64, interaction: Interaction) -> (r: Estimate)
    ensures
        r == estimate_spec(depth as int, interaction),
{
    if depth <= 0 {
        return Estimate::Black;
    }
    match interaction {
        Interaction::Miss => Estimate::Background,
        Interaction::Absorbed => Estimate::Emitted,
        Interaction::Specular => Estimate::Attenuated { depth: depth - 1 },
        Interaction::Diffuse => Estimate::Weighted { depth: depth - 1 },
    }
}

/// The number of rays traced after the first when the estimator starts with
/// `depth` bounces left and successive hits offer `hits` (a path that runs
/// past the end of `hits` stops there).
pub open spec fn rays_traced(depth: int, hits: Seq<Interaction>) -> nat
    decreases hits.len(),
{
    if hits.len() == 0 {
        0
    } else {
        match estimate_spec(depth, hits[0]) {
            Estimate::Attenuated { depth: d } => 1 + rays_traced(d as int, hits.drop_first()),
            Estimate::Weighted { depth: d } => 1 + rays_traced(d as int, hits.drop_first()),
            _ => 0,
        }
    }
}

/// With no bounces left the estimate is exactly zero radiance, whatever the
/// ray and the scene.
pub proof fn lemma_zero_depth_is_black(interaction: Interaction)
    ensures
        estimate_spec(0, interaction) == Estimate::Black,
        rays_traced(0, seq![interaction]) == 0,
{
}

/// The budget is a hard cutoff: whatever the hits along a path, the
/// estimator started with `depth` bounces traces at most `depth` further
/// rays, and none when `depth <= 0`.
pub proof fn lemma_path_length_bounded(depth: i64, hits: Seq<Interaction>)
    ensures
        rays_traced(depth as int, hits) <= if depth > 0 {
            depth as int
        } else {
            0
        },
    decreases hits.len(),
{
    if hits.len() > 0 && depth > 0 {
        lemma_path_length_bounded((depth - 1) as i64, hits.drop_first());
    }
}

} // verus!
