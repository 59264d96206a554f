//! Sampling strategies: the discrete choices that they draw at random.
use rand::Rng;
use vstd::prelude::*;

verus! {

/// Relies on rand::Rng::gen_range on rand::thread_rng: a value drawn
/// uniformly from `0..n`; it panics on an empty range.
#[verifier::external_body]
fn draw_below(n: usize) -> (r: usize)
    requires
        n > 0,
    ensures
        r < n,
{
    rand::thread_rng().gen_range(0..n)
}

/// Cosine-weighted sampling of directions over the hemisphere about a
/// surface normal: the density is `max(0, cos theta) / pi`.
#[derive(Clone, Copy, Debug, PartialEq, Eq, Structural)]
pub struct CosinePdf {}

impl CosinePdf {
    pub fn new() -> (r: CosinePdf)
        ensures
            r == (CosinePdf {}),
    {
        CosinePdf {}
    }
}

/// Which of a light list's `count` members a light-sampling direction aims
/// at, drawn uniformly. Sampling toward an empty list has no meaning.
pub fn choose_light_child(count: usize) -> (r: usize)
    requires
        count > 0,
    ensures
        r < count,
{
    draw_below(count)
}

/// Which of the two densities of an even mixture draws the next direction
/// (0 for the first, 1 for the second), by a fair coin.
pub fn choose_mixture_component() -> (r: usize)
    ensures
        r < 2,
{
    draw_below(2)
}

} // verus!
