use nanorand::Rng;
use nanorand::WyRand;
use vstd::prelude::*;

verus! {

/// The generator that every random draw of the game goes through.
#[verifier::external_type_specification]
#[verifier::external_body]
pub struct ExWyRand(WyRand);

/// Relies on nanorand's `Rng::generate_range` for `usize` on `lo..hi`: the value
/// lies in `[lo, hi)`; it panics on an empty range, which `requires` leaves out.
#[verifier::external_body]
pub(crate) fn draw_below(rng: &mut WyRand, lo: usize, hi: usize) -> (r: usize)
    requires
        lo < hi,
    ensures
        lo <= r < hi,
{
    rng.generate_range(lo..hi)
}

} // verus!
