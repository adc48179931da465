//! Draws from a seeded `rand::rngs::StdRng`, threaded explicitly through every
//! generator so that one seed fixes every generated input.

use vstd::prelude::*;

verus! {

#[verifier::external_type_specification]
#[verifier::external_body]
pub struct ExStdRng(rand::rngs::StdRng);

/// Relies on `rand::Rng::gen_range` over `lo..=hi` for `i32`: a value between
/// the two bounds, both included. It panics when `lo > hi`.
#[verifier::external_body]
pub(crate) fn draw_i32(rng: &mut rand::rngs::StdRng, lo: i32, hi: i32) -> (r: i32)
    requires
        lo <= hi,
    ensures
        lo <= r <= hi,
{
    rand::Rng::gen_range(rng, lo..=hi)
}

/// Relies on `rand::Rng::gen_range` over `lo..hi` for `u64`: a value at least
/// `lo` and below `hi`. It panics when the range is empty.
#[verifier::external_body]
pub(crate) fn draw_u64(rng: &mut rand::rngs::StdRng, lo: u64, hi: u64) -> (r: u64)
    requires
        lo < hi,
    ensures
        lo <= r < hi,
{
    rand::Rng::gen_range(rng, lo..hi)
}

/// Relies on `rand::Rng::gen_range` over `lo..hi` for `usize`: a value at least
/// `lo` and below `hi`. It panics when the range is empty.
#[verifier::external_body]
pub(crate) fn draw_usize(rng: &mut rand::rngs::StdRng, lo: usize, hi: usize) -> (r: usize)
    requires
        lo < hi,
    ensures
        lo <= r < hi,
{
    rand::Rng::gen_range(rng, lo..hi)
}

} // verus!
