//! The random source.
//!
//! Every draw the simulation makes goes through one trusted wrapper
//! around rand's uniform integer sampling; the rest of the library is
//! verified against the wrapper's range contract alone, so every
//! guarantee holds whatever numbers come back.

use vstd::prelude::*;
use rand::Rng;
use crate::fx::in_fx;

verus! {

#[verifier::external_type_specification]
#[verifier::external_body]
pub struct ExStdRng(rand::rngs::StdRng);

/// Relies on rand's `Rng::gen_range` over `lo..hi` on `u64`: it returns
/// a value of that half-open range, and panics only when the range is
/// empty, which the precondition rules out.
#[verifier::external_body]
pub(crate) fn rng_range(rng: &mut rand::rngs::StdRng, lo: u64, hi: u64) -> (r: u64)
    requires
        lo < hi,
    ensures
        lo <= r < hi,
{
    rng.gen_range(lo..hi)
}

/// A uniform draw from a half-open range of fixed-point scalars.
pub(crate) fn rng_fx_range(rng: &mut rand::rngs::StdRng, lo: i64, hi: i64) -> (r: i64)
    requires
        lo < hi,
        in_fx(lo as int),
        in_fx(hi as int),
    ensures
        lo <= r < hi,
        in_fx(r as int),
{
    let span: u64 = (hi - lo) as u64;
    let d: u64 = rng_range(rng, 0, span);
    lo + (d as i64)
}

} // verus!
