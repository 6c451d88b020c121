//! The injected random source.
//!
//! All randomness flows in through one seedable generator, `rand`'s
//! `StdRng`, consumed in a fixed order so that a fixed seed yields an
//! identical run.  The library never constructs one: callers build it
//! (seeded or from entropy) and pass it to every call that draws.

use vstd::prelude::*;
use rand::Rng;

verus! {

#[verifier::external_type_specification]
#[verifier::external_body]
pub struct ExStdRng(rand::rngs::StdRng);

/// Relies on rand's `Rng::gen_range` over an inclusive `i64` range: it
/// returns a uniformly distributed value inside the bounds, and panics
/// only when the range is empty, which the precondition rules out.
#[verifier::external_body]
pub(crate) fn gen_range_i64(rng: &mut rand::rngs::StdRng, lo: i64, hi: i64) -> (r: i64)
    requires
        lo <= hi,
    ensures
        lo <= r <= hi,
{
    rng.gen_range(lo..=hi)
}

} // verus!
