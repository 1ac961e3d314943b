//! The one source of randomness: a bounded draw from the thread-local
//! generator of the `rand` crate.

use vstd::prelude::*;
use rand::Rng;

verus! {

/// Relies on `rand::thread_rng` and `rand::Rng::gen_range`: sampling the
/// range `0..n` yields a value below `n`, and panics only when the range is
/// empty, which the precondition rules out. Nothing is assumed about which
/// value comes back.
#[verifier::external_body]
pub(crate) fn random_below(n: u8) -> (r: u8)
    requires
        n >= 1,
    ensures
        r < n,
{
    rand::thread_rng().gen_range(0..n)
}

} // verus!
