//! The one source of chance: positions drawn for guesses and for the
//! characters of new keys.

use rand::Rng;
use vstd::prelude::*;

verus! {

/// The `gen_range` of rand's thread-local generator, on the half-open range
/// from 0 to `n`. It panics on an empty range, so `n` is positive; what it
/// returns lies in the range, and nothing more is known of it.
#[verifier::external_body]
pub(crate) fn random_below(n: usize) -> (r: usize)
    requires
        n > 0,
    ensures
        r < n,
{
    rand::thread_rng().gen_range(0, n)
}

} // verus!
