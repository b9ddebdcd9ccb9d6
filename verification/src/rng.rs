use vstd::prelude::*;

use rand::Rng;

verus! {

/// Relies on rand::Rng::gen_range over `0..n` on the thread-local
/// generator: the sample lies in the given range, and the call panics only
/// on an empty range, which the precondition rules out. Nothing more is
/// assumed of which value comes back.
#[verifier::external_body]
pub(crate) fn random_below(n: u16) -> (r: u16)
    requires
        n > 0,
    ensures
        r < n,
{
    rand::thread_rng().gen_range(0..n)
}

} // verus!
