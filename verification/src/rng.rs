use vstd::prelude::*;

verus! {

/// Relies on rand's `Rng::gen_range` over the exclusive range `0..n` on the
/// thread-local generator: it returns a value of that range and panics only
/// when the range is empty, which the precondition rules out. Nothing more
/// is assumed of which value comes back.
#[verifier::external_body]
pub fn random_below(n: usize) -> (r: usize)
    requires
        n > 0,
    ensures
        r < n,
{
    rand::Rng::gen_range(&mut rand::thread_rng(), 0..n)
}

} // verus!
