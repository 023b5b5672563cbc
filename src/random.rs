use vstd::prelude::*;

verus! {

/// Relies on `fastrand::u32`: a value drawn from the thread-local generator,
/// within the range `0..bound` (which panics only when the range is empty).
#[verifier::external_body]
pub(crate) fn random_below(bound: u32) -> (r: u32)
    requires
        bound > 0,
    ensures
        r < bound,
{
    fastrand::u32(0..bound)
}

} // verus!
