//! Where the game leaves something to chance.
use vstd::prelude::*;
use rand::Rng;

verus! {

/// `Rng::gen_range` of rand, on the generator of the calling thread. It
/// panics unless `low` is below `high`; what it returns is some integer from
/// `low` up to `high`, the latter left out.
#[verifier::external_body]
pub(crate) fn gen_range(low: i32, high: i32) -> (drawn: i32)
    requires
        low < high,
    ensures
        low <= drawn < high,
{
    rand::thread_rng().gen_range(low, high)
}

} // verus!
