use vstd::prelude::*;

use rand::Rng;

verus! {

/// Relies on `rand::thread_rng` and `rand::Rng::gen_range`: sampling from a
/// non-empty half-open integer range returns a value inside that range (and
/// panics only on an empty range, which `-10..10` is not). Nothing more is
/// assumed of the draw — the spawner is verified for every value in range.
#[verifier::external_body]
pub(crate) fn random_lateral_offset() -> (r: i32)
    ensures
        -10 <= r < 10,
{
    rand::thread_rng().gen_range(-10..10)
}

} // verus!
