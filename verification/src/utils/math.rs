//! Math utilities.

use vstd::prelude::*;
use rand::Rng;

verus! {

/// Random integer in range [min, max] (`rand::thread_rng().gen_range`,
/// which panics on an empty range).  The contract states only the range:
/// the value is drawn by chance.
#[verifier::external_body]
pub fn random_int(min: i64, max: i64) -> (r: i64)
    requires
        min <= max,
    ensures
        min <= r <= max,
{
    rand::thread_rng().gen_range(min..=max)
}

} // verus!
