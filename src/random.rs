use vstd::prelude::*;

use rand::Rng;

verus! {

/// Relies on rand::random: a value drawn from the thread-local generator.
/// Nothing is known of which value comes out.
pub assume_specification<T>[ rand::random::<T> ]() -> (r: T)
    where
        rand::distributions::Standard: rand::distributions::Distribution<T>,
;

/// Relies on rand::Rng::gen_range on the thread-local generator: a value of
/// the half-open range `lo..hi`, which must not be empty (it panics then).
#[verifier::external_body]
pub(crate) fn random_in(lo: i64, hi: i64) -> (r: i64)
    requires
        lo < hi,
    ensures
        lo <= r < hi,
{
    rand::thread_rng().gen_range(lo..hi)
}

} // verus!
