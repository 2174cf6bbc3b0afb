use vstd::prelude::*;
use rand::seq::SliceRandom;
use rand::Rng;

verus! {

/// Calls `rand::seq::SliceRandom::choose` on `keys` with the thread-local
/// generator. The rand source returns `None` exactly for an empty slice and
/// otherwise an element of it; which element is left to chance and unstated.
#[verifier::external_body]
pub(crate) fn choose_key(keys: &[char]) -> (r: Option<char>)
    ensures
        r is Some <==> keys@.len() > 0,
        r matches Some(c) ==> keys@.contains(c),
{
    keys.choose(&mut rand::thread_rng()).copied()
}

/// Calls `rand::Rng::gen_range` with the half-open range `low..high` on the
/// thread-local generator. The rand source panics on an empty range and
/// otherwise returns a value of the range; which one is left to chance.
#[verifier::external_body]
pub(crate) fn random_in_range(low: u64, high: u64) -> (r: u64)
    requires
        low < high,
    ensures
        low <= r < high,
{
    rand::thread_rng().gen_range(low..high)
}

} // verus!
