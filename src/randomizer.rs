//! Uniform random selection on the process-wide random source.
use vstd::prelude::*;

use rand::Rng;

verus! {

/// Relies on `rand::random::<bool>`: a fair coin flip from the thread-local
/// generator; nothing is promised of the value.
#[verifier::external_body]
pub(crate) fn random_bool() -> bool {
    rand::random::<bool>()
}

/// Relies on `rand::Rng::gen_range` on the thread-local generator: for a
/// non-empty half-open range `low..high` the draw lies in the range (it
/// panics on an empty range, which `requires` rules out).
#[verifier::external_body]
pub fn get_random_number_in_range(low: usize, high: usize) -> (r: usize)
    requires
        low < high,
    ensures
        low <= r < high,
{
    rand::thread_rng().gen_range(low..high)
}

fn get_random_index_from_array<T>(array: &[T]) -> (r: usize)
    requires
        array@.len() > 0,
    ensures
        r < array@.len(),
{
    get_random_number_in_range(0, array.len())
}

/// Picks one element of a non-empty slice uniformly at random.
pub fn get_random_value_from_array<T>(array: &[T]) -> (r: &T)
    requires
        array@.len() > 0,
    ensures
        exists|i: int| 0 <= i < array@.len() && *r == array@[i],
{
    let i = get_random_index_from_array(array);
    &array[i]
}

/// Picks one element of a non-empty slice uniformly at random, for update
/// in place.
pub fn get_random_value_from_array_as_mut<T>(array: &mut [T]) -> (r: &mut T)
    requires
        old(array)@.len() > 0,
    ensures
        exists|i: int|
            0 <= i < old(array)@.len() && *r == old(array)@[i] && final(array)@ == old(
                array,
            )@.update(i, *final(r)),
{
    let i = get_random_index_from_array(array);
    &mut array[i]
}

} // verus!
