//! Small utilities over the `rand` crate. The draws themselves are outside
//! work; what is stated of them is only what holds of every outcome.

use vstd::prelude::*;
use rand::seq::SliceRandom;
use rand::Rng;

verus! {

/// Relies on rand::Rng::gen on the thread-local generator: a 32-bit draw.
/// Nothing can be promised of a random value.
#[verifier::external_body]
pub fn random_u32() -> u32 {
    let mut rng = rand::thread_rng();
    rng.gen::<u32>()
}

/// Relies on rand::seq::SliceRandom::shuffle: a Fisher-Yates shuffle, which
/// permutes the slice in place by swaps, so the result carries exactly the
/// members of the input. Which order comes out is the generator's business.
#[verifier::external_body]
pub fn shuffle_array<T>(a: Vec<T>) -> (r: Vec<T>)
    ensures
        r@.to_multiset() == a@.to_multiset(),
{
    let mut a = a;
    let mut rng = rand::thread_rng();
    a.shuffle(&mut rng);
    a
}

} // verus!
