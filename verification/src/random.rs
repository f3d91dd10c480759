use rand::RngExt;
use vstd::prelude::*;

verus! {

/// The generator handle of the `rand` crate; its state is opaque here.
#[verifier::external_type_specification]
#[verifier::external_body]
pub struct ExThreadRng(rand::rngs::ThreadRng);

/// `rand::rng()`: a handle to the thread-local generator. Nothing is stated of the
/// handle; `rand` panics only if the operating system cannot seed it.
#[verifier::external_body]
pub(crate) fn thread_rng() -> rand::rngs::ThreadRng {
    rand::rng()
}

/// `RngExt::random_range(0..n)`: a value drawn from `0..n`. `rand` panics on an
/// empty range, so `n` must be positive. Which value comes out is chance, and
/// the generator's state after the draw is left unsaid.
#[verifier::external_body]
pub(crate) fn random_below(rng: &mut rand::rngs::ThreadRng, n: usize) -> (r: usize)
    requires
        0 < n,
    ensures
        r < n,
{
    rng.random_range(0..n)
}

} // verus!
