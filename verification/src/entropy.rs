use rand::Rng;
use vstd::prelude::*;

verus! {

/// One byte from `rand::thread_rng().gen()`: the generator that the `rand` crate keeps
/// for the calling thread and seeds from the operating system.  Nothing is claimed of
/// the byte, and two calls need not agree.  The generator panics only where the
/// operating system refuses it a seed, on the thread's first draw or when it reseeds.
#[verifier::external_body]
pub(crate) fn random_byte() -> u8 {
    rand::thread_rng().gen()
}

} // verus!
