//! The process-wide source of random bytes.

use rand::rngs::ThreadRng;
use rand::RngCore;
use vstd::prelude::*;

verus! {

/// `rand::rngs::ThreadRng`, the handle to the generator that `rand` keeps for
/// each thread. Nothing is known of what it holds.
#[verifier::external_type_specification]
#[verifier::external_body]
pub struct ExThreadRng(ThreadRng);

/// `rand::thread_rng`: hands out the calling thread's generator, which `rand`
/// seeds from the system at the thread's first call and gives up on, with a
/// panic, only where the system has no randomness to give. Nothing is claimed
/// of the generator.
pub assume_specification[ rand::thread_rng ]() -> ThreadRng;

/// `RngCore::fill_bytes` on a `ThreadRng`: overwrites every byte of `dest`
/// with random data. The length of `dest` is in its type; of the bytes
/// themselves nothing is claimed.
#[verifier::external_body]
pub(crate) fn fill_bytes<const N: usize>(rng: &mut ThreadRng, dest: &mut [u8; N]) {
    rng.fill_bytes(dest)
}

} // verus!
