//! What the interpreter takes from outside: the thread-local random number
//! generator of `rand` and the monotonic clock of `std`. Nothing is proved
//! about the items in this file; what they state is taken on trust.

use vstd::prelude::*;
use rand::rngs::ThreadRng;
use rand::Rng;
use std::time::{Duration, Instant};

verus! {

/// `rand::rngs::ThreadRng`, a handle to the calling thread's generator. The
/// type is opaque here: no contract speaks of what a handle holds.
#[verifier::external_type_specification]
#[verifier::external_body]
pub struct ExThreadRng(ThreadRng);

/// `std::time::Instant`, a reading of the monotonic clock. The type is
/// opaque here: no contract speaks of what a reading holds.
#[verifier::external_type_specification]
#[verifier::external_body]
pub struct ExInstant(Instant);

/// `rand::thread_rng` hands out the calling thread's generator. Nothing is
/// claimed of the handle. The generator is seeded from the operating system
/// when a thread first asks for it, and `rand` panics if the system does
/// not provide the seed.
pub assume_specification[ rand::thread_rng ]() -> (rng: ThreadRng);

/// `Instant::now` reads the clock. Nothing is claimed of the reading.
pub assume_specification[ Instant::now ]() -> (now: Instant);

/// `Instant::elapsed` gives the time that has passed since `mark` was
/// taken. Nothing is claimed of the amount.
pub assume_specification[ Instant::elapsed ](mark: &Instant) -> (elapsed: Duration);

/// `Duration::as_nanos` gives a duration in whole nanoseconds. Nothing is
/// claimed of the number.
pub assume_specification[ Duration::as_nanos ](duration: &Duration) -> (nanos: u128);

/// Draws one byte from the generator with `Rng::gen`. Every byte is a
/// possible outcome, so nothing is claimed of the result.
#[verifier::external_body]
pub(crate) fn random_byte(rng: &mut ThreadRng) -> (byte: u8) {
    rng.gen::<u8>()
}

} // verus!
