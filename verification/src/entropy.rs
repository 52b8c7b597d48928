//! The engine's one source of randomness: the thread-local generator of
//! the `rand` crate, which is safe to use concurrently because every task
//! draws from its own thread's instance.

use vstd::prelude::*;
use rand::Rng;

verus! {

/// Relies on `rand::Rng::gen` over `rand::thread_rng`: a uniformly random
/// 32-bit value. Nothing can be promised of the value itself.
#[verifier::external_body]
pub(crate) fn random_u32() -> u32 {
    rand::thread_rng().gen()
}

/// Relies on `rand::Rng::gen_range` over `rand::thread_rng` on an
/// inclusive range: it returns a value within the range and panics only
/// on an empty one, which the precondition rules out.
#[verifier::external_body]
pub(crate) fn random_port_in_range(min: u16, max: u16) -> (p: u16)
    requires
        min <= max,
    ensures
        min <= p <= max,
{
    rand::thread_rng().gen_range(min..=max)
}

} // verus!
