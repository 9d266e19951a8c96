//! The one source of chance in the machine: the random byte of Cxkk.
use vstd::prelude::*;
use rand::Rng;

verus! {

/// A random byte drawn from the `rand` crate's thread-local generator
/// (`rand::thread_rng().gen::<u8>()`, the low byte of one `next_u32`).
/// Nothing is claimed of its value: any byte may come back, and two calls
/// may differ. `thread_rng` seeds itself from the operating system on
/// first use and panics if that fails; no condition on the arguments can
/// rule that out.
#[verifier::external_body]
pub(crate) fn random_byte() -> u8 {
    rand::thread_rng().gen()
}

} // verus!
