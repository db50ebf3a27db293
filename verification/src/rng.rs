use vstd::prelude::*;
use rand::Rng;

verus! {

#[verifier::external_type_specification]
#[verifier::external_body]
pub struct ExThreadRng(rand::rngs::ThreadRng);

/// Relies on rand::thread_rng: hands back a process-local random generator.
#[verifier::external_body]
pub(crate) fn fresh_rng() -> rand::rngs::ThreadRng {
    rand::thread_rng()
}

/// Relies on rand::Rng::gen_range: one random byte. Nothing is promised of
/// its value; every caller must be correct for every byte that comes back.
#[verifier::external_body]
pub(crate) fn random_byte(rng: &mut rand::rngs::ThreadRng) -> u8 {
    rng.gen_range(0..256) as u8
}

} // verus!
