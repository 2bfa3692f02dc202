//! The random source: masking keys and handshake keys are drawn from
//! a caller-supplied [`rand::rngs::StdRng`].

use vstd::prelude::*;

verus! {

#[verifier::external_type_specification]
#[verifier::external_body]
pub struct ExStdRng(rand::rngs::StdRng);

/// Relies on rand_core::Rng::fill_bytes for StdRng: fills the whole
/// 4-byte array with random data. Nothing is promised of the values.
#[verifier::external_body]
pub fn random_mask_key(rng: &mut rand::rngs::StdRng) -> (r: [u8; 4]) {
    let mut key = [0u8; 4];
    rand_core::Rng::fill_bytes(rng, &mut key);
    key
}

/// Relies on rand_core::Rng::fill_bytes for StdRng: fills a buffer of
/// exactly `n` bytes with random data. Nothing is promised of the values.
#[verifier::external_body]
pub fn random_bytes(rng: &mut rand::rngs::StdRng, n: usize) -> (r: Vec<u8>)
    ensures
        r@.len() == n,
{
    let mut buf = vec![0u8; n];
    rand_core::Rng::fill_bytes(rng, &mut buf);
    buf
}

} // verus!
