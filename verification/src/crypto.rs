//! Cryptographic primitives of the handshake, trusted wrappers around ring.
//!
//! The digest itself is not modelled: `sha256_of` only names the result,
//! which depends on the input bytes alone. Everything the handshake proves
//! about authentication goes through that name.

use vstd::prelude::*;

use crate::messages::DIGEST_LEN;

verus! {

/// The SHA-256 digest of a byte sequence, by name only.
pub uninterp spec fn sha256_of(data: Seq<u8>) -> Seq<u8>;

/// Relies on `ring::digest::digest` with SHA-256: the digest depends on the
/// input bytes alone and is 32 bytes long.
#[verifier::external_body]
pub(crate) fn sha256(data: &[u8]) -> (r: Vec<u8>)
    ensures
        r@ == sha256_of(data@),
        r@.len() == DIGEST_LEN,
{
    ring::digest::digest(&ring::digest::SHA256, data).as_ref().to_vec()
}

/// Relies on `ring::constant_time::verify_slices_are_equal`: it returns `Ok`
/// exactly when the two slices hold equal bytes, and takes time independent
/// of where they first differ.
#[verifier::external_body]
#[allow(deprecated)]
pub(crate) fn constant_time_eq(a: &[u8], b: &[u8]) -> (r: bool)
    ensures
        r <==> a@ == b@,
{
    ring::constant_time::verify_slices_are_equal(a, b).is_ok()
}

/// Relies on `ring::rand::SystemRandom`: `fill` either fills the whole
/// buffer or fails. Nothing is assumed about the bytes themselves.
#[verifier::external_body]
pub(crate) fn random_bytes(len: usize) -> (r: Option<Vec<u8>>)
    ensures
        r matches Some(v) ==> v@.len() == len,
{
    let mut buf = vec![0u8; len];
    match ring::rand::SecureRandom::fill(&ring::rand::SystemRandom::new(), &mut buf) {
        Ok(()) => Some(buf),
        Err(_) => None,
    }
}

} // verus!
