//! The cryptographic primitives the service builds on.
//!
//! Nothing in this module is proved. Each function hands its arguments to
//! another crate and states what that crate documents of the answer.

use hmac::Mac;
use subtle::ConstantTimeEq;
use vstd::prelude::*;

verus! {

/// The HMAC-SHA256 tag of `message` under `key`.
pub uninterp spec fn mac_of(key: Seq<u8>, message: Seq<u8>) -> Seq<u8>;

/// The first `len` bytes that PBKDF2 with HMAC-SHA256 derives from
/// `password` and `salt` in `rounds` iterations.
pub uninterp spec fn derived_key(password: Seq<u8>, salt: Seq<u8>, rounds: u32, len: nat) -> Seq<u8>;

/// Calls `hmac::Hmac<sha2::Sha256>`: keys it with `key`, feeds it `message`
/// and returns the finished tag. The tag is a function of key and message
/// alone, which is all the contract claims. HMAC accepts a key of any
/// length, so keying never fails.
#[verifier::external_body]
pub(crate) fn hmac_sha256(key: &[u8], message: &[u8]) -> (tag: Vec<u8>)
    ensures
        tag@ == mac_of(key@, message@),
{
    let mut mac = hmac::Hmac::<sha2::Sha256>::new_from_slice(key)
        .expect("HMAC takes a key of any length");
    mac.update(message);
    mac.finalize().into_bytes().to_vec()
}

/// Calls `pbkdf2::pbkdf2_hmac` with SHA-256 on a zeroed buffer of `len`
/// bytes. The derived key is a function of the four arguments alone and
/// fills the whole buffer. The bound on `len` keeps the block counter of
/// PBKDF2 within 32 bits.
#[verifier::external_body]
pub(crate) fn pbkdf2_sha256(password: &[u8], salt: &[u8], rounds: u32, len: usize) -> (key: Vec<u8>)
    requires
        len <= 0xffff_ffff,
    ensures
        key@ == derived_key(password@, salt@, rounds, len as nat),
        key@.len() == len,
{
    let mut key = vec![0u8; len];
    pbkdf2::pbkdf2_hmac::<sha2::Sha256>(password, salt, rounds, &mut key);
    key
}

/// Calls `subtle::ConstantTimeEq::ct_eq` on the two slices: true exactly
/// when they have the same length and the same bytes. The comparison's
/// running time does not depend on where the slices differ.
#[verifier::external_body]
pub(crate) fn equal_in_constant_time(left: &[u8], right: &[u8]) -> (same: bool)
    ensures
        same == (left@ == right@),
{
    bool::from(left.ct_eq(right))
}

/// Calls `getrandom::getrandom` on a buffer of `len` bytes. When the
/// system's random source answers, the buffer comes back filled; nothing
/// is claimed of the bytes themselves, nor that the source answers.
#[verifier::external_body]
pub(crate) fn random_bytes(len: usize) -> (bytes: Option<Vec<u8>>)
    ensures
        bytes matches Some(b) ==> b@.len() == len,
{
    let mut bytes = vec![0u8; len];
    match getrandom::getrandom(&mut bytes) {
        Ok(()) => Some(bytes),
        Err(_) => None,
    }
}

} // verus!
