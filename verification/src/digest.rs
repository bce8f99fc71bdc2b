//! Trusted access to the outside hash primitives.
//!
//! The digests themselves are named, not described: `sha256_of` and
//! `keccak256_of` stand for whatever the outside implementations compute,
//! which is a function of the input bytes alone.

use vstd::prelude::*;

verus! {

/// The 32-byte SHA-256 digest of a byte sequence.
pub uninterp spec fn sha256_of(data: Seq<u8>) -> Seq<u8>;

/// The 32-byte Keccak-256 digest of a byte sequence.
pub uninterp spec fn keccak256_of(data: Seq<u8>) -> Seq<u8>;

/// Relies on `sha2::Sha256` (`Digest::digest`): the 32-byte SHA-256 digest of
/// the input, a function of the input bytes alone.
#[verifier::external_body]
pub fn sha256(data: &[u8]) -> (r: [u8; 32])
    ensures
        r@ == sha256_of(data@),
{
    let out = <sha2::Sha256 as sha2::Digest>::digest(data);
    let mut r = [0u8; 32];
    r.copy_from_slice(&out);
    r
}

/// Relies on `sha3::Keccak256` (`Digest::digest`): the 32-byte Keccak-256
/// digest of the input, a function of the input bytes alone.
#[verifier::external_body]
pub fn keccak256(data: &[u8]) -> (r: [u8; 32])
    ensures
        r@ == keccak256_of(data@),
{
    let out = <sha3::Keccak256 as sha3::Digest>::digest(data);
    let mut r = [0u8; 32];
    r.copy_from_slice(&out);
    r
}

} // verus!
