//! The two cryptographic primitives the ledger rests on, named but not
//! modelled: the SHA-256 digest of a byte string, and strict ed25519
//! signature verification. Each is computed by an outside crate behind a
//! trusted wrapper; the verified code reasons only through the names.

use vstd::prelude::*;

verus! {

/// The SHA-256 digest of a byte string; a function of its input alone.
pub uninterp spec fn sha256_of(data: Seq<u8>) -> Seq<u8>;

/// Whether strict ed25519 verification accepts `sig` as a signature on `msg`
/// under the public key encoded by `vk`; a function of the three byte strings
/// alone. It is false whenever `vk` does not encode a valid 32-byte key or
/// `sig` is not a well-formed 64-byte signature.
pub uninterp spec fn ed25519_verifies(vk: Seq<u8>, msg: Seq<u8>, sig: Seq<u8>) -> bool;

/// Relies on `sha2::Sha256`: the digest is 32 bytes and depends on the input
/// bytes alone.
#[verifier::external_body]
pub fn sha256(data: &Vec<u8>) -> (r: Vec<u8>)
    ensures
        r@ == sha256_of(data@),
        r@.len() == 32,
{
    let mut hasher = <sha2::Sha256 as sha2::Digest>::new();
    sha2::Digest::update(&mut hasher, data.as_slice());
    let digest = sha2::Digest::finalize(hasher);
    digest.to_vec()
}

/// Relies on `ed25519_dalek::VerifyingKey::from_bytes`,
/// `ed25519_dalek::Signature::from_slice` and
/// `ed25519_dalek::VerifyingKey::verify_strict`: all three are deterministic
/// in their byte-string arguments, so their composition is the function named
/// by `ed25519_verifies`; a malformed key or signature verifies as false.
#[verifier::external_body]
pub fn verify_sig(vk: &Vec<u8>, msg: &Vec<u8>, sig: &Vec<u8>) -> (r: bool)
    ensures
        r == ed25519_verifies(vk@, msg@, sig@),
{
    let Ok(key_bytes) = <&[u8; 32]>::try_from(vk.as_slice()) else {
        return false;
    };
    let Ok(key) = ed25519_dalek::VerifyingKey::from_bytes(key_bytes) else {
        return false;
    };
    let Ok(signature) = ed25519_dalek::Signature::from_slice(sig.as_slice()) else {
        return false;
    };
    key.verify_strict(msg.as_slice(), &signature).is_ok()
}

} // verus!
