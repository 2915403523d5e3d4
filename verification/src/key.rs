//! Key material. A `Signer` owns an ed25519 signing key together with the 32
//! bytes of its verifying key, captured once at construction, so that
//! contracts can speak of the key as a plain byte string while the outside
//! crate performs the signing.

use vstd::prelude::*;

use crate::crypto::ed25519_verifies;
use crate::hexstr::{
    hex_encode, lemma_hex_encode_lower, lemma_hex_encode_valid, lower_hex_string, spec_hex_encode,
    valid_hex_string,
};

verus! {

#[verifier::external_type_specification]
#[verifier::external_body]
pub struct ExSigningKey(ed25519_dalek::SigningKey);

#[verifier::external_type_specification]
#[verifier::external_body]
pub struct ExVerifyingKey(ed25519_dalek::VerifyingKey);

/// A signing identity: the opaque private key, beside the plain bytes of the
/// verifying key it belongs to. Constructed only by `Signer::new`, so the two
/// always match.
pub struct Signer {
    key: ed25519_dalek::SigningKey,
    vk: Vec<u8>,
}

impl Signer {
    /// The bytes of this signer's verifying (public) key.
    pub closed spec fn vk_bytes(&self) -> Seq<u8> {
        self.vk@
    }

    /// Relies on `ed25519_dalek::SigningKey::verifying_key` and
    /// `ed25519_dalek::VerifyingKey::as_bytes`: the verifying key of a signing
    /// key is 32 bytes, captured here beside the key it belongs to.
    #[verifier::external_body]
    pub fn new(key: ed25519_dalek::SigningKey) -> (r: Signer)
        ensures
            r.vk_bytes().len() == 32,
    {
        let vk = key.verifying_key().as_bytes().to_vec();
        Signer { key, vk }
    }

    /// The signer's address: the lowercase hex encoding of its public key.
    pub fn address(&self) -> (r: String)
        ensures
            r@ == spec_hex_encode(self.vk_bytes()),
    {
        hex_encode(&self.vk)
    }

    /// Relies on `ed25519_dalek::Signer::sign` and
    /// `ed25519_dalek::VerifyingKey::verify_strict`: a signature that `sign`
    /// produces is 64 bytes and passes strict verification under the signing
    /// key's own verifying key, held beside it since `Signer::new`.
    #[verifier::external_body]
    pub fn sign(&self, msg: &Vec<u8>) -> (sig: Vec<u8>)
        ensures
            sig@.len() == 64,
            ed25519_verifies(self.vk_bytes(), msg@, sig@),
    {
        let signature = ed25519_dalek::Signer::sign(&self.key, msg.as_slice());
        signature.to_vec()
    }
}

/// Relies on `ed25519_dalek::VerifyingKey::as_bytes`: a public key is 32
/// bytes. Nothing more can be said of an opaque key.
#[verifier::external_body]
fn vk_bytes_of(pubkey: &ed25519_dalek::VerifyingKey) -> (r: Vec<u8>)
    ensures
        r@.len() == 32,
{
    pubkey.as_bytes().to_vec()
}

/// The address of a public key: the lowercase hex encoding of some 32 key
/// bytes — 64 lowercase hex characters, decodable back to those bytes. (Which
/// bytes they are cannot be stated of an opaque key; `Signer::address` ties
/// the address to the key that signs.)
pub fn pub_to_hex(pubkey: &ed25519_dalek::VerifyingKey) -> (r: String)
    ensures
        exists|b: Seq<u8>| b.len() == 32 && r@ == #[trigger] spec_hex_encode(b),
        r@.len() == 64,
        valid_hex_string(r@),
        lower_hex_string(r@),
{
    let bytes = vk_bytes_of(pubkey);
    let r = hex_encode(&bytes);
    proof {
        lemma_hex_encode_valid(bytes@);
        lemma_hex_encode_lower(bytes@);
        assert(bytes@.len() == 32 && r@ == spec_hex_encode(bytes@));
    }
    r
}

} // verus!
