//! A minimal single-node ledger: an append-only, hash-linked sequence of
//! blocks, each sealed by proof-of-work, whose transactions move balances in
//! an account state machine under a signature-based authorization policy.
//!
//! Governance operations (issuance, messages, difficulty changes) must be
//! signed by the admin key fixed at genesis; transfers must be signed by the
//! key whose address is named as the source.

use vstd::prelude::*;

pub mod block;
pub mod chain;
pub mod codec;
pub mod crypto;
pub mod hexstr;
pub mod key;
pub mod ledger;
pub mod tx;

verus! {

/// Why a block, transaction or submission was refused.
#[derive(Clone, Copy, Debug, PartialEq, Eq, Structural)]
pub enum ChainError {
    /// The block's height is not the ledger's successor height.
    Sequence,
    /// A signature fails verification against the required key.
    Authorization,
    /// Coinbase past genesis, unknown source account, insufficient balance,
    /// or a difficulty beyond the digest's width.
    Policy,
    /// A malformed address or malformed signature bytes.
    Encoding,
}

} // verus!
