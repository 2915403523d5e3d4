//! Transactions. A transaction binds an operation to a signer: the signature
//! is over the canonical encoding of `(src, op)` and nothing else. Governance
//! operations (`SetDifficulty`, `Msg`, `Coinbase`) must verify under the admin
//! key; `Pay` must verify under the key whose address is `src`.

use vstd::prelude::*;

use crate::codec::{signable_bytes, spec_signable};
use crate::crypto::{ed25519_verifies, verify_sig};
use crate::hexstr::{
    hex_decode, lemma_hex_encode_valid, lemma_hex_round_trip, spec_hex_decode, spec_hex_encode,
    valid_hex_string,
};
use crate::key::Signer;
use crate::ChainError;

verus! {

/// What a transaction does.
#[derive(Debug)]
pub enum Op {
    /// Set the mining difficulty for future blocks (admin only).
    SetDifficulty(usize),
    /// Record a message (admin only).
    Msg(String),
    /// Create or overwrite an account's balance (admin only, genesis only).
    Coinbase { dst: String, amount: u64 },
    /// Move funds from the transaction's source to `dst`.
    Pay { dst: String, amount: u64 },
}

/// The mathematical model of an operation.
pub enum OpV {
    SetDifficulty(usize),
    Msg(Seq<char>),
    Coinbase { dst: Seq<char>, amount: u64 },
    Pay { dst: Seq<char>, amount: u64 },
}

impl View for Op {
    type V = OpV;

    open spec fn view(&self) -> OpV {
        match self {
            Op::SetDifficulty(n) => OpV::SetDifficulty(*n),
            Op::Msg(m) => OpV::Msg(m@),
            Op::Coinbase { dst, amount } => OpV::Coinbase { dst: dst@, amount: *amount },
            Op::Pay { dst, amount } => OpV::Pay { dst: dst@, amount: *amount },
        }
    }
}

/// Signature bytes in a form the canonical encoding can carry.
#[derive(Debug)]
pub struct SerializableSignature {
    pub bytes: Vec<u8>,
}

impl View for SerializableSignature {
    type V = Seq<u8>;

    open spec fn view(&self) -> Seq<u8> {
        self.bytes@
    }
}

/// A signed operation. `Tx::new` derives `src` from the signer and signs the
/// canonical payload `(src, op)`; a transaction altered afterwards simply
/// fails `validate`.
#[derive(Debug)]
pub struct Tx {
    pub op: Op,
    pub src: String,
    pub sig: SerializableSignature,
}

/// The mathematical model of a transaction.
pub struct TxV {
    pub op: OpV,
    pub src: Seq<char>,
    pub sig: Seq<u8>,
}

impl View for Tx {
    type V = TxV;

    open spec fn view(&self) -> TxV {
        TxV { op: self.op@, src: self.src@, sig: self.sig@ }
    }
}

/// The models of a sequence of transactions, in order.
pub open spec fn txs_view(txs: Seq<Tx>) -> Seq<TxV> {
    txs.map_values(|t: Tx| t@)
}

/// The key a transaction must verify under: the admin key for governance
/// operations, the key encoded by `src` for `Pay`.
pub open spec fn spec_required_key(tx: TxV, admin: Seq<u8>) -> Seq<u8> {
    match tx.op {
        OpV::Pay { .. } => spec_hex_decode(tx.src),
        _ => admin,
    }
}

/// What `Tx::validate` returns: `Encoding` on malformed signature bytes or,
/// for `Pay`, a source that is not a 64-character hex address; otherwise
/// `Authorization` unless the signature verifies under the required key.
pub open spec fn spec_validate(tx: TxV, admin: Seq<u8>) -> Result<(), ChainError> {
    if tx.sig.len() != 64 {
        Err(ChainError::Encoding)
    } else if tx.op is Pay && !(valid_hex_string(tx.src) && tx.src.len() == 64) {
        Err(ChainError::Encoding)
    } else if !ed25519_verifies(spec_required_key(tx, admin), spec_signable(tx.src, tx.op), tx.sig) {
        Err(ChainError::Authorization)
    } else {
        Ok(())
    }
}

impl Tx {
    pub(crate) fn sig_bytes(&self) -> (r: &Vec<u8>)
        ensures
            r@ == self@.sig,
    {
        &self.sig.bytes
    }

    /// Sign `op` with `signer`: the source address is the signer's own, and
    /// the signature covers exactly the canonical payload `(src, op)`.
    pub fn new(signer: &Signer, op: Op) -> (tx: Tx)
        ensures
            tx@.op == op@,
            tx@.src == spec_hex_encode(signer.vk_bytes()),
            tx@.sig.len() == 64,
            ed25519_verifies(signer.vk_bytes(), spec_signable(tx@.src, tx@.op), tx@.sig),
    {
        let src = signer.address();
        let msg = signable_bytes(&src, &op);
        let sig = signer.sign(&msg);
        Tx { op, src, sig: SerializableSignature { bytes: sig } }
    }

    /// Whether the transaction verifies under the policy's required key.
    pub fn is_valid(&self, admin: &Vec<u8>) -> (r: bool)
        ensures
            r == (spec_validate(self@, admin@) is Ok),
    {
        self.validate(admin).is_ok()
    }

    /// Check the signature against the required key; the result is exactly
    /// `spec_validate(self@, admin@)`.
    pub fn validate(&self, admin: &Vec<u8>) -> (r: Result<(), ChainError>)
        ensures
            r == spec_validate(self@, admin@),
    {
        if self.sig.bytes.len() != 64 {
            return Err(ChainError::Encoding);
        }
        let msg = signable_bytes(&self.src, &self.op);
        let ok: bool;
        match &self.op {
            Op::Pay { .. } => {
                let decoded = hex_decode(self.src.as_str());
                match decoded {
                    None => {
                        return Err(ChainError::Encoding);
                    },
                    Some(key) => {
                        if key.len() != 32 {
                            return Err(ChainError::Encoding);
                        }
                        ok = verify_sig(&key, &msg, &self.sig.bytes);
                    },
                }
            },
            _ => {
                ok = verify_sig(admin, &msg, &self.sig.bytes);
            },
        }
        if ok {
            Ok(())
        } else {
            Err(ChainError::Authorization)
        }
    }
}

pub(crate) fn clone_op(op: &Op) -> (r: Op)
    ensures
        r@ == op@,
{
    match op {
        Op::SetDifficulty(n) => Op::SetDifficulty(*n),
        Op::Msg(m) => Op::Msg(m.clone()),
        Op::Coinbase { dst, amount } => Op::Coinbase { dst: dst.clone(), amount: *amount },
        Op::Pay { dst, amount } => Op::Pay { dst: dst.clone(), amount: *amount },
    }
}

pub(crate) fn clone_tx(t: &Tx) -> (r: Tx)
    ensures
        r@ == t@,
{
    Tx {
        op: clone_op(&t.op),
        src: t.src.clone(),
        sig: SerializableSignature { bytes: crate::codec::clone_bytes(&t.sig.bytes) },
    }
}

pub(crate) fn clone_txs(txs: &Vec<Tx>) -> (r: Vec<Tx>)
    ensures
        txs_view(r@) == txs_view(txs@),
{
    let mut r: Vec<Tx> = Vec::new();
    let mut i: usize = 0;
    while i < txs.len()
        invariant
            i <= txs@.len(),
            r@.len() == i,
            forall|j: int| 0 <= j < i ==> #[trigger] r@[j]@ == txs@[j]@,
        decreases txs@.len() - i,
    {
        r.push(clone_tx(&txs[i]));
        i = i + 1;
    }
    proof {
        assert forall|j: int| 0 <= j < txs@.len() implies #[trigger] txs_view(r@)[j] == txs_view(
            txs@,
        )[j] by {
            assert(txs_view(r@)[j] == r@[j]@);
            assert(txs_view(txs@)[j] == txs@[j]@);
        }
        assert(txs_view(r@) =~= txs_view(txs@));
    }
    r
}

/// A transaction whose signature was produced over its own canonical payload
/// by the key its source address encodes is accepted: under any admin key if
/// it is a `Pay`, and under the admin key equal to the signer's for the
/// governance operations. (That a signature by a *different* key is rejected
/// is the signature scheme's soundness, which no contract here states.)
pub proof fn lemma_signed_tx_verifies(tx: TxV, vk: Seq<u8>, admin: Seq<u8>)
    requires
        vk.len() == 32,
        tx.src == spec_hex_encode(vk),
        tx.sig.len() == 64,
        ed25519_verifies(vk, spec_signable(tx.src, tx.op), tx.sig),
        !(tx.op is Pay) ==> admin == vk,
    ensures
        spec_validate(tx, admin) == Ok::<(), ChainError>(()),
{
    lemma_hex_encode_valid(vk);
    lemma_hex_round_trip(vk);
    assert(spec_required_key(tx, admin) == vk);
}

} // verus!
