//! The canonical byte encoding of the protocol. Every block digest and every
//! signature is computed over these bytes, so the encoding is part of the
//! protocol itself: deterministic, with fixed field order. Integers are eight
//! little-endian bytes; strings and byte strings are length-prefixed; an
//! operation is a tag byte followed by its fields; a block's sealed content is
//! `(height, parent_hash, nonce, txs)` — never its own `hash` field.

use vstd::bytes::{spec_u64_to_le_bytes, u64_to_le_bytes};
use vstd::prelude::*;
use vstd::string::StrSliceExecFns;
use vstd::utf8::encode_utf8;

use crate::tx::{txs_view, Op, OpV, Tx, TxV};

verus! {

pub open spec fn spec_enc_u64(x: u64) -> Seq<u8> {
    spec_u64_to_le_bytes(x)
}

/// The UTF-8 bytes of a string.
pub open spec fn spec_str_bytes(s: Seq<char>) -> Seq<u8> {
    encode_utf8(s)
}

/// A string: its byte length, then its UTF-8 bytes.
pub open spec fn spec_enc_str(s: Seq<char>) -> Seq<u8> {
    spec_enc_u64(spec_str_bytes(s).len() as u64) + spec_str_bytes(s)
}

/// A byte string: its length, then its bytes.
pub open spec fn spec_enc_bytes(b: Seq<u8>) -> Seq<u8> {
    spec_enc_u64(b.len() as u64) + b
}

/// An operation: a tag byte, then its fields.
pub open spec fn spec_enc_op(op: OpV) -> Seq<u8> {
    match op {
        OpV::SetDifficulty(n) => seq![0u8] + spec_enc_u64(n as u64),
        OpV::Msg(m) => seq![1u8] + spec_enc_str(m),
        OpV::Coinbase { dst, amount } => seq![2u8] + spec_enc_str(dst) + spec_enc_u64(amount),
        OpV::Pay { dst, amount } => seq![3u8] + spec_enc_str(dst) + spec_enc_u64(amount),
    }
}

/// The signed payload of a transaction: exactly `(src, op)`, never the
/// signature itself.
pub open spec fn spec_signable(src: Seq<char>, op: OpV) -> Seq<u8> {
    spec_enc_str(src) + spec_enc_op(op)
}

/// A full transaction, as it enters its block's digest.
pub open spec fn spec_enc_tx(t: TxV) -> Seq<u8> {
    spec_enc_str(t.src) + spec_enc_op(t.op) + spec_enc_bytes(t.sig)
}

/// A transaction sequence, in block order.
pub open spec fn spec_enc_txs(txs: Seq<TxV>) -> Seq<u8>
    decreases txs.len(),
{
    if txs.len() == 0 {
        Seq::empty()
    } else {
        spec_enc_txs(txs.drop_last()) + spec_enc_tx(txs.last())
    }
}

/// A block's sealed content: `(height, parent_hash, nonce, txs)`; the block's
/// own `hash` field is never part of its hash input.
pub open spec fn spec_block_bytes(height: u64, parent: Seq<char>, nonce: u64, txs: Seq<TxV>) -> Seq<
    u8,
> {
    spec_enc_u64(height) + spec_enc_str(parent) + spec_enc_u64(nonce) + spec_enc_u64(
        txs.len() as u64,
    ) + spec_enc_txs(txs)
}

pub(crate) fn clone_bytes(b: &Vec<u8>) -> (r: Vec<u8>)
    ensures
        r@ == b@,
{
    let mut r: Vec<u8> = Vec::new();
    let mut i: usize = 0;
    while i < b.len()
        invariant
            i <= b@.len(),
            r@ =~= b@.take(i as int),
        decreases b@.len() - i,
    {
        r.push(b[i]);
        i = i + 1;
    }
    assert(r@ =~= b@);
    r
}

fn enc_u64_into(out: &mut Vec<u8>, x: u64)
    ensures
        final(out)@ == old(out)@ + spec_enc_u64(x),
{
    let mut b = u64_to_le_bytes(x);
    out.append(&mut b);
}

fn enc_str_into(out: &mut Vec<u8>, s: &str)
    ensures
        final(out)@ == old(out)@ + spec_enc_str(s@),
{
    let mut b = s.as_bytes_vec();
    enc_u64_into(out, b.len() as u64);
    out.append(&mut b);
    assert(out@ =~= old(out)@ + spec_enc_str(s@));
}

fn enc_bytes_into(out: &mut Vec<u8>, b: &Vec<u8>)
    ensures
        final(out)@ == old(out)@ + spec_enc_bytes(b@),
{
    enc_u64_into(out, b.len() as u64);
    let mut c = clone_bytes(b);
    out.append(&mut c);
    assert(out@ =~= old(out)@ + spec_enc_bytes(b@));
}

fn enc_op_into(out: &mut Vec<u8>, op: &Op)
    ensures
        final(out)@ == old(out)@ + spec_enc_op(op@),
{
    match op {
        Op::SetDifficulty(n) => {
            out.push(0u8);
            enc_u64_into(out, *n as u64);
        },
        Op::Msg(m) => {
            out.push(1u8);
            enc_str_into(out, m.as_str());
        },
        Op::Coinbase { dst, amount } => {
            out.push(2u8);
            enc_str_into(out, dst.as_str());
            enc_u64_into(out, *amount);
        },
        Op::Pay { dst, amount } => {
            out.push(3u8);
            enc_str_into(out, dst.as_str());
            enc_u64_into(out, *amount);
        },
    }
    assert(out@ =~= old(out)@ + spec_enc_op(op@));
}

fn enc_tx_into(out: &mut Vec<u8>, t: &Tx)
    ensures
        final(out)@ == old(out)@ + spec_enc_tx(t@),
{
    enc_str_into(out, t.src.as_str());
    enc_op_into(out, &t.op);
    enc_bytes_into(out, t.sig_bytes());
    assert(out@ =~= old(out)@ + spec_enc_tx(t@));
}

/// The bytes a transaction's signature is computed over and checked against.
pub fn signable_bytes(src: &String, op: &Op) -> (r: Vec<u8>)
    ensures
        r@ == spec_signable(src@, op@),
{
    let mut out: Vec<u8> = Vec::new();
    enc_str_into(&mut out, src.as_str());
    enc_op_into(&mut out, op);
    assert(out@ =~= spec_signable(src@, op@));
    out
}

/// The bytes a block's digest is computed over.
pub fn block_bytes(height: u64, parent: &String, nonce: u64, txs: &Vec<Tx>) -> (r: Vec<u8>)
    ensures
        r@ == spec_block_bytes(height, parent@, nonce, txs_view(txs@)),
{
    let mut out: Vec<u8> = Vec::new();
    enc_u64_into(&mut out, height);
    enc_str_into(&mut out, parent.as_str());
    enc_u64_into(&mut out, nonce);
    enc_u64_into(&mut out, txs.len() as u64);
    let ghost base = out@;
    let mut i: usize = 0;
    while i < txs.len()
        invariant
            i <= txs@.len(),
            out@ == base + spec_enc_txs(txs_view(txs@).take(i as int)),
        decreases txs@.len() - i,
    {
        enc_tx_into(&mut out, &txs[i]);
        proof {
            let tv = txs_view(txs@);
            assert(tv.take(i + 1).drop_last() =~= tv.take(i as int));
            assert(tv.take(i + 1).last() == txs@[i as int]@);
            assert(out@ =~= base + spec_enc_txs(tv.take(i + 1)));
        }
        i = i + 1;
    }
    proof {
        assert(txs_view(txs@).take(txs@.len() as int) =~= txs_view(txs@));
        assert(out@ =~= spec_block_bytes(height, parent@, nonce, txs_view(txs@)));
    }
    out
}

} // verus!
