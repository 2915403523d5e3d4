//! Blocks. A block's `hash` is the lowercase hex SHA-256 digest of its
//! canonical content `(height, parent_hash, nonce, txs)`; the `hash` field is
//! never part of its own input. A block is created unsealed (nonce 0, hash
//! already computed) and sealed in place by `mine`, which searches for a nonce
//! whose digest carries the required number of leading `'0'` characters.

use vstd::prelude::*;
use vstd::string::{StrSliceExecFns, StringExecFns};

use crate::codec::{block_bytes, spec_block_bytes};
use crate::crypto::{sha256, sha256_of};
use crate::hexstr::{hex_encode, spec_hex_encode};
use crate::tx::{clone_txs, txs_view, Tx, TxV};

verus! {

/// The parent-hash sentinel of the genesis block: not a real digest.
pub open spec fn genesis_parent() -> Seq<char> {
    seq!['0']
}

#[derive(Debug)]
pub struct Block {
    pub height: u64,
    pub hash: String,
    pub parent_hash: String,
    pub txs: Vec<Tx>,
    pub nonce: u64,
}

/// The mathematical model of a block.
pub struct BlockV {
    pub height: u64,
    pub hash: Seq<char>,
    pub parent_hash: Seq<char>,
    pub txs: Seq<TxV>,
    pub nonce: u64,
}

impl View for Block {
    type V = BlockV;

    open spec fn view(&self) -> BlockV {
        BlockV {
            height: self.height,
            hash: self.hash@,
            parent_hash: self.parent_hash@,
            txs: txs_view(self.txs@),
            nonce: self.nonce,
        }
    }
}

/// The digest a block with these fields must carry: 64 lowercase hex
/// characters over the canonical encoding of `(height, parent_hash, nonce,
/// txs)`.
#[verifier::opaque]
pub open spec fn spec_block_hash(height: u64, parent: Seq<char>, nonce: u64, txs: Seq<TxV>) -> Seq<
    char,
> {
    spec_hex_encode(sha256_of(spec_block_bytes(height, parent, nonce, txs)))
}

/// Whether a digest has at least `difficulty` leading `'0'` characters.
pub open spec fn spec_meets_difficulty(hash: Seq<char>, difficulty: int) -> bool {
    forall|i: int| 0 <= i < difficulty ==> hash[i] == '0'
}

impl Block {
    /// The block's stored hash is the digest of its own fields.
    pub open spec fn wf(&self) -> bool {
        &&& self.hash@ == spec_block_hash(
            self.height,
            self.parent_hash@,
            self.nonce,
            txs_view(self.txs@),
        )
        &&& self.hash@.len() == 64
    }

    /// Genesis: height 0, sentinel parent, nonce 0, hash computed at once.
    pub fn init(txs: &Vec<Tx>) -> (r: Block)
        ensures
            r.wf(),
            r.height == 0,
            r.parent_hash@ == genesis_parent(),
            txs_view(r.txs@) == txs_view(txs@),
            r.nonce == 0,
    {
        let parent = String::from_str("0");
        proof {
            reveal_strlit("0");
            assert(parent@ =~= genesis_parent());
        }
        Block::new(parent, 0, clone_txs(txs))
    }

    /// The parent's successor: height one more, linked by the parent's hash,
    /// nonce 0, hash computed at once.
    pub fn next(prev: &Block, txs: &Vec<Tx>) -> (r: Block)
        requires
            prev.height < u64::MAX,
        ensures
            r.wf(),
            r.height == prev.height + 1,
            r.parent_hash@ == prev.hash@,
            txs_view(r.txs@) == txs_view(txs@),
            r.nonce == 0,
    {
        Block::new(prev.hash.clone(), prev.height + 1, clone_txs(txs))
    }

    fn new(parent_hash: String, height: u64, txs: Vec<Tx>) -> (r: Block)
        ensures
            r.wf(),
            r.height == height,
            r.parent_hash@ == parent_hash@,
            txs_view(r.txs@) == txs_view(txs@),
            r.nonce == 0,
    {
        let mut block = Block { height, txs, parent_hash, hash: String::new(), nonce: 0 };
        let hash = block.to_hash();
        block.hash = hash;
        block
    }

    /// Recompute the digest of the block's current fields; a pure function of
    /// `(height, parent_hash, nonce, txs)`.
    pub fn to_hash(&self) -> (r: String)
        ensures
            r@ == spec_block_hash(self.height, self.parent_hash@, self.nonce, txs_view(self.txs@)),
            r@.len() == 64,
    {
        proof {
            reveal(spec_block_hash);
        }
        let data = block_bytes(self.height, &self.parent_hash, self.nonce, &self.txs);
        let digest = sha256(&data);
        hex_encode(&digest)
    }

    /// Search nonces upward from the current one until the digest has
    /// `difficulty` leading zeros. The final nonce is the least qualifying one
    /// at or above the starting nonce — so at difficulty 0 the block is left
    /// exactly as it was. Returns false only if no nonce up to `u64::MAX`
    /// qualifies — unreachable in practice, but the search is finite. The
    /// block's other fields are untouched; its hash always matches its fields.
    pub fn mine(&mut self, difficulty: usize) -> (r: bool)
        requires
            difficulty <= 64,
            old(self).wf(),
        ensures
            final(self).wf(),
            final(self).height == old(self).height,
            final(self).parent_hash@ == old(self).parent_hash@,
            txs_view(final(self).txs@) == txs_view(old(self).txs@),
            final(self).nonce >= old(self).nonce,
            r ==> spec_meets_difficulty(final(self).hash@, difficulty as int),
            forall|n: u64|
                old(self).nonce <= n < final(self).nonce ==> !spec_meets_difficulty(
                    #[trigger] spec_block_hash(
                        old(self).height,
                        old(self).parent_hash@,
                        n,
                        txs_view(old(self).txs@),
                    ),
                    difficulty as int,
                ),
            !r ==> final(self).nonce == u64::MAX && forall|n: u64|
                n >= old(self).nonce ==> !spec_meets_difficulty(
                    #[trigger] spec_block_hash(
                        old(self).height,
                        old(self).parent_hash@,
                        n,
                        txs_view(old(self).txs@),
                    ),
                    difficulty as int,
                ),
    {
        loop
            invariant
                difficulty <= 64,
                self.wf(),
                self.height == old(self).height,
                self.parent_hash@ == old(self).parent_hash@,
                txs_view(self.txs@) == txs_view(old(self).txs@),
                self.nonce >= old(self).nonce,
                forall|n: u64|
                    old(self).nonce <= n < self.nonce ==> !spec_meets_difficulty(
                        #[trigger] spec_block_hash(
                            old(self).height,
                            old(self).parent_hash@,
                            n,
                            txs_view(old(self).txs@),
                        ),
                        difficulty as int,
                    ),
            decreases u64::MAX - self.nonce,
        {
            if meets_difficulty(&self.hash, difficulty) {
                return true;
            }
            proof {
                assert(!spec_meets_difficulty(
                    spec_block_hash(
                        old(self).height,
                        old(self).parent_hash@,
                        self.nonce,
                        txs_view(old(self).txs@),
                    ),
                    difficulty as int,
                ));
            }
            if self.nonce == u64::MAX {
                proof {
                    assert forall|n: u64| n >= old(self).nonce implies !spec_meets_difficulty(
                        #[trigger] spec_block_hash(
                            old(self).height,
                            old(self).parent_hash@,
                            n,
                            txs_view(old(self).txs@),
                        ),
                        difficulty as int,
                    ) by {
                        if n == u64::MAX {
                            assert(n == self.nonce);
                        }
                    }
                }
                return false;
            }
            let ghost searched = self.nonce;
            self.nonce = self.nonce + 1;
            let hash = self.to_hash();
            self.hash = hash;
            proof {
                assert forall|n: u64|
                    old(self).nonce <= n < self.nonce implies !spec_meets_difficulty(
                    #[trigger] spec_block_hash(
                        old(self).height,
                        old(self).parent_hash@,
                        n,
                        txs_view(old(self).txs@),
                    ),
                    difficulty as int,
                ) by {
                    if n == searched {
                        assert(n == self.nonce - 1);
                    }
                }
            }
        }
    }
}

fn meets_difficulty(hash: &String, difficulty: usize) -> (r: bool)
    requires
        difficulty <= hash@.len(),
    ensures
        r == spec_meets_difficulty(hash@, difficulty as int),
{
    let mut i: usize = 0;
    while i < difficulty
        invariant
            i <= difficulty,
            difficulty <= hash@.len(),
            forall|j: int| 0 <= j < i ==> hash@[j] == '0',
        decreases difficulty - i,
    {
        if hash.as_str().get_char(i) != '0' {
            return false;
        }
        i = i + 1;
    }
    true
}

/// The digest is a pure function of the sealed fields: equal `(height,
/// parent_hash, nonce, txs)` give an equal digest. (That changing a field
/// changes the digest is the hash function's collision resistance, which no
/// contract here states.)
pub proof fn lemma_block_hash_deterministic(
    height_a: u64,
    parent_a: Seq<char>,
    nonce_a: u64,
    txs_a: Seq<TxV>,
    height_b: u64,
    parent_b: Seq<char>,
    nonce_b: u64,
    txs_b: Seq<TxV>,
)
    requires
        height_a == height_b,
        parent_a == parent_b,
        nonce_a == nonce_b,
        txs_a == txs_b,
    ensures
        spec_block_hash(height_a, parent_a, nonce_a, txs_a) == spec_block_hash(
            height_b,
            parent_b,
            nonce_b,
            txs_b,
        ),
{
}

} // verus!
