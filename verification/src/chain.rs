//! The chain: builds, mines and appends blocks, and owns the ledger. A block
//! is pushed only after the ledger accepted it, so every stored block has been
//! validated; `is_valid` independently rechecks the stored hash links.

use vstd::prelude::*;

use crate::block::{genesis_parent, spec_block_hash, spec_meets_difficulty, Block, BlockV};
use crate::ledger::{spec_ledger_init, spec_ledger_step, Ledger, LedgerV};
use crate::tx::{txs_view, Tx};
use crate::ChainError;

verus! {

#[derive(Debug)]
pub struct Chain {
    pub blocks: Vec<Block>,
    pub ledger: Ledger,
}

/// The mathematical model of a chain.
#[verifier::ext_equal]
pub struct ChainV {
    pub blocks: Seq<BlockV>,
    pub ledger: LedgerV,
}

pub open spec fn blocks_view(blocks: Seq<Block>) -> Seq<BlockV> {
    blocks.map_values(|b: Block| b@)
}

impl View for Chain {
    type V = ChainV;

    open spec fn view(&self) -> ChainV {
        ChainV { blocks: blocks_view(self.blocks@), ledger: self.ledger@ }
    }
}

/// What `is_valid` checks of the stored blocks: each block past genesis
/// carries the digest of its own fields, and names its predecessor's hash as
/// its parent.
pub open spec fn spec_links_ok(blocks: Seq<BlockV>) -> bool {
    forall|i: int|
        1 <= i < blocks.len() ==> {
            let b = #[trigger] blocks[i];
            b.hash == spec_block_hash(b.height, b.parent_hash, b.nonce, b.txs)
                && b.parent_hash == blocks[i - 1].hash
        }
}

proof fn lemma_blocks_view_push(s: Seq<Block>, b: Block)
    ensures
        blocks_view(s.push(b)) == blocks_view(s).push(b@),
{
    assert(blocks_view(s.push(b)) =~= blocks_view(s).push(b@));
}

impl Chain {
    /// The chain invariant: a genesis block at the bottom, each block's height
    /// its position, each sealed by the digest of its own fields and linked to
    /// its predecessor's hash, and the ledger exactly at the last height.
    pub open spec fn wf(&self) -> bool {
        &&& self.ledger.wf()
        &&& self.blocks@.len() >= 1
        &&& forall|i: int| 0 <= i < self.blocks@.len() ==> (#[trigger] self.blocks@[i]).wf()
        &&& forall|i: int| 0 <= i < self.blocks@.len() ==> (#[trigger] self.blocks@[i]).height == i
        &&& self.blocks@[0].parent_hash@ == genesis_parent()
        &&& forall|i: int|
            1 <= i < self.blocks@.len() ==> (#[trigger] self.blocks@[i]).parent_hash@
                == self.blocks@[i - 1].hash@
        &&& self.ledger.height == self.blocks@.len() - 1
    }

    /// Build and apply the genesis block over a fresh ledger under `admin`;
    /// the block is kept only because the ledger accepted it. The result is
    /// exactly what one ledger step from the fresh state gives.
    pub fn new(admin: Vec<u8>, txs: &Vec<Tx>) -> (r: Result<Chain, ChainError>)
        ensures
            match r {
                Ok(c) => {
                    &&& c.wf()
                    &&& c@.blocks.len() == 1
                    &&& c@.blocks[0].height == 0
                    &&& c@.blocks[0].parent_hash == genesis_parent()
                    &&& c@.blocks[0].nonce == 0
                    &&& c@.blocks[0].txs == txs_view(txs@)
                    &&& spec_ledger_step(spec_ledger_init(admin@), 0, txs_view(txs@))
                        == Ok::<LedgerV, ChainError>(c@.ledger)
                },
                Err(e) => spec_ledger_step(spec_ledger_init(admin@), 0, txs_view(txs@))
                    == Err::<LedgerV, ChainError>(e),
            },
    {
        let genesis = Block::init(txs);
        let mut ledger = Ledger::new(admin);
        match ledger.update(&genesis) {
            Err(e) => Err(e),
            Ok(u) => {
                let mut blocks: Vec<Block> = Vec::new();
                blocks.push(genesis);
                let chain = Chain { blocks, ledger };
                Ok(chain)
            },
        }
    }

    /// Build the next block from the current head and `txs`, mine it at the
    /// ledger's difficulty, and append it only if the ledger accepts it. On
    /// any error the chain is exactly as it was; `Policy` is also returned in
    /// the one unreachable case that mining exhausts the nonce space.
    #[verifier::rlimit(100)]
    pub fn submit(&mut self, txs: &Vec<Tx>) -> (r: Result<(), ChainError>)
        requires
            old(self).wf(),
            old(self).ledger.height < u64::MAX,
        ensures
            final(self).wf(),
            match r {
                Ok(u) => {
                    &&& final(self)@.blocks.len() == old(self)@.blocks.len() + 1
                    &&& final(self)@.blocks.take(old(self)@.blocks.len() as int) == old(
                        self,
                    )@.blocks
                    &&& final(self)@.blocks.last().height == old(self)@.ledger.height + 1
                    &&& final(self)@.blocks.last().parent_hash == old(self)@.blocks.last().hash
                    &&& final(self)@.blocks.last().txs == txs_view(txs@)
                    &&& spec_meets_difficulty(
                        final(self)@.blocks.last().hash,
                        old(self)@.ledger.difficulty as int,
                    )
                    &&& spec_ledger_step(
                        old(self)@.ledger,
                        final(self)@.blocks.last().height,
                        txs_view(txs@),
                    ) == Ok::<LedgerV, ChainError>(final(self)@.ledger)
                },
                Err(e) => {
                    &&& final(self)@ == old(self)@
                    &&& (spec_ledger_step(
                        old(self)@.ledger,
                        (old(self)@.ledger.height + 1) as u64,
                        txs_view(txs@),
                    ) == Err::<LedgerV, ChainError>(e) || (e == ChainError::Policy
                        && forall|n: u64|
                        !spec_meets_difficulty(
                            #[trigger] spec_block_hash(
                                (old(self)@.ledger.height + 1) as u64,
                                old(self)@.blocks.last().hash,
                                n,
                                txs_view(txs@),
                            ),
                            old(self)@.ledger.difficulty as int,
                        )))
                },
            },
    {
        let parent = self.latest_block();
        let mut child = Block::next(parent, txs);
        let ghost child_height = child.height;
        let ghost child_parent = child.parent_hash@;
        let ghost child_txs = txs_view(child.txs@);
        let sealed = child.mine(self.ledger.difficulty);
        if !sealed {
            proof {
                let len = old(self).blocks@.len() as int;
                assert(old(self)@.blocks.last() == old(self).blocks@[len - 1]@);
                assert forall|n: u64|
                    !spec_meets_difficulty(
                        #[trigger] spec_block_hash(
                            (old(self)@.ledger.height + 1) as u64,
                            old(self)@.blocks.last().hash,
                            n,
                            txs_view(txs@),
                        ),
                        old(self)@.ledger.difficulty as int,
                    ) by {
                    assert(!spec_meets_difficulty(
                        spec_block_hash(child_height, child_parent, n, child_txs),
                        self.ledger.difficulty as int,
                    ));
                    assert(child_height == (old(self)@.ledger.height + 1) as u64);
                    assert(child_parent == old(self)@.blocks.last().hash);
                    assert(child_txs == txs_view(txs@));
                }
            }
            return Err(ChainError::Policy);
        }
        let ghost old_blocks = self.blocks@;
        match self.ledger.update(&child) {
            Err(e) => Err(e),
            Ok(u) => {
                self.blocks.push(child);
                proof {
                    lemma_blocks_view_push(old_blocks, child);
                    assert(self@.blocks.take(old(self)@.blocks.len() as int) =~= old(self)@.blocks);
                    assert(self@.blocks.last() == child@);
                    assert(self.blocks@ == old_blocks.push(child));
                    assert forall|i: int| 0 <= i < self.blocks@.len() implies (
                    #[trigger] self.blocks@[i]).wf() && self.blocks@[i].height == i by {
                        if i < old_blocks.len() {
                            assert(self.blocks@[i] == old(self).blocks@[i]);
                        } else {
                            assert(self.blocks@[i] == child);
                        }
                    }
                    assert forall|i: int| 1 <= i < self.blocks@.len() implies (
                    #[trigger] self.blocks@[i]).parent_hash@ == self.blocks@[i - 1].hash@ by {
                        if i < old_blocks.len() {
                            assert(self.blocks@[i] == old(self).blocks@[i]);
                            assert(self.blocks@[i - 1] == old(self).blocks@[i - 1]);
                        } else {
                            assert(self.blocks@[i] == child);
                            assert(self.blocks@[i - 1] == old(self).blocks@[i - 1]);
                        }
                    }
                }
                Ok(())
            },
        }
    }

    /// Recheck the stored hash links: every block past genesis must carry the
    /// digest of its own fields and its predecessor's hash. Signatures and
    /// balances are the ledger's business at append time, not rechecked here.
    pub fn is_valid(&self) -> (r: bool)
        ensures
            r == spec_links_ok(self@.blocks),
            self.wf() ==> r,
    {
        proof {
            if self.wf() {
                lemma_wf_chain_links_ok(self);
            }
        }
        let mut i: usize = 1;
        while i < self.blocks.len()
            invariant
                1 <= i,
                self.blocks@.len() > 0 ==> i <= self.blocks@.len(),
                forall|j: int|
                    1 <= j < i ==> {
                        let b = #[trigger] self@.blocks[j];
                        b.hash == spec_block_hash(b.height, b.parent_hash, b.nonce, b.txs)
                            && b.parent_hash == self@.blocks[j - 1].hash
                    },
            decreases self.blocks@.len() - i,
        {
            let child = &self.blocks[i];
            let parent = &self.blocks[i - 1];
            let computed = child.to_hash();
            if !(child.hash == computed) {
                proof {
                    assert(self@.blocks[i as int] == self.blocks@[i as int]@);
                }
                return false;
            }
            if !(child.parent_hash == parent.hash) {
                proof {
                    assert(self@.blocks[i as int] == self.blocks@[i as int]@);
                }
                return false;
            }
            i = i + 1;
        }
        true
    }

    fn latest_block(&self) -> (r: &Block)
        requires
            self.blocks@.len() >= 1,
        ensures
            r == self.blocks@[self.blocks@.len() - 1],
    {
        &self.blocks[self.blocks.len() - 1]
    }
}

/// Any well-formed chain — in particular one built solely through `Chain::new`
/// and `Chain::submit`, whose contracts keep `wf` — passes the hash-link
/// integrity check.
pub proof fn lemma_wf_chain_links_ok(c: &Chain)
    requires
        c.wf(),
    ensures
        spec_links_ok(c@.blocks),
{
    assert forall|i: int| 1 <= i < c@.blocks.len() implies {
        let b = #[trigger] c@.blocks[i];
        b.hash == spec_block_hash(b.height, b.parent_hash, b.nonce, b.txs) && b.parent_hash
            == c@.blocks[i - 1].hash
    } by {
        assert(c@.blocks[i] == c.blocks@[i]@);
        assert(c@.blocks[i - 1] == c.blocks@[i - 1]@);
        assert(c.blocks@[i].wf());
    }
}

} // verus!
