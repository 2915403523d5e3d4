//! The ledger: the account/governance state machine, and the sole authority
//! that accepts or rejects a block's transactions. `update` is all-or-nothing:
//! a block's transactions are applied to a scratch copy, committed only when
//! every one of them has validated and applied; on any failure the ledger is
//! left exactly as it was.

use vstd::prelude::*;

use crate::block::Block;
use crate::tx::{spec_validate, txs_view, Op, OpV, TxV};
use crate::ChainError;

verus! {

/// One account: an address and its balance.
#[derive(Debug)]
pub struct Account {
    pub addr: String,
    pub bal: u64,
}

#[derive(Debug)]
pub struct Ledger {
    pub height: u64,
    pub accounts: Vec<Account>,
    pub messages: Vec<String>,
    pub difficulty: usize,
    pub admin: Vec<u8>,
}

/// The mathematical model of the ledger.
#[verifier::ext_equal]
pub struct LedgerV {
    pub height: u64,
    pub accounts: Map<Seq<char>, u64>,
    pub messages: Seq<Seq<char>>,
    pub difficulty: usize,
    pub admin: Seq<u8>,
}

/// The balance map an account list denotes; later entries would win, but a
/// well-formed ledger keeps addresses distinct.
pub open spec fn accounts_map(s: Seq<Account>) -> Map<Seq<char>, u64>
    decreases s.len(),
{
    if s.len() == 0 {
        Map::empty()
    } else {
        accounts_map(s.drop_last()).insert(s.last().addr@, s.last().bal)
    }
}

pub open spec fn msgs_view(msgs: Seq<String>) -> Seq<Seq<char>> {
    msgs.map_values(|m: String| m@)
}

pub open spec fn distinct_addrs(s: Seq<Account>) -> bool {
    forall|i: int, j: int| 0 <= i < j < s.len() ==> s[i].addr@ != s[j].addr@
}

impl View for Ledger {
    type V = LedgerV;

    open spec fn view(&self) -> LedgerV {
        LedgerV {
            height: self.height,
            accounts: accounts_map(self.accounts@),
            messages: msgs_view(self.messages@),
            difficulty: self.difficulty,
            admin: self.admin@,
        }
    }
}

/// A fresh ledger at height 0 under `admin`: no accounts, no messages,
/// difficulty 0.
pub open spec fn spec_ledger_init(admin: Seq<u8>) -> LedgerV {
    LedgerV {
        height: 0,
        accounts: Map::empty(),
        messages: Seq::empty(),
        difficulty: 0,
        admin,
    }
}

/// A block at `bh` may follow a ledger at `lh`: the genesis bootstrap, or the
/// exact successor height.
pub open spec fn spec_height_ok(lh: u64, bh: u64) -> bool {
    (bh == 0 && lh == 0) || bh == lh + 1
}

/// One already-authorized operation against the ledger's policy. `Msg`
/// appends; `SetDifficulty` takes effect for future mining and must not exceed
/// the digest's 64 hex characters; `Coinbase` is genesis-only and overwrites;
/// `Pay` needs an existing, sufficient source, debits it and credits `dst`
/// (creating it if absent), refusing a balance beyond `u64::MAX`.
pub open spec fn spec_apply_op(l: LedgerV, src: Seq<char>, op: OpV, bheight: u64) -> Result<
    LedgerV,
    ChainError,
> {
    match op {
        OpV::Msg(m) => Ok(LedgerV { messages: l.messages.push(m), ..l }),
        OpV::SetDifficulty(n) => if n <= 64 {
            Ok(LedgerV { difficulty: n, ..l })
        } else {
            Err(ChainError::Policy)
        },
        OpV::Coinbase { dst, amount } => if bheight > 0 {
            Err(ChainError::Policy)
        } else {
            Ok(LedgerV { accounts: l.accounts.insert(dst, amount), ..l })
        },
        OpV::Pay { dst, amount } => if !l.accounts.dom().contains(src) {
            Err(ChainError::Policy)
        } else if l.accounts[src] < amount {
            Err(ChainError::Policy)
        } else {
            let debited = l.accounts.insert(src, (l.accounts[src] - amount) as u64);
            let prev: u64 = if debited.dom().contains(dst) {
                debited[dst]
            } else {
                0u64
            };
            if prev + amount > u64::MAX {
                Err(ChainError::Policy)
            } else {
                Ok(LedgerV { accounts: debited.insert(dst, (prev + amount) as u64), ..l })
            }
        },
    }
}

/// A transaction sequence applied in block order: each transaction must
/// verify under the policy's required key, then apply; the first failure
/// decides the result.
pub open spec fn spec_apply_txs(l: LedgerV, txs: Seq<TxV>, bheight: u64) -> Result<
    LedgerV,
    ChainError,
>
    decreases txs.len(),
{
    if txs.len() == 0 {
        Ok(l)
    } else {
        match spec_apply_txs(l, txs.drop_last(), bheight) {
            Err(e) => Err(e),
            Ok(cur) => {
                let t = txs.last();
                match spec_validate(t, l.admin) {
                    Err(e) => Err(e),
                    Ok(u) => spec_apply_op(cur, t.src, t.op, bheight),
                }
            },
        }
    }
}

/// What `Ledger::update` does with a block of height `bheight` carrying
/// `txs`: a `Sequence` error off the successor height, otherwise the
/// transactions applied atomically and the height advanced.
pub open spec fn spec_ledger_step(l: LedgerV, bheight: u64, txs: Seq<TxV>) -> Result<
    LedgerV,
    ChainError,
> {
    if !spec_height_ok(l.height, bheight) {
        Err(ChainError::Sequence)
    } else {
        match spec_apply_txs(l, txs, bheight) {
            Err(e) => Err(e),
            Ok(cur) => Ok(LedgerV { height: bheight, ..cur }),
        }
    }
}

pub open spec fn spec_update(l: LedgerV, b: crate::block::BlockV) -> Result<LedgerV, ChainError> {
    spec_ledger_step(l, b.height, b.txs)
}

/// An error anywhere in a prefix decides the whole sequence.
proof fn lemma_apply_txs_err(l: LedgerV, txs: Seq<TxV>, bheight: u64, j: int)
    requires
        0 <= j <= txs.len(),
        spec_apply_txs(l, txs.take(j), bheight) is Err,
    ensures
        spec_apply_txs(l, txs, bheight) == spec_apply_txs(l, txs.take(j), bheight),
    decreases txs.len(),
{
    if txs.len() == j {
        assert(txs.take(j) =~= txs);
    } else {
        assert(txs.drop_last().take(j) =~= txs.take(j));
        lemma_apply_txs_err(l, txs.drop_last(), bheight, j);
    }
}

/// An address is in the balance map exactly when some entry carries it.
proof fn lemma_accounts_map_contains(s: Seq<Account>, a: Seq<char>)
    ensures
        accounts_map(s).dom().contains(a) <==> exists|i: int| 0 <= i < s.len() && s[i].addr@ == a,
    decreases s.len(),
{
    if s.len() > 0 {
        lemma_accounts_map_contains(s.drop_last(), a);
        if s.last().addr@ == a {
            assert(s[s.len() - 1].addr@ == a);
        } else if accounts_map(s).dom().contains(a) {
            let i = choose|i: int| 0 <= i < s.drop_last().len() && s.drop_last()[i].addr@ == a;
            assert(s[i].addr@ == a);
        } else if exists|i: int| 0 <= i < s.len() && s[i].addr@ == a {
            let i = choose|i: int| 0 <= i < s.len() && s[i].addr@ == a;
            assert(s.drop_last()[i].addr@ == a);
        }
    }
}

/// With distinct addresses, the map's value at an entry's address is that
/// entry's balance.
proof fn lemma_accounts_map_value(s: Seq<Account>, i: int)
    requires
        distinct_addrs(s),
        0 <= i < s.len(),
    ensures
        accounts_map(s).dom().contains(s[i].addr@),
        accounts_map(s)[s[i].addr@] == s[i].bal,
    decreases s.len(),
{
    if i < s.len() - 1 {
        lemma_accounts_map_value(s.drop_last(), i);
        assert(s.drop_last()[i] == s[i]);
        assert(s.last().addr@ != s[i].addr@);
    }
}

/// Replacing an entry's balance inserts at its address in the map.
proof fn lemma_accounts_map_update(s: Seq<Account>, i: int, acc2: Account)
    requires
        distinct_addrs(s),
        0 <= i < s.len(),
        acc2.addr@ == s[i].addr@,
    ensures
        accounts_map(s.update(i, acc2)) == accounts_map(s).insert(s[i].addr@, acc2.bal),
        distinct_addrs(s.update(i, acc2)),
    decreases s.len(),
{
    let s2 = s.update(i, acc2);
    if i == s.len() - 1 {
        assert(s2.drop_last() =~= s.drop_last());
        assert(accounts_map(s2) =~= accounts_map(s).insert(s[i].addr@, acc2.bal));
    } else {
        lemma_accounts_map_update(s.drop_last(), i, acc2);
        assert(s2.drop_last() =~= s.drop_last().update(i, acc2));
        assert(s.last().addr@ != s[i].addr@);
        assert(s2.last() == s.last());
        assert(accounts_map(s2) =~= accounts_map(s).insert(s[i].addr@, acc2.bal));
    }
}

/// Appending a fresh address inserts it in the map.
proof fn lemma_accounts_map_push(s: Seq<Account>, acc: Account)
    requires
        distinct_addrs(s),
        forall|i: int| 0 <= i < s.len() ==> s[i].addr@ != acc.addr@,
    ensures
        accounts_map(s.push(acc)) == accounts_map(s).insert(acc.addr@, acc.bal),
        distinct_addrs(s.push(acc)),
{
    assert(s.push(acc).drop_last() =~= s);
    assert(s.push(acc).last() == acc);
}

fn find_account(accs: &Vec<Account>, addr: &String) -> (r: Option<usize>)
    ensures
        match r {
            Some(i) => i < accs@.len() && accs@[i as int].addr@ == addr@,
            None => forall|i: int| 0 <= i < accs@.len() ==> accs@[i].addr@ != addr@,
        },
{
    let mut i: usize = 0;
    while i < accs.len()
        invariant
            i <= accs@.len(),
            forall|j: int| 0 <= j < i ==> accs@[j].addr@ != addr@,
        decreases accs@.len() - i,
    {
        if accs[i].addr == *addr {
            return Some(i);
        }
        i = i + 1;
    }
    None
}

fn get_balance(accs: &Vec<Account>, addr: &String) -> (r: Option<u64>)
    requires
        distinct_addrs(accs@),
    ensures
        r is Some <==> accounts_map(accs@).dom().contains(addr@),
        r matches Some(v) ==> accounts_map(accs@)[addr@] == v,
{
    proof {
        lemma_accounts_map_contains(accs@, addr@);
    }
    match find_account(accs, addr) {
        Some(i) => {
            proof {
                lemma_accounts_map_value(accs@, i as int);
            }
            Some(accs[i].bal)
        },
        None => None,
    }
}

fn set_balance(accs: &mut Vec<Account>, addr: &String, v: u64)
    requires
        distinct_addrs(old(accs)@),
    ensures
        distinct_addrs(final(accs)@),
        accounts_map(final(accs)@) == accounts_map(old(accs)@).insert(addr@, v),
{
    match find_account(accs, addr) {
        Some(i) => {
            let acc2 = Account { addr: addr.clone(), bal: v };
            accs.remove(i);
            accs.insert(i, acc2);
            proof {
                assert(accs@ =~= old(accs)@.update(i as int, acc2));
                lemma_accounts_map_update(old(accs)@, i as int, acc2);
            }
        },
        None => {
            let acc = Account { addr: addr.clone(), bal: v };
            accs.push(acc);
            proof {
                lemma_accounts_map_push(old(accs)@, acc);
            }
        },
    }
}

fn clone_accounts(accs: &Vec<Account>) -> (r: Vec<Account>)
    ensures
        r@ == accs@,
{
    let mut r: Vec<Account> = Vec::new();
    let mut i: usize = 0;
    while i < accs.len()
        invariant
            i <= accs@.len(),
            r@.len() == i,
            forall|j: int| 0 <= j < i ==> #[trigger] r@[j] == accs@[j],
        decreases accs@.len() - i,
    {
        r.push(Account { addr: accs[i].addr.clone(), bal: accs[i].bal });
        i = i + 1;
    }
    proof {
        assert(r@ =~= accs@);
    }
    r
}

proof fn lemma_msgs_view_push(a: Seq<String>, m: String)
    ensures
        msgs_view(a.push(m)) == msgs_view(a).push(m@),
{
    assert(msgs_view(a.push(m)) =~= msgs_view(a).push(m@));
}

proof fn lemma_msgs_view_concat(a: Seq<String>, b: Seq<String>)
    ensures
        msgs_view(a + b) == msgs_view(a) + msgs_view(b),
{
    assert(msgs_view(a + b) =~= msgs_view(a) + msgs_view(b));
}

/// The scratch state mid-way through a block: the entry state's height and
/// admin, the scratch accounts, the entry messages plus those collected, and
/// the working difficulty.
spec fn scratch_view(l0: LedgerV, accs: Seq<Account>, msgs: Seq<String>, diff: usize) -> LedgerV {
    LedgerV {
        height: l0.height,
        accounts: accounts_map(accs),
        messages: l0.messages + msgs_view(msgs),
        difficulty: diff,
        admin: l0.admin,
    }
}

impl Ledger {
    /// Distinct account addresses, and a difficulty the digest can carry.
    pub open spec fn wf(&self) -> bool {
        &&& distinct_addrs(self.accounts@)
        &&& self.difficulty <= 64
    }

    /// A fresh ledger under `admin`.
    pub fn new(admin: Vec<u8>) -> (r: Ledger)
        ensures
            r.wf(),
            r@ == spec_ledger_init(admin@),
    {
        let r = Ledger {
            height: 0,
            accounts: Vec::new(),
            messages: Vec::new(),
            difficulty: 0,
            admin,
        };
        proof {
            assert(r@ =~= spec_ledger_init(r.admin@));
        }
        r
    }

    /// The balance of `addr`, if the account exists.
    pub fn balance_of(&self, addr: &String) -> (r: Option<u64>)
        requires
            self.wf(),
        ensures
            r is Some <==> self@.accounts.dom().contains(addr@),
            r matches Some(v) ==> self@.accounts[addr@] == v,
    {
        get_balance(&self.accounts, addr)
    }

    /// Validate and apply one block, atomically: the result and the new state
    /// are exactly `spec_update(old(self)@, block@)`, and on any error the
    /// ledger is unchanged.
    pub fn update(&mut self, block: &Block) -> (r: Result<(), ChainError>)
        requires
            old(self).wf(),
        ensures
            final(self).wf(),
            match r {
                Ok(u) => spec_update(old(self)@, block@) == Ok::<LedgerV, ChainError>(
                    final(self)@,
                ),
                Err(e) => final(self)@ == old(self)@ && spec_update(old(self)@, block@)
                    == Err::<LedgerV, ChainError>(e),
            },
    {
        let height_ok: bool = if block.height == 0 {
            self.height == 0
        } else {
            self.height == block.height - 1
        };
        if !height_ok {
            return Err(ChainError::Sequence);
        }
        let ghost l0 = self@;
        let ghost tv = txs_view(block.txs@);
        let mut accs = clone_accounts(&self.accounts);
        let mut new_msgs: Vec<String> = Vec::new();
        let mut diff = self.difficulty;
        let mut i: usize = 0;
        proof {
            assert(tv.take(0) =~= Seq::<TxV>::empty());
            assert(l0 =~= scratch_view(l0, accs@, new_msgs@, diff));
        }
        while i < block.txs.len()
            invariant
                *self == *old(self),
                self.wf(),
                l0 == self@,
                tv == txs_view(block.txs@),
                spec_height_ok(l0.height, block.height),
                i <= block.txs@.len(),
                distinct_addrs(accs@),
                diff <= 64,
                spec_apply_txs(l0, tv.take(i as int), block.height) == Ok::<LedgerV, ChainError>(
                    scratch_view(l0, accs@, new_msgs@, diff),
                ),
            decreases block.txs@.len() - i,
        {
            let ghost cur = scratch_view(l0, accs@, new_msgs@, diff);
            let tx = &block.txs[i];
            proof {
                assert(tv.take(i + 1).drop_last() =~= tv.take(i as int));
                assert(tv.take(i + 1).last() == tx@);
            }
            let checked = tx.validate(&self.admin);
            if let Err(e) = checked {
                proof {
                    assert(spec_apply_txs(l0, tv.take(i + 1), block.height) == Err::<
                        LedgerV,
                        ChainError,
                    >(e));
                    lemma_apply_txs_err(l0, tv, block.height, i + 1);
                }
                return Err(e);
            }
            let ghost step = spec_apply_op(cur, tx@.src, tx@.op, block.height);
            match &tx.op {
                Op::Msg(m) => {
                    let ghost before = new_msgs@;
                    new_msgs.push(m.clone());
                    proof {
                        lemma_msgs_view_push(before, new_msgs@.last());
                    }
                },
                Op::SetDifficulty(n) => {
                    if *n > 64 {
                        proof {
                            lemma_apply_txs_err(l0, tv, block.height, i + 1);
                        }
                        return Err(ChainError::Policy);
                    }
                    diff = *n;
                },
                Op::Coinbase { dst, amount } => {
                    if block.height > 0 {
                        proof {
                            lemma_apply_txs_err(l0, tv, block.height, i + 1);
                        }
                        return Err(ChainError::Policy);
                    }
                    set_balance(&mut accs, dst, *amount);
                },
                Op::Pay { dst, amount } => {
                    let src_bal = get_balance(&accs, &tx.src);
                    match src_bal {
                        None => {
                            proof {
                                lemma_apply_txs_err(l0, tv, block.height, i + 1);
                            }
                            return Err(ChainError::Policy);
                        },
                        Some(b) => {
                            if b < *amount {
                                proof {
                                    lemma_apply_txs_err(l0, tv, block.height, i + 1);
                                }
                                return Err(ChainError::Policy);
                            }
                            set_balance(&mut accs, &tx.src, b - *amount);
                            let prev: u64 = match get_balance(&accs, dst) {
                                Some(p) => p,
                                None => 0,
                            };
                            if prev > u64::MAX - *amount {
                                proof {
                                    lemma_apply_txs_err(l0, tv, block.height, i + 1);
                                }
                                return Err(ChainError::Policy);
                            }
                            set_balance(&mut accs, dst, prev + *amount);
                        },
                    }
                },
            }
            proof {
                let next = scratch_view(l0, accs@, new_msgs@, diff);
                assert(step == Ok::<LedgerV, ChainError>(next)) by {
                    assert(step is Ok && step.unwrap() =~= next);
                };
                assert(spec_apply_txs(l0, tv.take(i + 1), block.height) == Ok::<
                    LedgerV,
                    ChainError,
                >(next));
            }
            i = i + 1;
        }
        proof {
            assert(tv.take(block.txs@.len() as int) =~= tv);
        }
        let ghost accs_final = accs@;
        let ghost collected = new_msgs@;
        self.accounts = accs;
        self.messages.append(&mut new_msgs);
        self.difficulty = diff;
        self.height = block.height;
        proof {
            lemma_msgs_view_concat(old(self).messages@, collected);
            let stepped = spec_apply_txs(l0, tv, block.height).unwrap();
            assert(stepped == scratch_view(l0, accs_final, collected, diff));
            assert(self@ =~= LedgerV { height: block.height, ..stepped });
        }
        Ok(())
    }
}

/// A block whose height is not the ledger's successor is refused with
/// `Sequence`, whatever it carries; `update`'s contract then leaves the
/// ledger unchanged.
pub proof fn lemma_update_wrong_height(l: LedgerV, b: crate::block::BlockV)
    requires
        !spec_height_ok(l.height, b.height),
    ensures
        spec_update(l, b) == Err::<LedgerV, ChainError>(ChainError::Sequence),
{
}

/// A `Pay` from a missing source, or for more than the source's balance, is
/// refused with `Policy` and changes nothing.
pub proof fn lemma_pay_insufficient(l: LedgerV, src: Seq<char>, dst: Seq<char>, amount: u64)
    requires
        !l.accounts.dom().contains(src) || l.accounts[src] < amount,
    ensures
        spec_apply_op(l, src, OpV::Pay { dst, amount }, l.height) == Err::<LedgerV, ChainError>(
            ChainError::Policy,
        ),
{
}

/// A `Coinbase` in any block past genesis is refused with `Policy`.
pub proof fn lemma_coinbase_past_genesis(
    l: LedgerV,
    src: Seq<char>,
    dst: Seq<char>,
    amount: u64,
    bheight: u64,
)
    requires
        bheight > 0,
    ensures
        spec_apply_op(l, src, OpV::Coinbase { dst, amount }, bheight) == Err::<LedgerV, ChainError>(
            ChainError::Policy,
        ),
{
}

/// A `Pay` between existing accounts conserves the total of the two balances
/// it touches and leaves every other account alone.
pub proof fn lemma_pay_conserves(l: LedgerV, src: Seq<char>, dst: Seq<char>, amount: u64)
    requires
        src != dst,
        spec_apply_op(l, src, OpV::Pay { dst, amount }, l.height) is Ok,
    ensures
        ({
            let l2 = spec_apply_op(l, src, OpV::Pay { dst, amount }, l.height).unwrap();
            let prev: u64 = if l.accounts.dom().contains(dst) {
                l.accounts[dst]
            } else {
                0u64
            };
            &&& l2.accounts[src] == l.accounts[src] - amount
            &&& l2.accounts[dst] == prev + amount
            &&& forall|a: Seq<char>|
                a != src && a != dst ==> (l2.accounts.dom().contains(a)
                    <==> l.accounts.dom().contains(a)) && (l.accounts.dom().contains(a)
                    ==> l2.accounts[a] == l.accounts[a])
        }),
{
}

} // verus!
