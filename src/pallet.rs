//! The state of the swap module and what every operation keeps true of it.
use vstd::prelude::*;
use crate::keyed::{keys_unique, total, value_at, values_nonzero};
use crate::ledger::Ledger;
use crate::types::{
    AccountId, AcuityAssetId, AcuityHashedSecret, AcuityLockId, AcuityOrderId, Balance,
    BlockNumber, Event, Moment, SellLockKey,
};

verus! {

/// The blocks recorded for `a` in an index log, in the order of recording.
pub open spec fn blocks_of(log: Seq<(AccountId, BlockNumber)>, a: AccountId) -> Seq<BlockNumber>
    decreases log.len(),
{
    if log.len() == 0 {
        Seq::empty()
    } else {
        blocks_of(log.drop_last(), a) + if log.last().0 == a {
            seq![log.last().1]
        } else {
            Seq::empty()
        }
    }
}

/// The stash entries of `asset`, as (account, value) pairs, in list order.
pub open spec fn stash_list(s: Seq<((AcuityAssetId, AccountId), Balance)>, asset: AcuityAssetId) -> Seq<
    (AccountId, Balance),
>
    decreases s.len(),
{
    if s.len() == 0 {
        Seq::empty()
    } else {
        stash_list(s.drop_last(), asset) + if s.last().0.0 == asset {
            seq![(s.last().0.1, s.last().1)]
        } else {
            Seq::empty()
        }
    }
}

/// Within each asset, stash entries stand in non-increasing order of value.
pub open spec fn ranked(s: Seq<((AcuityAssetId, AccountId), Balance)>) -> bool {
    forall|i: int, j: int|
        #![trigger s[i], s[j]]
        0 <= i < j < s.len() && s[i].0.0 == s[j].0.0 ==> s[i].1 >= s[j].1
}

/// The sell lock on order `oid` under `hs`, as (buyer, timeout, value): the
/// last entry with that order id and hashed secret.
pub open spec fn sell_lock_of(s: Seq<(SellLockKey, Balance)>, oid: AcuityOrderId, hs: AcuityHashedSecret) -> Option<
    (AccountId, Moment, Balance),
>
    decreases s.len(),
{
    if s.len() == 0 {
        None
    } else if s.last().0.0 == oid && s.last().0.1 == hs {
        Some((s.last().0.2, s.last().0.3, s.last().1))
    } else {
        sell_lock_of(s.drop_last(), oid, hs)
    }
}

/// No two sell locks share an order id and a hashed secret.
pub open spec fn sell_keys_unique(s: Seq<(SellLockKey, Balance)>) -> bool {
    forall|i: int, j: int|
        #![trigger s[i], s[j]]
        0 <= i < j < s.len() ==> !(s[i].0.0 == s[j].0.0 && s[i].0.1 == s[j].0.1)
}

pub open spec fn non_decreasing(s: Seq<u64>) -> bool {
    forall|i: int, j: int| 0 <= i <= j < s.len() ==> s[i] <= s[j]
}

/// The swap module: its storage, the currency it moves value with, and the
/// clock and block height that the host sets.
///
/// The escrow account belongs to the module: it signs no operation and is paid
/// by none, so operations that move value between a party and the escrow
/// require that party to be another account.
#[derive(Clone, Debug, PartialEq, Eq)]
pub struct Pallet {
    /// The escrow account, which holds all value in orders, locks, sell locks and stashes.
    pub fund: AccountId,
    pub ledger: Ledger,
    pub now: Moment,
    pub block_number: BlockNumber,
    pub orders: Vec<(AcuityOrderId, Balance)>,
    pub locks: Vec<(AcuityLockId, Balance)>,
    /// Value moved out of orders into sell locks.
    pub sell_locks: Vec<(SellLockKey, Balance)>,
    /// Stash values keyed by (asset, account), ranked within each asset.
    pub stash: Vec<((AcuityAssetId, AccountId), Balance)>,
    /// Every index record, oldest first: (account, block height).
    pub index_log: Vec<(AccountId, BlockNumber)>,
    pub events: Vec<Event>,
}

/// Balances after `v` moved from `from` to `to`; nobody else's changed.
pub open spec fn moved(pre: &Pallet, post: &Pallet, from: AccountId, to: AccountId, v: nat) -> bool {
    &&& post.balance_of(from) + v == pre.balance_of(from)
    &&& post.balance_of(to) == pre.balance_of(to) + v
    &&& forall|b: AccountId|
        b != from && b != to ==> #[trigger] post.balance_of(b) == pre.balance_of(b)
}

pub open spec fn balances_kept(pre: &Pallet, post: &Pallet) -> bool {
    forall|b: AccountId| #[trigger] post.balance_of(b) == pre.balance_of(b)
}

/// Stash values after that of `a` in `asset` became `v`; no other changed.
pub open spec fn stash_set_to(pre: &Pallet, post: &Pallet, asset: AcuityAssetId, a: AccountId, v: nat) -> bool {
    &&& post.stash_value(asset, a) == v
    &&& forall|k: (AcuityAssetId, AccountId)|
        k != (asset, a) ==> #[trigger] value_at(post.stash@, k) == value_at(pre.stash@, k)
}

/// Order values after that of `id` became `v`; no other changed.
pub open spec fn order_set_to(pre: &Pallet, post: &Pallet, id: AcuityOrderId, v: nat) -> bool {
    &&& post.order_value(id) == v
    &&& forall|k: AcuityOrderId| k != id ==> #[trigger] value_at(post.orders@, k) == value_at(pre.orders@, k)
}

/// Lock values after that of `id` became `v`; no other changed.
pub open spec fn lock_set_to(pre: &Pallet, post: &Pallet, id: AcuityLockId, v: nat) -> bool {
    &&& post.lock_value(id) == v
    &&& forall|k: AcuityLockId| k != id ==> #[trigger] value_at(post.locks@, k) == value_at(pre.locks@, k)
}

impl Pallet {
    pub open spec fn balance_of(&self, a: AccountId) -> nat {
        self.ledger.balance_of(a)
    }

    pub open spec fn order_value(&self, id: AcuityOrderId) -> nat {
        value_at(self.orders@, id)
    }

    pub open spec fn lock_value(&self, id: AcuityLockId) -> nat {
        value_at(self.locks@, id)
    }

    pub open spec fn stash_value(&self, asset: AcuityAssetId, a: AccountId) -> nat {
        value_at(self.stash@, (asset, a))
    }

    /// The stash list of `asset`: (account, value) pairs from the head.
    pub open spec fn stashes(&self, asset: AcuityAssetId) -> Seq<(AccountId, Balance)> {
        stash_list(self.stash@, asset)
    }

    pub open spec fn index_blocks(&self, a: AccountId) -> Seq<BlockNumber> {
        blocks_of(self.index_log@, a)
    }

    /// All value that the module holds for others.
    pub open spec fn held(&self) -> nat {
        total(self.orders@) + total(self.locks@) + total(self.stash@) + total(self.sell_locks@)
    }

    pub open spec fn sell_lock(&self, oid: AcuityOrderId, hs: AcuityHashedSecret) -> Option<
        (AccountId, Moment, Balance),
    > {
        sell_lock_of(self.sell_locks@, oid, hs)
    }

    /// What every operation keeps: unique keys and nonzero values in each
    /// store, stashes ranked within each asset, index records in block order
    /// and none past the current block, no sell lock that pays the escrow
    /// account, and an escrow balance equal to all value held.
    pub open spec fn wf(&self) -> bool {
        &&& self.ledger.wf()
        &&& keys_unique(self.orders@)
        &&& values_nonzero(self.orders@)
        &&& keys_unique(self.locks@)
        &&& values_nonzero(self.locks@)
        &&& sell_keys_unique(self.sell_locks@)
        &&& values_nonzero(self.sell_locks@)
        &&& forall|i: int| 0 <= i < self.sell_locks@.len() ==> self.sell_locks@[i].0.2 != self.fund
        &&& keys_unique(self.stash@)
        &&& values_nonzero(self.stash@)
        &&& ranked(self.stash@)
        &&& forall|i: int, j: int|
            0 <= i <= j < self.index_log@.len() ==> self.index_log@[i].1
                <= self.index_log@[j].1
        &&& forall|i: int|
            0 <= i < self.index_log@.len() ==> self.index_log@[i].1 <= self.block_number
        &&& self.balance_of(self.fund) == self.held()
    }

    /// The escrow account, the clock and the block height: what no operation changes.
    pub open spec fn same_env(&self, other: &Pallet) -> bool {
        &&& self.fund == other.fund
        &&& self.now == other.now
        &&& self.block_number == other.block_number
    }

    /// A module with escrow account `fund`, empty storage and no balances, at
    /// time zero and block zero.
    pub fn new(fund: AccountId) -> (r: Pallet)
        ensures
            r.wf(),
            r.fund == fund,
            r.now == 0,
            r.block_number == 0,
            forall|a: AccountId| r.balance_of(a) == 0,
            r.orders@.len() == 0,
            r.locks@.len() == 0,
            r.sell_locks@.len() == 0,
            r.stash@.len() == 0,
            r.index_log@.len() == 0,
            r.events@.len() == 0,
    {
        Pallet {
            fund,
            ledger: Ledger::new(),
            now: 0,
            block_number: 0,
            orders: Vec::new(),
            locks: Vec::new(),
            sell_locks: Vec::new(),
            stash: Vec::new(),
            index_log: Vec::new(),
            events: Vec::new(),
        }
    }

    /// The escrow account.
    pub fn fund_account_id(&self) -> (r: AccountId)
        ensures
            r == self.fund,
    {
        self.fund
    }

    /// Sets the free balance of `who`, as the host's genesis does; the escrow
    /// account's balance is the module's own and cannot be set.
    pub fn set_balance(&mut self, who: AccountId, v: Balance)
        requires
            old(self).wf(),
            who != old(self).fund,
        ensures
            final(self).wf(),
            final(self).balance_of(who) == v,
            forall|b: AccountId| b != who ==> final(self).balance_of(b) == old(self).balance_of(b),
            final(self).same_env(old(self)),
            final(self).orders@ == old(self).orders@,
            final(self).locks@ == old(self).locks@,
            final(self).sell_locks@ == old(self).sell_locks@,
            final(self).stash@ == old(self).stash@,
            final(self).index_log@ == old(self).index_log@,
            final(self).events@ == old(self).events@,
    {
        self.ledger.set_balance(who, v);
    }

    /// The free balance of `who`.
    pub fn balance(&self, who: AccountId) -> (r: Balance)
        requires
            self.wf(),
        ensures
            r == self.balance_of(who),
    {
        self.ledger.balance(who)
    }

    /// Advances the wall clock; the host's clock never goes back.
    pub fn set_timestamp(&mut self, now: Moment)
        requires
            old(self).wf(),
            old(self).now <= now,
        ensures
            final(self).wf(),
            final(self).now == now,
            *final(self) == (Pallet { now, ..*old(self) }),
    {
        self.now = now;
    }

    /// Advances the block height; the host's block height never goes back.
    pub fn set_block_number(&mut self, n: BlockNumber)
        requires
            old(self).wf(),
            old(self).block_number <= n,
        ensures
            final(self).wf(),
            *final(self) == (Pallet { block_number: n, ..*old(self) }),
    {
        self.block_number = n;
    }

    /// Records that `a` took part in an operation at the current block.
    pub fn index_account(&mut self, a: AccountId)
        requires
            old(self).wf(),
        ensures
            final(self).wf(),
            *final(self) == (Pallet {
                index_log: final(self).index_log,
                ..*old(self)
            }),
            final(self).index_log@ == old(self).index_log@.push((a, old(self).block_number)),
    {
        self.index_log.push((a, self.block_number));
    }

    /// How many block heights are recorded for `a`: the index of its next record.
    pub fn account_next_index(&self, a: AccountId) -> (r: u64)
        ensures
            r == self.index_blocks(a).len(),
    {
        let b = self.get_index_blocks(a);
        b.len() as u64
    }

    /// The first index of `a` still kept; nothing is ever pruned, so it stays zero.
    pub fn account_start_index(&self, a: AccountId) -> (r: u64)
        ensures
            r == 0,
    {
        0
    }

    /// The block height of record `i` of `a`, if there is one.
    pub fn account_index_height(&self, a: AccountId, i: u64) -> (r: Option<BlockNumber>)
        ensures
            r == (if i < self.index_blocks(a).len() {
                Some(self.index_blocks(a)[i as int])
            } else {
                None::<BlockNumber>
            }),
    {
        let b = self.get_index_blocks(a);
        if i < b.len() as u64 {
            Some(b[i as usize])
        } else {
            None
        }
    }

    /// The block heights recorded for `a`, oldest first.
    pub fn get_index_blocks(&self, a: AccountId) -> (r: Vec<BlockNumber>)
        ensures
            r@ == self.index_blocks(a),
    {
        let mut r: Vec<BlockNumber> = Vec::new();
        let mut i: usize = 0;
        while i < self.index_log.len()
            invariant
                0 <= i <= self.index_log@.len(),
                r@ == blocks_of(self.index_log@.subrange(0, i as int), a),
            decreases self.index_log@.len() - i,
        {
            let e = self.index_log[i];
            if e.0 == a {
                r.push(e.1);
            }
            i = i + 1;
            assert(self.index_log@.subrange(0, i as int).drop_last() =~= self.index_log@.subrange(
                0,
                i - 1,
            ));
        }
        assert(self.index_log@.subrange(0, self.index_log@.len() as int) =~= self.index_log@);
        r
    }
}

} // verus!
