//! Sell locks on orders: value moved out of a seller's order, released to the
//! buyer on the secret, or returned to the same order after the timeout.
use vstd::prelude::*;
use crate::hashing::{hash_secret, hashed_secret_of, order_id_of};
use crate::keyed::{
    keyed_set, keys_unique, lemma_value_at_index, lemma_value_found_or_zero, lemma_value_le_total,
};
use crate::pallet::{balances_kept, moved, order_set_to, sell_keys_unique, sell_lock_of, Pallet};
use crate::types::{
    eq_bytes16, eq_bytes32, AccountId, AcuityAssetId, AcuityForeignAddress, AcuityHashedSecret,
    AcuityOrderId, AcuitySecret, Balance, Error, Event, Moment, SellLockKey,
};

verus! {

proof fn lemma_sell_lock_at(s: Seq<(SellLockKey, Balance)>, i: int)
    requires
        sell_keys_unique(s),
        0 <= i < s.len(),
    ensures
        sell_lock_of(s, s[i].0.0, s[i].0.1) == Some((s[i].0.2, s[i].0.3, s[i].1)),
    decreases s.len(),
{
    if i < s.len() - 1 {
        let d = s.drop_last();
        assert(d[i] == s[i]);
        assert(sell_keys_unique(d)) by {
            assert forall|a: int, b: int|
                #![trigger d[a], d[b]]
                0 <= a < b < d.len() implies !(d[a].0.0 == d[b].0.0 && d[a].0.1 == d[b].0.1) by {
                assert(d[a] == s[a] && d[b] == s[b]);
            }
        }
        assert(!(s[i].0.0 == s[s.len() - 1].0.0 && s[i].0.1 == s[s.len() - 1].0.1));
        lemma_sell_lock_at(d, i);
    }
}

proof fn lemma_sell_lock_none(s: Seq<(SellLockKey, Balance)>, oid: AcuityOrderId, hs: AcuityHashedSecret)
    requires
        forall|j: int| 0 <= j < s.len() ==> !(s[j].0.0 == oid && s[j].0.1 == hs),
    ensures
        sell_lock_of(s, oid, hs) is None,
    decreases s.len(),
{
    if s.len() > 0 {
        let d = s.drop_last();
        assert forall|j: int| 0 <= j < d.len() implies !(d[j].0.0 == oid && d[j].0.1 == hs) by {
            assert(d[j] == s[j]);
        }
        lemma_sell_lock_none(d, oid, hs);
    }
}

/// Where a sell lock stands, the lock of any order and hashed secret is read
/// the same from the list with that lock removed, but for its own.
proof fn lemma_sell_lock_remove(s: Seq<(SellLockKey, Balance)>, i: int)
    requires
        sell_keys_unique(s),
        0 <= i < s.len(),
    ensures
        sell_keys_unique(s.remove(i)),
        sell_lock_of(s.remove(i), s[i].0.0, s[i].0.1) is None,
        forall|o: AcuityOrderId, h: AcuityHashedSecret|
            !(o == s[i].0.0 && h == s[i].0.1) ==> #[trigger] sell_lock_of(s.remove(i), o, h)
                == sell_lock_of(s, o, h),
{
    let r = s.remove(i);
    assert forall|a: int, b: int|
        #![trigger r[a], r[b]]
        0 <= a < b < r.len() implies !(r[a].0.0 == r[b].0.0 && r[a].0.1 == r[b].0.1) by {
        let a2 = if a < i { a } else { a + 1 };
        let b2 = if b < i { b } else { b + 1 };
        assert(r[a] == s[a2] && r[b] == s[b2]);
    }
    assert forall|j: int| 0 <= j < r.len() implies !(r[j].0.0 == s[i].0.0 && r[j].0.1 == s[i].0.1) by {
        let j2 = if j < i { j } else { j + 1 };
        assert(r[j] == s[j2]);
    }
    lemma_sell_lock_none(r, s[i].0.0, s[i].0.1);
    assert forall|o: AcuityOrderId, h: AcuityHashedSecret|
        !(o == s[i].0.0 && h == s[i].0.1) implies #[trigger] sell_lock_of(r, o, h) == sell_lock_of(
        s,
        o,
        h,
    ) by {
        if exists|j: int| 0 <= j < s.len() && s[j].0.0 == o && s[j].0.1 == h {
            let j = choose|j: int| 0 <= j < s.len() && s[j].0.0 == o && s[j].0.1 == h;
            lemma_sell_lock_at(s, j);
            let j2 = if j < i { j } else { j - 1 };
            assert(r[j2] == s[j]);
            lemma_sell_lock_at(r, j2);
        } else {
            lemma_sell_lock_none(s, o, h);
            assert forall|j: int| 0 <= j < r.len() implies !(r[j].0.0 == o && r[j].0.1 == h) by {
                let j3 = if j < i { j } else { j + 1 };
                assert(r[j] == s[j3]);
            }
            lemma_sell_lock_none(r, o, h);
        }
    }
}

proof fn lemma_sell_keys_unique_keys(s: Seq<(SellLockKey, Balance)>)
    requires
        sell_keys_unique(s),
    ensures
        keys_unique(s),
{
    assert forall|i: int, j: int| 0 <= i < j < s.len() implies s[i].0 != s[j].0 by {
        assert(!(s[i].0.0 == s[j].0.0 && s[i].0.1 == s[j].0.1));
    }
}

/// Sell locks after the one on (`oid`, `hs`) became `lock`; no other changed.
pub open spec fn sell_lock_set_to(
    pre: &Pallet,
    post: &Pallet,
    oid: AcuityOrderId,
    hs: AcuityHashedSecret,
    lock: Option<(AccountId, Moment, Balance)>,
) -> bool {
    &&& post.sell_lock(oid, hs) == lock
    &&& forall|o: AcuityOrderId, h: AcuityHashedSecret|
        !(o == oid && h == hs) ==> #[trigger] post.sell_lock(o, h) == pre.sell_lock(o, h)
}

/// What `lock_sell_order` does: refused on a zero value, on an order that holds
/// less than `value`, or on a hashed secret that already locks this order;
/// else `value` moves from the order into a sell lock for `buyer` until `timeout`.
pub open spec fn lock_sell_order_post(
    pre: Pallet,
    post: Pallet,
    caller: AccountId,
    hashed_secret: AcuityHashedSecret,
    asset: AcuityAssetId,
    price: u128,
    foreign: AcuityForeignAddress,
    buyer: AccountId,
    value: Balance,
    timeout: Moment,
    r: Result<(), Error>,
) -> bool {
    let oid = order_id_of(caller, asset, price, foreign);
    &&& (r == Err::<(), Error>(Error::ZeroValue)) == (value == 0)
    &&& (r == Err::<(), Error>(Error::OrderTooSmall)) == (value > 0 && pre.order_value(oid) < value)
    &&& (r == Err::<(), Error>(Error::HashedSecretAlreadyInUse)) == (value > 0 && value
        <= pre.order_value(oid) && pre.sell_lock(oid, hashed_secret) is Some)
    &&& (r is Ok) == (value > 0 && value <= pre.order_value(oid) && pre.sell_lock(
        oid,
        hashed_secret,
    ) is None)
    &&& r is Err ==> post == pre
    &&& r is Ok ==> {
        &&& balances_kept(&pre, &post)
        &&& order_set_to(&pre, &post, oid, (pre.order_value(oid) - value) as nat)
        &&& sell_lock_set_to(&pre, &post, oid, hashed_secret, Some((buyer, timeout, value)))
        &&& post.locks@ == pre.locks@
        &&& post.stash@ == pre.stash@
        &&& post.same_env(&pre)
        &&& post.index_log@ == pre.index_log@.push((caller, pre.block_number)).push(
            (buyer, pre.block_number),
        )
        &&& post.events@ == pre.events@.push(
            Event::OrderLock(caller, buyer, oid, hashed_secret, value, timeout),
        )
    }
}

/// What `unlock_sell` does: refused when no sell lock on `oid` has the hash of
/// `secret`, when its timeout has come, or when the currency refuses to pay its
/// buyer; else the lock's value moves from the escrow to its buyer.
pub open spec fn unlock_sell_post(
    pre: Pallet,
    post: Pallet,
    caller: AccountId,
    oid: AcuityOrderId,
    secret: AcuitySecret,
    r: Result<(), Error>,
) -> bool {
    let hs = hashed_secret_of(secret);
    let lock = pre.sell_lock(oid, hs);
    let held = lock->0;
    &&& (r == Err::<(), Error>(Error::LockDoesNotExist)) == (lock is None)
    &&& (r == Err::<(), Error>(Error::LockTimedOut)) == (lock matches Some(l) && l.1 <= pre.now)
    &&& (r == Err::<(), Error>(Error::TransferFailed)) == (lock matches Some(l) && pre.now < l.1
        && pre.balance_of(l.0) + l.2 > u128::MAX)
    &&& (r is Ok) == (lock matches Some(l) && pre.now < l.1 && pre.balance_of(l.0) + l.2
        <= u128::MAX)
    &&& r is Err ==> post == pre
    &&& r is Ok ==> {
        &&& moved(&pre, &post, pre.fund, held.0, held.2 as nat)
        &&& sell_lock_set_to(&pre, &post, oid, hs, None)
        &&& post.orders@ == pre.orders@
        &&& post.locks@ == pre.locks@
        &&& post.stash@ == pre.stash@
        &&& post.same_env(&pre)
        &&& post.index_log@ == pre.index_log@.push((caller, pre.block_number)).push(
            (held.0, pre.block_number),
        )
        &&& post.events@ == pre.events@.push(Event::OrderUnlock(held.0, oid, secret))
    }
}

/// What `timeout_sell` does: refused when the caller's order for `asset` at
/// `price` towards `foreign` has no sell lock under `hashed_secret`, or before
/// its timeout; else the lock's value returns into that order.
pub open spec fn timeout_sell_post(
    pre: Pallet,
    post: Pallet,
    caller: AccountId,
    hashed_secret: AcuityHashedSecret,
    asset: AcuityAssetId,
    price: u128,
    foreign: AcuityForeignAddress,
    r: Result<(), Error>,
) -> bool {
    let oid = order_id_of(caller, asset, price, foreign);
    let lock = pre.sell_lock(oid, hashed_secret);
    let held = lock->0;
    &&& (r == Err::<(), Error>(Error::LockDoesNotExist)) == (lock is None)
    &&& (r == Err::<(), Error>(Error::LockNotTimedOut)) == (lock matches Some(l) && pre.now < l.1)
    &&& (r is Ok) == (lock matches Some(l) && l.1 <= pre.now)
    &&& r is Err ==> post == pre
    &&& r is Ok ==> {
        &&& balances_kept(&pre, &post)
        &&& order_set_to(&pre, &post, oid, pre.order_value(oid) + held.2 as nat)
        &&& sell_lock_set_to(&pre, &post, oid, hashed_secret, None)
        &&& post.locks@ == pre.locks@
        &&& post.stash@ == pre.stash@
        &&& post.same_env(&pre)
        &&& post.index_log@ == pre.index_log@.push((caller, pre.block_number))
        &&& post.events@ == pre.events@.push(Event::OrderTimeout(caller, oid, hashed_secret))
    }
}

impl Pallet {
    fn sell_lock_find(&self, oid: &AcuityOrderId, hs: &AcuityHashedSecret) -> (r: Option<usize>)
        requires
            sell_keys_unique(self.sell_locks@),
        ensures
            r matches Some(i) ==> i < self.sell_locks@.len() && self.sell_locks@[i as int].0.0
                == *oid && self.sell_locks@[i as int].0.1 == *hs && self.sell_lock(*oid, *hs)
                == Some(
                (
                    self.sell_locks@[i as int].0.2,
                    self.sell_locks@[i as int].0.3,
                    self.sell_locks@[i as int].1,
                ),
            ),
            r is None ==> self.sell_lock(*oid, *hs) is None && forall|j: int|
                0 <= j < self.sell_locks@.len() ==> !(self.sell_locks@[j].0.0 == *oid
                    && self.sell_locks@[j].0.1 == *hs),
    {
        let mut i: usize = 0;
        while i < self.sell_locks.len()
            invariant
                sell_keys_unique(self.sell_locks@),
                0 <= i <= self.sell_locks@.len(),
                forall|j: int|
                    0 <= j < i ==> !(self.sell_locks@[j].0.0 == *oid && self.sell_locks@[j].0.1
                        == *hs),
            decreases self.sell_locks@.len() - i,
        {
            let k = &self.sell_locks[i].0;
            if eq_bytes16(&k.0.0, &oid.0) && eq_bytes32(&k.1.0, &hs.0) {
                proof {
                    lemma_sell_lock_at(self.sell_locks@, i as int);
                }
                return Some(i);
            }
            i = i + 1;
        }
        proof {
            lemma_sell_lock_none(self.sell_locks@, *oid, *hs);
        }
        None
    }

    /// The sell lock on order `oid` under `hashed_secret`, as (buyer, timeout, value).
    pub fn get_sell_lock(&self, oid: AcuityOrderId, hashed_secret: AcuityHashedSecret) -> (r: Option<
        (AccountId, Moment, Balance),
    >)
        requires
            self.wf(),
        ensures
            r == self.sell_lock(oid, hashed_secret),
    {
        match self.sell_lock_find(&oid, &hashed_secret) {
            Some(i) => {
                let e = self.sell_locks[i];
                Some((e.0.2, e.0.3, e.1))
            },
            None => None,
        }
    }

    /// Moves `value` out of the order of `caller` for `asset` at `price`
    /// towards `foreign` into a sell lock for `buyer` on `hashed_secret`
    /// until `timeout`.
    pub fn lock_sell_order(
        &mut self,
        caller: AccountId,
        hashed_secret: AcuityHashedSecret,
        asset: AcuityAssetId,
        price: u128,
        foreign: AcuityForeignAddress,
        buyer: AccountId,
        value: Balance,
        timeout: Moment,
    ) -> (r: Result<(), Error>)
        requires
            old(self).wf(),
            buyer != old(self).fund,
        ensures
            final(self).wf(),
            lock_sell_order_post(
                *old(self),
                *final(self),
                caller,
                hashed_secret,
                asset,
                price,
                foreign,
                buyer,
                value,
                timeout,
                r,
            ),
    {
        if value == 0 {
            return Err(Error::ZeroValue);
        }
        let oid = Pallet::get_order_id(caller, asset, price, foreign);
        let in_order = self.order_value_of(oid);
        if in_order < value {
            return Err(Error::OrderTooSmall);
        }
        let at = self.sell_lock_find(&oid, &hashed_secret);
        if at.is_some() {
            return Err(Error::HashedSecretAlreadyInUse);
        }
        self.order_set(oid, in_order - value);
        let key: SellLockKey = (oid, hashed_secret, buyer, timeout);
        proof {
            lemma_sell_keys_unique_keys(self.sell_locks@);
            assert(!crate::keyed::has_key(self.sell_locks@, key));
        }
        keyed_set(&mut self.sell_locks, None, key, value);
        proof {
            let s = old(self).sell_locks@;
            let t = self.sell_locks@;
            assert(t == s.push((key, value)));
            assert(t.drop_last() =~= s);
            assert forall|a: int, b: int|
                #![trigger t[a], t[b]]
                0 <= a < b < t.len() implies !(t[a].0.0 == t[b].0.0 && t[a].0.1 == t[b].0.1) by {
                assert(t[a] == s[a]);
                if b < s.len() {
                    assert(t[b] == s[b]);
                }
            }
            assert forall|o: AcuityOrderId, h: AcuityHashedSecret|
                !(o == oid && h == hashed_secret) implies #[trigger] sell_lock_of(t, o, h)
                == sell_lock_of(s, o, h) by {}
        }
        self.index_account(caller);
        self.index_account(buyer);
        self.events.push(Event::OrderLock(caller, buyer, oid, hashed_secret, value, timeout));
        Ok(())
    }

    /// Pays the sell lock on order `oid` under the hash of `secret` to its buyer.
    pub fn unlock_sell(&mut self, caller: AccountId, oid: AcuityOrderId, secret: AcuitySecret) -> (r:
        Result<(), Error>)
        requires
            old(self).wf(),
        ensures
            final(self).wf(),
            unlock_sell_post(*old(self), *final(self), caller, oid, secret, r),
    {
        let hs = hash_secret(secret);
        let at = self.sell_lock_find(&oid, &hs);
        let i = match at {
            Some(i) => i,
            None => {
                return Err(Error::LockDoesNotExist);
            },
        };
        let (key, value) = self.sell_locks[i];
        if key.3 <= self.now {
            return Err(Error::LockTimedOut);
        }
        let buyer = key.2;
        proof {
            lemma_value_le_total(self.sell_locks@, key);
            lemma_sell_keys_unique_keys(self.sell_locks@);
            lemma_value_at_index(self.sell_locks@, i as int);
        }
        let fund = self.fund;
        match self.ledger.transfer(fund, buyer, value) {
            Ok(()) => {},
            Err(()) => {
                return Err(Error::TransferFailed);
            },
        }
        proof {
            lemma_sell_lock_remove(self.sell_locks@, i as int);
        }
        keyed_set(&mut self.sell_locks, at, key, 0);
        self.index_account(caller);
        self.index_account(buyer);
        self.events.push(Event::OrderUnlock(buyer, oid, secret));
        Ok(())
    }

    /// Returns, from its timeout on, the sell lock under `hashed_secret` to the
    /// order of `caller` for `asset` at `price` towards `foreign`.
    pub fn timeout_sell(
        &mut self,
        caller: AccountId,
        hashed_secret: AcuityHashedSecret,
        asset: AcuityAssetId,
        price: u128,
        foreign: AcuityForeignAddress,
    ) -> (r: Result<(), Error>)
        requires
            old(self).wf(),
        ensures
            final(self).wf(),
            timeout_sell_post(*old(self), *final(self), caller, hashed_secret, asset, price, foreign, r),
    {
        let oid = Pallet::get_order_id(caller, asset, price, foreign);
        let at = self.sell_lock_find(&oid, &hashed_secret);
        let i = match at {
            Some(i) => i,
            None => {
                return Err(Error::LockDoesNotExist);
            },
        };
        let (key, value) = self.sell_locks[i];
        if self.now < key.3 {
            return Err(Error::LockNotTimedOut);
        }
        proof {
            lemma_sell_keys_unique_keys(self.sell_locks@);
            lemma_value_at_index(self.sell_locks@, i as int);
            lemma_value_le_total(self.sell_locks@, key);
            lemma_sell_lock_remove(self.sell_locks@, i as int);
        }
        keyed_set(&mut self.sell_locks, at, key, 0);
        let in_order = self.order_value_raw(&oid);
        proof {
            lemma_value_le_total(self.orders@, oid);
            lemma_value_found_or_zero(self.ledger.entries@, self.fund);
        }
        self.order_set(oid, in_order + value);
        self.index_account(caller);
        self.events.push(Event::OrderTimeout(caller, oid, hashed_secret));
        Ok(())
    }
}

} // verus!
