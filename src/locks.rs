//! The lock registry: value locked to a hashed secret until a timeout.
use vstd::prelude::*;
use crate::hashing::{hash_secret, hashed_secret_of, lock_id_of};
use crate::keyed::{
    has_key, keyed_set, keys_unique, lemma_value_absent, lemma_value_at_index,
    lemma_value_found_or_zero, lemma_value_le_total, value_at,
};
use crate::pallet::{balances_kept, lock_set_to, moved, stash_set_to, Pallet};
use crate::types::{
    eq_bytes32, AccountId, AcuityAssetId, AcuityHashedSecret, AcuityLockId, AcuitySecret, Balance,
    Error, Event, Moment,
};

verus! {

/// What `lock_buy` does: refused on a zero value, on a lock id already in
/// use, or on a transfer that the currency refuses; else `value` moves from
/// `caller` to the escrow and into a new lock.
pub open spec fn lock_buy_post(
    pre: Pallet,
    post: Pallet,
    caller: AccountId,
    recipient: AccountId,
    hashed_secret: AcuityHashedSecret,
    timeout: Moment,
    value: Balance,
    sell_asset_id: AcuityAssetId,
    sell_price: u128,
    r: Result<(), Error>,
) -> bool {
    let id = lock_id_of(caller, recipient, hashed_secret, timeout);
    &&& (r == Err::<(), Error>(Error::ZeroValue)) == (value == 0)
    &&& (r == Err::<(), Error>(Error::LockAlreadyExists)) == (value > 0 && pre.lock_value(id) > 0)
    &&& (r == Err::<(), Error>(Error::TransferFailed)) == (value > 0 && pre.lock_value(id) == 0 && (
    pre.balance_of(caller) < value || pre.balance_of(pre.fund) + value > u128::MAX))
    &&& (r is Ok) == (value > 0 && pre.lock_value(id) == 0 && value <= pre.balance_of(caller)
        && pre.balance_of(pre.fund) + value <= u128::MAX)
    &&& r is Err ==> post == pre
    &&& r is Ok ==> {
        &&& moved(&pre, &post, caller, pre.fund, value as nat)
        &&& lock_set_to(&pre, &post, id, value as nat)
        &&& post.orders@ == pre.orders@
        &&& post.stash@ == pre.stash@
        &&& post.sell_locks@ == pre.sell_locks@
        &&& post.same_env(&pre)
        &&& post.index_log@ == pre.index_log@.push((caller, pre.block_number)).push(
            (recipient, pre.block_number),
        )
        &&& post.events@ == pre.events@.push(
            Event::LockBuy(
                caller,
                recipient,
                hashed_secret,
                timeout,
                value,
                id,
                sell_asset_id,
                sell_price,
            ),
        )
    }
}

/// What `lock_sell` does: refused on a zero value, on a stash of
/// `stash_asset_id` that holds less than `value`, or on a lock id already in
/// use; else `value` moves from the caller's stash into a new lock.
pub open spec fn lock_sell_post(
    pre: Pallet,
    post: Pallet,
    caller: AccountId,
    recipient: AccountId,
    hashed_secret: AcuityHashedSecret,
    timeout: Moment,
    value: Balance,
    stash_asset_id: AcuityAssetId,
    buy_lock_id: AcuityLockId,
    r: Result<(), Error>,
) -> bool {
    let id = lock_id_of(caller, recipient, hashed_secret, timeout);
    &&& (r == Err::<(), Error>(Error::ZeroValue)) == (value == 0)
    &&& (r == Err::<(), Error>(Error::StashNotBigEnough)) == (value > 0 && pre.stash_value(
        stash_asset_id,
        caller,
    ) < value)
    &&& (r == Err::<(), Error>(Error::LockAlreadyExists)) == (value > 0 && value <= pre.stash_value(
        stash_asset_id,
        caller,
    ) && pre.lock_value(id) > 0)
    &&& (r is Ok) == (value > 0 && value <= pre.stash_value(stash_asset_id, caller)
        && pre.lock_value(id) == 0)
    &&& r is Err ==> post == pre
    &&& r is Ok ==> {
        &&& balances_kept(&pre, &post)
        &&& stash_set_to(
            &pre,
            &post,
            stash_asset_id,
            caller,
            (pre.stash_value(stash_asset_id, caller) - value) as nat,
        )
        &&& lock_set_to(&pre, &post, id, value as nat)
        &&& post.orders@ == pre.orders@
        &&& post.sell_locks@ == pre.sell_locks@
        &&& post.same_env(&pre)
        &&& post.index_log@ == pre.index_log@.push((caller, pre.block_number)).push(
            (recipient, pre.block_number),
        )
        &&& post.events@ == pre.events@.push(
            Event::LockSell(
                caller,
                recipient,
                hashed_secret,
                timeout,
                value,
                id,
                stash_asset_id,
                buy_lock_id,
            ),
        )
    }
}

/// How a lock ends that pays out: refused when `timed_out` is not what the
/// path asks for (`err_time`), when the lock `id` does not exist, or when the
/// currency refuses to pay `payee`; else the lock's value moves from the
/// escrow to `payee` and the lock is gone.
pub open spec fn payout_post(
    pre: Pallet,
    post: Pallet,
    id: AcuityLockId,
    creator: AccountId,
    recipient: AccountId,
    payee: AccountId,
    time_refused: bool,
    err_time: Error,
    ev: Event,
    r: Result<(), Error>,
) -> bool {
    let v = pre.lock_value(id);
    &&& (r == Err::<(), Error>(err_time)) == time_refused
    &&& (r == Err::<(), Error>(Error::LockDoesNotExist)) == (!time_refused && v == 0)
    &&& (r == Err::<(), Error>(Error::TransferFailed)) == (!time_refused && v > 0 && pre.balance_of(
        payee,
    ) + v > u128::MAX)
    &&& (r is Ok) == (!time_refused && v > 0 && pre.balance_of(payee) + v <= u128::MAX)
    &&& r is Err ==> post == pre
    &&& r is Ok ==> {
        &&& moved(&pre, &post, pre.fund, payee, v)
        &&& lock_set_to(&pre, &post, id, 0)
        &&& post.orders@ == pre.orders@
        &&& post.stash@ == pre.stash@
        &&& post.sell_locks@ == pre.sell_locks@
        &&& post.same_env(&pre)
        &&& post.index_log@ == pre.index_log@.push((creator, pre.block_number)).push(
            (recipient, pre.block_number),
        )
        &&& post.events@ == pre.events@.push(ev)
    }
}

impl Pallet {
    fn lock_find(&self, id: &AcuityLockId) -> (r: Option<usize>)
        requires
            keys_unique(self.locks@),
        ensures
            r matches Some(i) ==> i < self.locks@.len() && self.locks@[i as int].0 == *id
                && value_at(self.locks@, *id) == self.locks@[i as int].1,
            r is None ==> !has_key(self.locks@, *id) && value_at(self.locks@, *id) == 0,
    {
        let mut i: usize = 0;
        while i < self.locks.len()
            invariant
                keys_unique(self.locks@),
                0 <= i <= self.locks@.len(),
                forall|j: int| 0 <= j < i ==> self.locks@[j].0 != *id,
            decreases self.locks@.len() - i,
        {
            if eq_bytes32(&self.locks[i].0.0, &id.0) {
                proof {
                    lemma_value_at_index(self.locks@, i as int);
                }
                return Some(i);
            }
            i = i + 1;
        }
        proof {
            lemma_value_absent(self.locks@, *id);
        }
        None
    }

    /// The value locked under `id`, if such a lock exists.
    pub fn lock_id_value(&self, id: AcuityLockId) -> (r: Option<Balance>)
        requires
            self.wf(),
        ensures
            r == (if self.lock_value(id) > 0 {
                Some(self.lock_value(id) as Balance)
            } else {
                None::<Balance>
            }),
    {
        match self.lock_find(&id) {
            Some(i) => Some(self.locks[i].1),
            None => None,
        }
    }

    /// Locks `value` of `caller` for `recipient` on `hashed_secret` until `timeout`.
    pub fn lock_buy(
        &mut self,
        caller: AccountId,
        recipient: AccountId,
        hashed_secret: AcuityHashedSecret,
        timeout: Moment,
        value: Balance,
        sell_asset_id: AcuityAssetId,
        sell_price: u128,
    ) -> (r: Result<(), Error>)
        requires
            old(self).wf(),
            caller != old(self).fund,
        ensures
            final(self).wf(),
            lock_buy_post(
                *old(self),
                *final(self),
                caller,
                recipient,
                hashed_secret,
                timeout,
                value,
                sell_asset_id,
                sell_price,
                r,
            ),
    {
        if value == 0 {
            return Err(Error::ZeroValue);
        }
        let id = Pallet::get_lock_id(caller, recipient, hashed_secret, timeout);
        let at = self.lock_find(&id);
        if at.is_some() {
            return Err(Error::LockAlreadyExists);
        }
        let fund = self.fund;
        match self.ledger.transfer(caller, fund, value) {
            Ok(()) => {},
            Err(()) => {
                return Err(Error::TransferFailed);
            },
        }
        keyed_set(&mut self.locks, at, id, value);
        self.index_account(caller);
        self.index_account(recipient);
        self.events.push(
            Event::LockBuy(caller, recipient, hashed_secret, timeout, value, id, sell_asset_id, sell_price),
        );
        Ok(())
    }

    /// Locks `value` of the stash of `stash_asset_id` of `caller` for
    /// `recipient` on `hashed_secret` until `timeout`.
    pub fn lock_sell(
        &mut self,
        caller: AccountId,
        recipient: AccountId,
        hashed_secret: AcuityHashedSecret,
        timeout: Moment,
        value: Balance,
        stash_asset_id: AcuityAssetId,
        buy_lock_id: AcuityLockId,
    ) -> (r: Result<(), Error>)
        requires
            old(self).wf(),
        ensures
            final(self).wf(),
            lock_sell_post(
                *old(self),
                *final(self),
                caller,
                recipient,
                hashed_secret,
                timeout,
                value,
                stash_asset_id,
                buy_lock_id,
                r,
            ),
    {
        if value == 0 {
            return Err(Error::ZeroValue);
        }
        let stashed = self.stash_value_of(stash_asset_id, caller);
        if stashed < value {
            return Err(Error::StashNotBigEnough);
        }
        let id = Pallet::get_lock_id(caller, recipient, hashed_secret, timeout);
        let at = self.lock_find(&id);
        if at.is_some() {
            return Err(Error::LockAlreadyExists);
        }
        self.stash_set(stash_asset_id, caller, stashed - value);
        keyed_set(&mut self.locks, at, id, value);
        self.index_account(caller);
        self.index_account(recipient);
        self.events.push(
            Event::LockSell(caller, recipient, hashed_secret, timeout, value, id, stash_asset_id, buy_lock_id),
        );
        Ok(())
    }
}

} // verus!

verus! {

/// What `timeout_stash` does: refused before `timeout` or when the lock does
/// not exist; else the lock's value returns into the caller's stash of
/// `stash_asset_id` and the lock is gone.
pub open spec fn timeout_stash_post(
    pre: Pallet,
    post: Pallet,
    caller: AccountId,
    recipient: AccountId,
    hashed_secret: AcuityHashedSecret,
    timeout: Moment,
    stash_asset_id: AcuityAssetId,
    r: Result<(), Error>,
) -> bool {
    let id = lock_id_of(caller, recipient, hashed_secret, timeout);
    let v = pre.lock_value(id);
    &&& (r == Err::<(), Error>(Error::LockNotTimedOut)) == (pre.now < timeout)
    &&& (r == Err::<(), Error>(Error::LockDoesNotExist)) == (timeout <= pre.now && v == 0)
    &&& (r is Ok) == (timeout <= pre.now && v > 0)
    &&& r is Err ==> post == pre
    &&& r is Ok ==> {
        &&& balances_kept(&pre, &post)
        &&& stash_set_to(
            &pre,
            &post,
            stash_asset_id,
            caller,
            pre.stash_value(stash_asset_id, caller) + v,
        )
        &&& lock_set_to(&pre, &post, id, 0)
        &&& post.orders@ == pre.orders@
        &&& post.sell_locks@ == pre.sell_locks@
        &&& post.same_env(&pre)
        &&& post.index_log@ == pre.index_log@.push((caller, pre.block_number)).push(
            (recipient, pre.block_number),
        )
        &&& post.events@ == pre.events@.push(Event::Retrieve(caller, recipient, id))
    }
}

impl Pallet {
    /// Pays the value of lock `id` from the escrow to `payee` and ends the lock.
    fn pay_out(
        &mut self,
        id: AcuityLockId,
        creator: AccountId,
        recipient: AccountId,
        payee: AccountId,
        ev: Event,
    ) -> (r: Result<(), Error>)
        requires
            old(self).wf(),
            payee != old(self).fund,
        ensures
            final(self).wf(),
            payout_post(
                *old(self),
                *final(self),
                id,
                creator,
                recipient,
                payee,
                false,
                Error::LockTimedOut,
                ev,
                r,
            ),
    {
        let at = self.lock_find(&id);
        let value = match at {
            Some(i) => self.locks[i].1,
            None => {
                return Err(Error::LockDoesNotExist);
            },
        };
        proof {
            lemma_value_le_total(self.locks@, id);
        }
        let fund = self.fund;
        match self.ledger.transfer(fund, payee, value) {
            Ok(()) => {},
            Err(()) => {
                return Err(Error::TransferFailed);
            },
        }
        keyed_set(&mut self.locks, at, id, 0);
        self.index_account(creator);
        self.index_account(recipient);
        self.events.push(ev);
        Ok(())
    }

    /// The recipient `caller` refuses the lock that `creator` made for it; the
    /// value returns to `creator`, whatever the time.
    pub fn decline(
        &mut self,
        caller: AccountId,
        creator: AccountId,
        hashed_secret: AcuityHashedSecret,
        timeout: Moment,
    ) -> (r: Result<(), Error>)
        requires
            old(self).wf(),
            creator != old(self).fund,
        ensures
            final(self).wf(),
            payout_post(
                *old(self),
                *final(self),
                lock_id_of(creator, caller, hashed_secret, timeout),
                creator,
                caller,
                creator,
                false,
                Error::LockTimedOut,
                Event::Decline(creator, caller, lock_id_of(creator, caller, hashed_secret, timeout)),
                r,
            ),
    {
        let id = Pallet::get_lock_id(creator, caller, hashed_secret, timeout);
        self.pay_out(id, creator, caller, creator, Event::Decline(creator, caller, id))
    }

    /// The recipient `caller` reveals `secret` before `timeout` and takes the
    /// value that `creator` locked for it.
    pub fn unlock(&mut self, caller: AccountId, creator: AccountId, secret: AcuitySecret, timeout: Moment) -> (r:
        Result<(), Error>)
        requires
            old(self).wf(),
            caller != old(self).fund,
        ensures
            final(self).wf(),
            payout_post(
                *old(self),
                *final(self),
                lock_id_of(creator, caller, hashed_secret_of(secret), timeout),
                creator,
                caller,
                caller,
                timeout <= old(self).now,
                Error::LockTimedOut,
                Event::Unlock(
                    creator,
                    caller,
                    lock_id_of(creator, caller, hashed_secret_of(secret), timeout),
                    secret,
                ),
                r,
            ),
    {
        let hashed_secret = hash_secret(secret);
        let id = Pallet::get_lock_id(creator, caller, hashed_secret, timeout);
        if timeout <= self.now {
            return Err(Error::LockTimedOut);
        }
        self.pay_out(id, creator, caller, caller, Event::Unlock(creator, caller, id, secret))
    }

    /// The creator `caller` reveals `secret` before `timeout` and releases the
    /// value it locked to `recipient`.
    pub fn unlock_by_sender(
        &mut self,
        caller: AccountId,
        recipient: AccountId,
        secret: AcuitySecret,
        timeout: Moment,
    ) -> (r: Result<(), Error>)
        requires
            old(self).wf(),
            recipient != old(self).fund,
        ensures
            final(self).wf(),
            payout_post(
                *old(self),
                *final(self),
                lock_id_of(caller, recipient, hashed_secret_of(secret), timeout),
                caller,
                recipient,
                recipient,
                timeout <= old(self).now,
                Error::LockTimedOut,
                Event::Unlock(
                    caller,
                    recipient,
                    lock_id_of(caller, recipient, hashed_secret_of(secret), timeout),
                    secret,
                ),
                r,
            ),
    {
        let hashed_secret = hash_secret(secret);
        let id = Pallet::get_lock_id(caller, recipient, hashed_secret, timeout);
        if timeout <= self.now {
            return Err(Error::LockTimedOut);
        }
        self.pay_out(id, caller, recipient, recipient, Event::Unlock(caller, recipient, id, secret))
    }

    /// The creator `caller` takes back, from `timeout` on, the value it locked
    /// for `recipient`.
    pub fn retrieve(
        &mut self,
        caller: AccountId,
        recipient: AccountId,
        hashed_secret: AcuityHashedSecret,
        timeout: Moment,
    ) -> (r: Result<(), Error>)
        requires
            old(self).wf(),
            caller != old(self).fund,
        ensures
            final(self).wf(),
            payout_post(
                *old(self),
                *final(self),
                lock_id_of(caller, recipient, hashed_secret, timeout),
                caller,
                recipient,
                caller,
                old(self).now < timeout,
                Error::LockNotTimedOut,
                Event::Retrieve(caller, recipient, lock_id_of(caller, recipient, hashed_secret, timeout)),
                r,
            ),
    {
        let id = Pallet::get_lock_id(caller, recipient, hashed_secret, timeout);
        if self.now < timeout {
            return Err(Error::LockNotTimedOut);
        }
        self.pay_out(id, caller, recipient, caller, Event::Retrieve(caller, recipient, id))
    }

    /// The creator `caller` returns, from `timeout` on, the value it locked for
    /// `recipient` into its own stash of `stash_asset_id`.
    pub fn timeout_stash(
        &mut self,
        caller: AccountId,
        recipient: AccountId,
        hashed_secret: AcuityHashedSecret,
        timeout: Moment,
        stash_asset_id: AcuityAssetId,
    ) -> (r: Result<(), Error>)
        requires
            old(self).wf(),
        ensures
            final(self).wf(),
            timeout_stash_post(
                *old(self),
                *final(self),
                caller,
                recipient,
                hashed_secret,
                timeout,
                stash_asset_id,
                r,
            ),
    {
        let id = Pallet::get_lock_id(caller, recipient, hashed_secret, timeout);
        if self.now < timeout {
            return Err(Error::LockNotTimedOut);
        }
        let at = self.lock_find(&id);
        let value = match at {
            Some(i) => self.locks[i].1,
            None => {
                return Err(Error::LockDoesNotExist);
            },
        };
        keyed_set(&mut self.locks, at, id, 0);
        let stashed = self.stash_value_of_raw(&stash_asset_id, caller);
        proof {
            lemma_value_le_total(self.stash@, (stash_asset_id, caller));
            lemma_value_le_total(old(self).locks@, id);
            lemma_value_found_or_zero(self.ledger.entries@, self.fund);
        }
        self.stash_set(stash_asset_id, caller, stashed + value);
        self.index_account(caller);
        self.index_account(recipient);
        self.events.push(Event::Retrieve(caller, recipient, id));
        Ok(())
    }
}

} // verus!
