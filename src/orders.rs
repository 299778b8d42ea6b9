//! The order book: value that sellers hold out, keyed by order id.
use vstd::prelude::*;
use crate::hashing::order_id_of;
use crate::keyed::{
    has_key, keyed_set, keys_unique, lemma_value_absent, lemma_value_at_index,
    lemma_value_found_or_zero, lemma_value_le_total, total, value_at, values_nonzero,
};
use crate::pallet::{balances_kept, moved, order_set_to, Pallet};
use crate::types::{
    eq_bytes16, AccountId, AcuityAssetId, AcuityForeignAddress, AcuityOrderId, Balance, Error, Event,
};

verus! {

/// What `add_to_order` does: refused when the currency refuses the transfer;
/// else `value` moves from `caller` to the escrow and into the order.
pub open spec fn add_to_order_post(
    pre: Pallet,
    post: Pallet,
    caller: AccountId,
    asset: AcuityAssetId,
    price: u128,
    foreign: AcuityForeignAddress,
    value: Balance,
    r: Result<(), Error>,
) -> bool {
    let id = order_id_of(caller, asset, price, foreign);
    &&& (r is Err) == (pre.balance_of(caller) < value || pre.balance_of(pre.fund) + value
        > u128::MAX)
    &&& r is Err ==> r == Err::<(), Error>(Error::TransferFailed) && post == pre
    &&& r is Ok ==> {
        &&& moved(&pre, &post, caller, pre.fund, value as nat)
        &&& order_set_to(&pre, &post, id, pre.order_value(id) + value as nat)
        &&& post.locks@ == pre.locks@
        &&& post.stash@ == pre.stash@
        &&& post.sell_locks@ == pre.sell_locks@
        &&& post.same_env(&pre)
        &&& post.index_log@ == pre.index_log@.push((caller, pre.block_number))
        &&& post.events@ == pre.events@.push(
            Event::AddToOrder(caller, asset, price, foreign, value),
        )
    }
}

/// What `remove_from_order` does: refused when the order holds less than
/// `value` or the currency refuses the transfer; else `value` leaves the order
/// and moves from the escrow to `caller`.
pub open spec fn remove_from_order_post(
    pre: Pallet,
    post: Pallet,
    caller: AccountId,
    asset: AcuityAssetId,
    price: u128,
    foreign: AcuityForeignAddress,
    value: Balance,
    r: Result<(), Error>,
) -> bool {
    let id = order_id_of(caller, asset, price, foreign);
    &&& (r == Err::<(), Error>(Error::OrderTooSmall)) == (pre.order_value(id) < value)
    &&& (r == Err::<(), Error>(Error::TransferFailed)) == (value <= pre.order_value(id)
        && pre.balance_of(caller) + value > u128::MAX)
    &&& (r is Ok) == (value <= pre.order_value(id) && pre.balance_of(caller) + value <= u128::MAX)
    &&& r is Err ==> post == pre
    &&& r is Ok ==> {
        &&& moved(&pre, &post, pre.fund, caller, value as nat)
        &&& order_set_to(&pre, &post, id, (pre.order_value(id) - value) as nat)
        &&& post.locks@ == pre.locks@
        &&& post.stash@ == pre.stash@
        &&& post.sell_locks@ == pre.sell_locks@
        &&& post.same_env(&pre)
        &&& post.index_log@ == pre.index_log@.push((caller, pre.block_number))
        &&& post.events@ == pre.events@.push(
            Event::RemoveFromOrder(caller, asset, price, foreign, value),
        )
    }
}

/// What `change_order` does: refused when the old order holds less than
/// `value`; else `value` moves from the old order to the new one, with no
/// transfer.
pub open spec fn change_order_post(
    pre: Pallet,
    post: Pallet,
    caller: AccountId,
    old_asset: AcuityAssetId,
    old_price: u128,
    old_foreign: AcuityForeignAddress,
    new_asset: AcuityAssetId,
    new_price: u128,
    new_foreign: AcuityForeignAddress,
    value: Balance,
    r: Result<(), Error>,
) -> bool {
    let old_id = order_id_of(caller, old_asset, old_price, old_foreign);
    let new_id = order_id_of(caller, new_asset, new_price, new_foreign);
    &&& (r is Err) == (pre.order_value(old_id) < value)
    &&& r is Err ==> r == Err::<(), Error>(Error::OrderTooSmall) && post == pre
    &&& r is Ok ==> {
        &&& balances_kept(&pre, &post)
        &&& old_id != new_id ==> post.order_value(old_id) + value == pre.order_value(old_id)
            && post.order_value(new_id) == pre.order_value(new_id) + value
        &&& old_id == new_id ==> post.order_value(old_id) == pre.order_value(old_id)
        &&& forall|k: AcuityOrderId|
            k != old_id && k != new_id ==> #[trigger] value_at(post.orders@, k) == value_at(
                pre.orders@,
                k,
            )
        &&& post.locks@ == pre.locks@
        &&& post.stash@ == pre.stash@
        &&& post.sell_locks@ == pre.sell_locks@
        &&& post.same_env(&pre)
        &&& post.index_log@ == pre.index_log@.push((caller, pre.block_number))
        &&& post.events@ == pre.events@.push(
            Event::RemoveFromOrder(caller, old_asset, old_price, old_foreign, value),
        ).push(Event::AddToOrder(caller, new_asset, new_price, new_foreign, value))
    }
}

impl Pallet {
    fn order_find(&self, id: &AcuityOrderId) -> (r: Option<usize>)
        requires
            keys_unique(self.orders@),
        ensures
            r matches Some(i) ==> i < self.orders@.len() && self.orders@[i as int].0 == *id
                && value_at(self.orders@, *id) == self.orders@[i as int].1,
            r is None ==> !has_key(self.orders@, *id) && value_at(self.orders@, *id) == 0,
    {
        let mut i: usize = 0;
        while i < self.orders.len()
            invariant
                keys_unique(self.orders@),
                0 <= i <= self.orders@.len(),
                forall|j: int| 0 <= j < i ==> self.orders@[j].0 != *id,
            decreases self.orders@.len() - i,
        {
            if eq_bytes16(&self.orders[i].0.0, &id.0) {
                proof {
                    lemma_value_at_index(self.orders@, i as int);
                }
                return Some(i);
            }
            i = i + 1;
        }
        proof {
            lemma_value_absent(self.orders@, *id);
        }
        None
    }

    /// The value held in order `id`; zero where there is none.
    pub fn order_value_of(&self, id: AcuityOrderId) -> (r: Balance)
        requires
            self.wf(),
        ensures
            r == self.order_value(id),
    {
        match self.order_find(&id) {
            Some(i) => self.orders[i].1,
            None => 0,
        }
    }

    pub(crate) fn order_value_raw(&self, id: &AcuityOrderId) -> (r: Balance)
        requires
            keys_unique(self.orders@),
        ensures
            r == self.order_value(*id),
    {
        match self.order_find(id) {
            Some(i) => self.orders[i].1,
            None => 0,
        }
    }

    /// The value held in the order of `seller` for `asset` at `price` towards `foreign`.
    pub fn get_order_value(
        &self,
        seller: AccountId,
        asset: AcuityAssetId,
        price: u128,
        foreign: AcuityForeignAddress,
    ) -> (r: Balance)
        requires
            self.wf(),
        ensures
            r == self.order_value(order_id_of(seller, asset, price, foreign)),
    {
        self.order_value_of(Pallet::get_order_id(seller, asset, price, foreign))
    }

    /// Sets the value of order `id` to `v`; a zero value removes the order.
    pub(crate) fn order_set(&mut self, id: AcuityOrderId, v: Balance)
        requires
            keys_unique(old(self).orders@),
            values_nonzero(old(self).orders@),
        ensures
            keys_unique(final(self).orders@),
            values_nonzero(final(self).orders@),
            *final(self) == (Pallet { orders: final(self).orders, ..*old(self) }),
            value_at(final(self).orders@, id) == v,
            forall|k: AcuityOrderId|
                k != id ==> #[trigger] value_at(final(self).orders@, k) == value_at(
                    old(self).orders@,
                    k,
                ),
            total(final(self).orders@) + value_at(old(self).orders@, id) == total(
                old(self).orders@,
            ) + v,
    {
        let at = self.order_find(&id);
        keyed_set(&mut self.orders, at, id, v);
    }

    /// Moves `value` from `caller` into its order for `asset` at `price` towards `foreign`.
    pub fn add_to_order(
        &mut self,
        caller: AccountId,
        asset: AcuityAssetId,
        price: u128,
        foreign: AcuityForeignAddress,
        value: Balance,
    ) -> (r: Result<(), Error>)
        requires
            old(self).wf(),
            caller != old(self).fund,
        ensures
            final(self).wf(),
            add_to_order_post(*old(self), *final(self), caller, asset, price, foreign, value, r),
    {
        let id = Pallet::get_order_id(caller, asset, price, foreign);
        let fund = self.fund;
        match self.ledger.transfer(caller, fund, value) {
            Ok(()) => {},
            Err(()) => {
                return Err(Error::TransferFailed);
            },
        }
        let old_v = self.order_value_raw(&id);
        proof {
            lemma_value_le_total(self.orders@, id);
        }
        self.order_set(id, old_v + value);
        self.index_account(caller);
        self.events.push(Event::AddToOrder(caller, asset, price, foreign, value));
        Ok(())
    }

    /// Moves `value` out of the order of `caller` for `asset` at `price`
    /// towards `foreign`, back to `caller`.
    pub fn remove_from_order(
        &mut self,
        caller: AccountId,
        asset: AcuityAssetId,
        price: u128,
        foreign: AcuityForeignAddress,
        value: Balance,
    ) -> (r: Result<(), Error>)
        requires
            old(self).wf(),
            caller != old(self).fund,
        ensures
            final(self).wf(),
            remove_from_order_post(*old(self), *final(self), caller, asset, price, foreign, value, r),
    {
        let id = Pallet::get_order_id(caller, asset, price, foreign);
        let old_v = self.order_value_of(id);
        if old_v < value {
            return Err(Error::OrderTooSmall);
        }
        proof {
            lemma_value_le_total(self.orders@, id);
        }
        let fund = self.fund;
        match self.ledger.transfer(fund, caller, value) {
            Ok(()) => {},
            Err(()) => {
                return Err(Error::TransferFailed);
            },
        }
        self.order_set(id, old_v - value);
        self.index_account(caller);
        self.events.push(Event::RemoveFromOrder(caller, asset, price, foreign, value));
        Ok(())
    }

    /// Moves the whole order of `caller` for `asset` at `price` towards
    /// `foreign` back to `caller`.
    pub fn remove_from_order_all(
        &mut self,
        caller: AccountId,
        asset: AcuityAssetId,
        price: u128,
        foreign: AcuityForeignAddress,
    ) -> (r: Result<(), Error>)
        requires
            old(self).wf(),
            caller != old(self).fund,
        ensures
            final(self).wf(),
            remove_from_order_post(
                *old(self),
                *final(self),
                caller,
                asset,
                price,
                foreign,
                old(self).order_value(order_id_of(caller, asset, price, foreign)) as Balance,
                r,
            ),
            r is Ok ==> final(self).order_value(order_id_of(caller, asset, price, foreign)) == 0,
    {
        let id = Pallet::get_order_id(caller, asset, price, foreign);
        let v = self.order_value_of(id);
        self.remove_from_order(caller, asset, price, foreign, v)
    }

    /// Moves `value` from the order of `caller` for (`old_asset`, `old_price`,
    /// `old_foreign`) to its order for (`new_asset`, `new_price`, `new_foreign`).
    pub fn change_order(
        &mut self,
        caller: AccountId,
        old_asset: AcuityAssetId,
        old_price: u128,
        old_foreign: AcuityForeignAddress,
        new_asset: AcuityAssetId,
        new_price: u128,
        new_foreign: AcuityForeignAddress,
        value: Balance,
    ) -> (r: Result<(), Error>)
        requires
            old(self).wf(),
        ensures
            final(self).wf(),
            change_order_post(
                *old(self),
                *final(self),
                caller,
                old_asset,
                old_price,
                old_foreign,
                new_asset,
                new_price,
                new_foreign,
                value,
                r,
            ),
    {
        let old_id = Pallet::get_order_id(caller, old_asset, old_price, old_foreign);
        let new_id = Pallet::get_order_id(caller, new_asset, new_price, new_foreign);
        let old_v = self.order_value_of(old_id);
        if old_v < value {
            return Err(Error::OrderTooSmall);
        }
        self.order_set(old_id, old_v - value);
        let new_v = self.order_value_raw(&new_id);
        proof {
            lemma_value_le_total(self.orders@, new_id);
            lemma_value_le_total(old(self).orders@, old_id);
            lemma_value_found_or_zero(self.ledger.entries@, self.fund);
        }
        self.order_set(new_id, new_v + value);
        self.index_account(caller);
        self.events.push(Event::RemoveFromOrder(caller, old_asset, old_price, old_foreign, value));
        self.events.push(Event::AddToOrder(caller, new_asset, new_price, new_foreign, value));
        Ok(())
    }

    /// Moves the whole order of `caller` for (`old_asset`, `old_price`,
    /// `old_foreign`) to its order for (`new_asset`, `new_price`, `new_foreign`).
    pub fn change_order_all(
        &mut self,
        caller: AccountId,
        old_asset: AcuityAssetId,
        old_price: u128,
        old_foreign: AcuityForeignAddress,
        new_asset: AcuityAssetId,
        new_price: u128,
        new_foreign: AcuityForeignAddress,
    ) -> (r: Result<(), Error>)
        requires
            old(self).wf(),
        ensures
            final(self).wf(),
            r is Ok,
            change_order_post(
                *old(self),
                *final(self),
                caller,
                old_asset,
                old_price,
                old_foreign,
                new_asset,
                new_price,
                new_foreign,
                old(self).order_value(order_id_of(caller, old_asset, old_price, old_foreign)) as Balance,
                r,
            ),
    {
        let old_id = Pallet::get_order_id(caller, old_asset, old_price, old_foreign);
        let v = self.order_value_of(old_id);
        self.change_order(caller, old_asset, old_price, old_foreign, new_asset, new_price, new_foreign, v)
    }
}

} // verus!
