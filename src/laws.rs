//! Properties that span the state or several operations.
use vstd::prelude::*;
use crate::hashing::{hashed_secret_of, lock_id_of, order_id_of};
use crate::keyed::{lemma_value_found_or_zero, total};
use crate::locks::{lock_buy_post, lock_sell_post, payout_post};
use crate::orders::{add_to_order_post, remove_from_order_post};
use crate::pallet::{blocks_of, non_decreasing, Pallet};
use crate::stash::{deposit_stash_post, withdraw_stash_post};
use crate::types::{
    AccountId, AcuityAssetId, AcuityForeignAddress, AcuityHashedSecret, AcuityLockId, AcuitySecret, Balance,
    BlockNumber, Error, Event, Moment,
};

verus! {

/// The escrow account holds exactly the value of all orders, locks, stashes
/// and sell locks on orders.
pub proof fn lemma_conservation(p: Pallet)
    requires
        p.wf(),
    ensures
        p.balance_of(p.fund) == total(p.orders@) + total(p.locks@) + total(p.stash@) + total(
            p.sell_locks@,
        ),
{
}

/// While a lock lives, neither a buy lock nor a sell lock with the same id
/// can be made: both are refused and change nothing.
pub proof fn lemma_lock_unique(
    p: Pallet,
    q_buy: Pallet,
    q_sell: Pallet,
    caller: AccountId,
    recipient: AccountId,
    hashed_secret: AcuityHashedSecret,
    timeout: Moment,
    value: Balance,
    asset: AcuityAssetId,
    sell_price: u128,
    buy_lock_id: AcuityLockId,
    r_buy: Result<(), Error>,
    r_sell: Result<(), Error>,
)
    requires
        p.lock_value(lock_id_of(caller, recipient, hashed_secret, timeout)) > 0,
        lock_buy_post(p, q_buy, caller, recipient, hashed_secret, timeout, value, asset, sell_price, r_buy),
        lock_sell_post(p, q_sell, caller, recipient, hashed_secret, timeout, value, asset, buy_lock_id, r_sell),
    ensures
        r_buy is Err,
        r_sell is Err,
        q_buy == p,
        q_sell == p,
{
}

/// Unlocking succeeds only for the lock whose id was made from the
/// Keccak-256 digest of the secret presented.
pub proof fn lemma_unlock_needs_preimage(
    p: Pallet,
    q: Pallet,
    creator: AccountId,
    recipient: AccountId,
    payee: AccountId,
    secret: AcuitySecret,
    timeout: Moment,
    r: Result<(), Error>,
)
    requires
        payout_post(
            p,
            q,
            lock_id_of(creator, recipient, hashed_secret_of(secret), timeout),
            creator,
            recipient,
            payee,
            timeout <= p.now,
            Error::LockTimedOut,
            Event::Unlock(
                creator,
                recipient,
                lock_id_of(creator, recipient, hashed_secret_of(secret), timeout),
                secret,
            ),
            r,
        ),
        r is Ok,
    ensures
        p.lock_value(lock_id_of(creator, recipient, hashed_secret_of(secret), timeout)) > 0,
        q.lock_value(lock_id_of(creator, recipient, hashed_secret_of(secret), timeout)) == 0,
        p.now < timeout,
{
}

/// At the timeout itself a lock can no longer be unlocked by its recipient,
/// and its creator can take it back.
pub proof fn lemma_timeout_boundary(
    p: Pallet,
    q_unlock: Pallet,
    q_retrieve: Pallet,
    creator: AccountId,
    recipient: AccountId,
    secret: AcuitySecret,
    timeout: Moment,
    r_unlock: Result<(), Error>,
    r_retrieve: Result<(), Error>,
)
    requires
        p.wf(),
        p.now == timeout,
        creator != p.fund,
        payout_post(
            p,
            q_unlock,
            lock_id_of(creator, recipient, hashed_secret_of(secret), timeout),
            creator,
            recipient,
            recipient,
            timeout <= p.now,
            Error::LockTimedOut,
            Event::Unlock(
                creator,
                recipient,
                lock_id_of(creator, recipient, hashed_secret_of(secret), timeout),
                secret,
            ),
            r_unlock,
        ),
        payout_post(
            p,
            q_retrieve,
            lock_id_of(creator, recipient, hashed_secret_of(secret), timeout),
            creator,
            recipient,
            creator,
            p.now < timeout,
            Error::LockNotTimedOut,
            Event::Retrieve(
                creator,
                recipient,
                lock_id_of(creator, recipient, hashed_secret_of(secret), timeout),
            ),
            r_retrieve,
        ),
        p.lock_value(lock_id_of(creator, recipient, hashed_secret_of(secret), timeout)) > 0,
        p.balance_of(creator) + p.lock_value(
            lock_id_of(creator, recipient, hashed_secret_of(secret), timeout),
        ) <= u128::MAX,
    ensures
        r_unlock == Err::<(), Error>(Error::LockTimedOut),
        r_retrieve is Ok,
{
}

proof fn lemma_blocks_sorted(log: Seq<(AccountId, BlockNumber)>, a: AccountId)
    requires
        forall|i: int, j: int| 0 <= i <= j < log.len() ==> log[i].1 <= log[j].1,
    ensures
        non_decreasing(blocks_of(log, a)),
        forall|i: int| 0 <= i < blocks_of(log, a).len() ==> exists|k: int|
            0 <= k < log.len() && #[trigger] blocks_of(log, a)[i] == log[k].1,
    decreases log.len(),
{
    if log.len() > 0 {
        let d = log.drop_last();
        lemma_blocks_sorted(d, a);
        let b = blocks_of(log, a);
        let bd = blocks_of(d, a);
        assert forall|i: int| 0 <= i < b.len() implies exists|k: int|
            0 <= k < log.len() && #[trigger] b[i] == log[k].1 by {
            if i < bd.len() {
                assert(b[i] == bd[i]);
                let k = choose|k: int| 0 <= k < d.len() && bd[i] == d[k].1;
                assert(log[k] == d[k]);
            } else {
                assert(b[i] == log[log.len() - 1].1);
            }
        }
        assert forall|i: int, j: int| 0 <= i <= j < b.len() implies b[i] <= b[j] by {
            if j < bd.len() {
                assert(b[i] == bd[i] && b[j] == bd[j]);
            } else if i < bd.len() {
                assert(b[i] == bd[i]);
                let k = choose|k: int| 0 <= k < d.len() && bd[i] == d[k].1;
                assert(log[k] == d[k]);
            }
        }
    }
}

/// The block heights recorded for an account never go down.
pub proof fn lemma_index_blocks_sorted(p: Pallet, a: AccountId)
    requires
        p.wf(),
    ensures
        non_decreasing(p.index_blocks(a)),
{
    lemma_blocks_sorted(p.index_log@, a);
}

/// An index log that only grows at its end never loses a record of an
/// account: the account's next index does not decrease.
pub proof fn lemma_index_grows(log: Seq<(AccountId, BlockNumber)>, ext: Seq<(AccountId, BlockNumber)>, a: AccountId)
    ensures
        blocks_of(log, a).len() <= blocks_of(log + ext, a).len(),
        blocks_of(log, a) == blocks_of(log + ext, a).subrange(0, blocks_of(log, a).len() as int),
    decreases ext.len(),
{
    if ext.len() > 0 {
        let e2 = ext.drop_last();
        lemma_index_grows(log, e2, a);
        assert((log + ext).drop_last() =~= log + e2);
        let big = blocks_of(log + ext, a);
        let mid = blocks_of(log + e2, a);
        assert(big.subrange(0, mid.len() as int) =~= mid);
        assert(big.subrange(0, blocks_of(log, a).len() as int) =~= mid.subrange(
            0,
            blocks_of(log, a).len() as int,
        ));
    } else {
        assert(log + ext =~= log);
        assert(blocks_of(log, a).subrange(0, blocks_of(log, a).len() as int) =~= blocks_of(log, a));
    }
}

/// Depositing into a stash and withdrawing the same value gives the caller
/// its balance back and leaves the stash as it was.
pub proof fn lemma_stash_round_trip(
    before: Pallet,
    mid: Pallet,
    after: Pallet,
    caller: AccountId,
    asset: AcuityAssetId,
    value: Balance,
    r1: Result<(), Error>,
    r2: Result<(), Error>,
)
    requires
        before.wf(),
        caller != before.fund,
        deposit_stash_post(before, mid, caller, asset, value, r1),
        r1 is Ok,
        withdraw_stash_post(mid, after, caller, asset, value, r2),
    ensures
        r2 is Ok,
        after.balance_of(caller) == before.balance_of(caller),
        after.balance_of(before.fund) == before.balance_of(before.fund),
        after.stash_value(asset, caller) == before.stash_value(asset, caller),
{
    lemma_value_found_or_zero(before.ledger.entries@, caller);
}

/// Adding to an order and removing the same value gives the caller its
/// balance back and leaves the order as it was.
pub proof fn lemma_order_round_trip(
    before: Pallet,
    mid: Pallet,
    after: Pallet,
    caller: AccountId,
    asset: AcuityAssetId,
    price: u128,
    foreign: AcuityForeignAddress,
    value: Balance,
    r1: Result<(), Error>,
    r2: Result<(), Error>,
)
    requires
        before.wf(),
        caller != before.fund,
        add_to_order_post(before, mid, caller, asset, price, foreign, value, r1),
        r1 is Ok,
        remove_from_order_post(mid, after, caller, asset, price, foreign, value, r2),
    ensures
        r2 is Ok,
        after.balance_of(caller) == before.balance_of(caller),
        after.order_value(order_id_of(caller, asset, price, foreign)) == before.order_value(
            order_id_of(caller, asset, price, foreign),
        ),
{
    lemma_value_found_or_zero(before.ledger.entries@, caller);
}

/// Locking value and taking it back once the timeout has come gives the
/// creator its balance back.
pub proof fn lemma_lock_round_trip(
    before: Pallet,
    mid: Pallet,
    after: Pallet,
    caller: AccountId,
    recipient: AccountId,
    hashed_secret: AcuityHashedSecret,
    timeout: Moment,
    value: Balance,
    sell_asset_id: AcuityAssetId,
    sell_price: u128,
    now: Moment,
    r1: Result<(), Error>,
    r2: Result<(), Error>,
)
    requires
        before.wf(),
        caller != before.fund,
        lock_buy_post(
            before,
            mid,
            caller,
            recipient,
            hashed_secret,
            timeout,
            value,
            sell_asset_id,
            sell_price,
            r1,
        ),
        r1 is Ok,
        timeout <= now,
        payout_post(
            Pallet { now, ..mid },
            after,
            lock_id_of(caller, recipient, hashed_secret, timeout),
            caller,
            recipient,
            caller,
            now < timeout,
            Error::LockNotTimedOut,
            Event::Retrieve(caller, recipient, lock_id_of(caller, recipient, hashed_secret, timeout)),
            r2,
        ),
    ensures
        r2 is Ok,
        after.balance_of(caller) == before.balance_of(caller),
        after.lock_value(lock_id_of(caller, recipient, hashed_secret, timeout)) == before.lock_value(
            lock_id_of(caller, recipient, hashed_secret, timeout),
        ),
{
    lemma_value_found_or_zero(before.ledger.entries@, caller);
}

} // verus!
