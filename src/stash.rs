//! The stash pool: per-asset liquidity, ranked by value.
use vstd::prelude::*;
use crate::keyed::{
    has_key, keys_unique, lemma_insert, lemma_remove, lemma_value_absent, lemma_value_at_index, lemma_value_found_or_zero,
    lemma_value_le_total, total, value_at, values_nonzero,
};
use crate::pallet::{ranked, stash_list, Pallet};
use crate::types::{eq_bytes32, AccountId, AcuityAssetId, Balance, Error, Event};

verus! {

pub open spec fn stash_ok(s: Seq<((AcuityAssetId, AccountId), Balance)>) -> bool {
    keys_unique(s) && values_nonzero(s) && ranked(s)
}

proof fn lemma_stash_remove(s: Seq<((AcuityAssetId, AccountId), Balance)>, i: int)
    requires
        stash_ok(s),
        0 <= i < s.len(),
    ensures
        stash_ok(s.remove(i)),
        forall|j: int| 0 <= j < s.remove(i).len() ==> s.remove(i)[j].0 != s[i].0,
{
    let r = s.remove(i);
    assert forall|a: int, b: int| 0 <= a < b < r.len() implies r[a].0 != r[b].0 by {
        let a2 = if a < i { a } else { a + 1 };
        let b2 = if b < i { b } else { b + 1 };
        assert(r[a] == s[a2] && r[b] == s[b2]);
    }
    assert forall|a: int, b: int|
        #![trigger r[a], r[b]]
        0 <= a < b < r.len() && r[a].0.0 == r[b].0.0 implies r[a].1 >= r[b].1 by {
        let a2 = if a < i { a } else { a + 1 };
        let b2 = if b < i { b } else { b + 1 };
        assert(r[a] == s[a2] && r[b] == s[b2]);
    }
    assert forall|j: int| 0 <= j < r.len() implies r[j].0 != s[i].0 by {
        let j2 = if j < i { j } else { j + 1 };
        assert(r[j] == s[j2]);
    }
}

proof fn lemma_stash_insert(
    s: Seq<((AcuityAssetId, AccountId), Balance)>,
    p: int,
    e: ((AcuityAssetId, AccountId), Balance),
)
    requires
        stash_ok(s),
        0 <= p <= s.len(),
        e.1 > 0,
        forall|j: int| 0 <= j < s.len() ==> s[j].0 != e.0,
        forall|j: int| 0 <= j < p && s[j].0.0 == e.0.0 ==> s[j].1 >= e.1,
        p < s.len() ==> s[p].0.0 == e.0.0 && s[p].1 < e.1,
    ensures
        stash_ok(s.insert(p, e)),
{
    let t = s.insert(p, e);
    assert forall|a: int, b: int| 0 <= a < b < t.len() implies t[a].0 != t[b].0 by {
        if a != p && b != p {
            let a2 = if a < p { a } else { a - 1 };
            let b2 = if b < p { b } else { b - 1 };
            assert(t[a] == s[a2] && t[b] == s[b2]);
        } else if a == p {
            assert(t[b] == s[b - 1]);
        } else {
            assert(t[a] == s[a]);
        }
    }
    assert forall|a: int, b: int|
        #![trigger t[a], t[b]]
        0 <= a < b < t.len() && t[a].0.0 == t[b].0.0 implies t[a].1 >= t[b].1 by {
        if a != p && b != p {
            let a2 = if a < p { a } else { a - 1 };
            let b2 = if b < p { b } else { b - 1 };
            assert(t[a] == s[a2] && t[b] == s[b2]);
        } else if a == p {
            assert(t[b] == s[b - 1]);
            assert(s[p] == t[p + 1]);
            if b - 1 > p {
                assert(s[p].1 >= s[b - 1].1);
            }
        } else {
            assert(t[a] == s[a]);
        }
    }
    assert forall|j: int| 0 <= j < t.len() implies t[j].1 > 0 by {
        if j < p {
            assert(t[j] == s[j]);
        } else if j > p {
            assert(t[j] == s[j - 1]);
        }
    }
}

impl Pallet {
    /// Where an entry of `asset` with value `v` goes: after every entry of
    /// that asset whose value is at least `v`.
    fn stash_position(&self, asset: &AcuityAssetId, v: Balance) -> (p: usize)
        ensures
            p <= self.stash@.len(),
            forall|j: int| 0 <= j < p && self.stash@[j].0.0 == *asset ==> self.stash@[j].1 >= v,
            p < self.stash@.len() ==> self.stash@[p as int].0.0 == *asset && self.stash@[p as int].1
                < v,
    {
        let mut i: usize = 0;
        while i < self.stash.len()
            invariant
                0 <= i <= self.stash@.len(),
                forall|j: int|
                    0 <= j < i && self.stash@[j].0.0 == *asset ==> self.stash@[j].1 >= v,
            decreases self.stash@.len() - i,
        {
            let e = &self.stash[i];
            if eq_bytes32(&e.0.0.0, &asset.0) && e.1 < v {
                return i;
            }
            i = i + 1;
        }
        i
    }

    fn stash_find(&self, asset: &AcuityAssetId, a: AccountId) -> (r: Option<usize>)
        requires
            keys_unique(self.stash@),
        ensures
            r matches Some(i) ==> i < self.stash@.len() && self.stash@[i as int].0 == (*asset, a)
                && value_at(self.stash@, (*asset, a)) == self.stash@[i as int].1,
            r is None ==> !has_key(self.stash@, (*asset, a)) && value_at(self.stash@, (*asset, a))
                == 0,
    {
        let mut i: usize = 0;
        while i < self.stash.len()
            invariant
                keys_unique(self.stash@),
                0 <= i <= self.stash@.len(),
                forall|j: int| 0 <= j < i ==> self.stash@[j].0 != (*asset, a),
            decreases self.stash@.len() - i,
        {
            let e = &self.stash[i];
            if eq_bytes32(&e.0.0.0, &asset.0) && e.0.1 == a {
                proof {
                    lemma_value_at_index(self.stash@, i as int);
                }
                return Some(i);
            }
            i = i + 1;
        }
        proof {
            lemma_value_absent(self.stash@, (*asset, a));
        }
        None
    }

    /// The stash value of `a` in `asset`.
    pub fn stash_value_of(&self, asset: AcuityAssetId, a: AccountId) -> (r: Balance)
        requires
            self.wf(),
        ensures
            r == self.stash_value(asset, a),
    {
        match self.stash_find(&asset, a) {
            Some(i) => self.stash[i].1,
            None => 0,
        }
    }

    /// Sets the stash value of `a` in `asset` to `v` and moves the entry to its
    /// rank; a zero value leaves the list.
    pub(crate) fn stash_set(&mut self, asset: AcuityAssetId, a: AccountId, v: Balance)
        requires
            stash_ok(old(self).stash@),
        ensures
            stash_ok(final(self).stash@),
            *final(self) == (Pallet { stash: final(self).stash, ..*old(self) }),
            value_at(final(self).stash@, (asset, a)) == v,
            forall|k: (AcuityAssetId, AccountId)|
                k != (asset, a) ==> #[trigger] value_at(final(self).stash@, k) == value_at(
                    old(self).stash@,
                    k,
                ),
            total(final(self).stash@) + value_at(old(self).stash@, (asset, a)) == total(
                old(self).stash@,
            ) + v,
    {
        match self.stash_find(&asset, a) {
            Some(i) => {
                proof {
                    lemma_remove(self.stash@, i as int);
                    lemma_stash_remove(self.stash@, i as int);
                }
                self.stash.remove(i);
            },
            None => {
                proof {
                    assert forall|j: int| 0 <= j < self.stash@.len() implies self.stash@[j].0 != (
                    asset,
                    a,
                ) by {
                        if self.stash@[j].0 == (asset, a) {
                            assert(has_key(self.stash@, (asset, a)));
                        }
                    }
                }
            },
        }
        proof {
            lemma_value_absent(self.stash@, (asset, a));
        }
        if v > 0 {
            let p = self.stash_position(&asset, v);
            proof {
                lemma_insert(self.stash@, p as int, ((asset, a), v));
                lemma_stash_insert(self.stash@, p as int, ((asset, a), v));
            }
            self.stash.insert(p, ((asset, a), v));
        }
    }
}

} // verus!

verus! {

/// What `deposit_stash` does: refused on a zero value or a transfer that the
/// currency refuses; else the value moves from `caller` to the escrow and into
/// the caller's stash.
pub open spec fn deposit_stash_post(
    pre: Pallet,
    post: Pallet,
    caller: AccountId,
    asset: AcuityAssetId,
    value: Balance,
    r: Result<(), Error>,
) -> bool {
    &&& (r == Err::<(), Error>(Error::ZeroValue)) == (value == 0)
    &&& (r == Err::<(), Error>(Error::TransferFailed)) == (value > 0 && (pre.balance_of(caller) < value
        || pre.balance_of(pre.fund) + value > u128::MAX))
    &&& (r is Ok) == (value > 0 && value <= pre.balance_of(caller) && pre.balance_of(pre.fund)
        + value <= u128::MAX)
    &&& r is Err ==> post == pre
    &&& r is Ok ==> {
        &&& crate::pallet::moved(&pre, &post, caller, pre.fund, value as nat)
        &&& crate::pallet::stash_set_to(
            &pre,
            &post,
            asset,
            caller,
            pre.stash_value(asset, caller) + value as nat,
        )
        &&& post.orders@ == pre.orders@
        &&& post.locks@ == pre.locks@
        &&& post.sell_locks@ == pre.sell_locks@
        &&& post.same_env(&pre)
        &&& post.index_log@ == pre.index_log@.push((caller, pre.block_number))
        &&& post.events@ == pre.events@.push(Event::StashAdd(asset, caller, value))
    }
}

/// What `withdraw_stash` does: refused when the stash holds less than `value`
/// or the currency refuses the transfer; else the value leaves the caller's
/// stash and moves from the escrow to `caller`.
pub open spec fn withdraw_stash_post(
    pre: Pallet,
    post: Pallet,
    caller: AccountId,
    asset: AcuityAssetId,
    value: Balance,
    r: Result<(), Error>,
) -> bool {
    &&& (r == Err::<(), Error>(Error::StashNotBigEnough)) == (pre.stash_value(asset, caller) < value)
    &&& (r == Err::<(), Error>(Error::TransferFailed)) == (value <= pre.stash_value(asset, caller)
        && pre.balance_of(caller) + value > u128::MAX)
    &&& (r is Ok) == (value <= pre.stash_value(asset, caller) && pre.balance_of(caller) + value
        <= u128::MAX)
    &&& r is Err ==> post == pre
    &&& r is Ok ==> {
        &&& crate::pallet::moved(&pre, &post, pre.fund, caller, value as nat)
        &&& crate::pallet::stash_set_to(
            &pre,
            &post,
            asset,
            caller,
            (pre.stash_value(asset, caller) - value) as nat,
        )
        &&& post.orders@ == pre.orders@
        &&& post.locks@ == pre.locks@
        &&& post.sell_locks@ == pre.sell_locks@
        &&& post.same_env(&pre)
        &&& post.index_log@ == pre.index_log@.push((caller, pre.block_number))
        &&& post.events@ == pre.events@.push(Event::StashRemove(asset, caller, value))
    }
}

impl Pallet {
    /// Moves `value` from `caller` into its stash of `asset`.
    pub fn deposit_stash(&mut self, caller: AccountId, asset: AcuityAssetId, value: Balance) -> (r:
        Result<(), Error>)
        requires
            old(self).wf(),
            caller != old(self).fund,
        ensures
            final(self).wf(),
            deposit_stash_post(*old(self), *final(self), caller, asset, value, r),
    {
        if value == 0 {
            return Err(Error::ZeroValue);
        }
        let fund = self.fund;
        match self.ledger.transfer(caller, fund, value) {
            Ok(()) => {},
            Err(()) => {
                return Err(Error::TransferFailed);
            },
        }
        let old_v = self.stash_value_of_raw(&asset, caller);
        proof {
            lemma_value_le_total(self.stash@, (asset, caller));
        }
        self.stash_set(asset, caller, old_v + value);
        self.index_account(caller);
        self.events.push(Event::StashAdd(asset, caller, value));
        Ok(())
    }

    /// Moves `value` out of the stash of `asset` of `caller`, back to `caller`.
    pub fn withdraw_stash(&mut self, caller: AccountId, asset: AcuityAssetId, value: Balance) -> (r:
        Result<(), Error>)
        requires
            old(self).wf(),
            caller != old(self).fund,
        ensures
            final(self).wf(),
            withdraw_stash_post(*old(self), *final(self), caller, asset, value, r),
    {
        let old_v = self.stash_value_of_raw(&asset, caller);
        if old_v < value {
            return Err(Error::StashNotBigEnough);
        }
        proof {
            lemma_value_le_total(self.stash@, (asset, caller));
        }
        let fund = self.fund;
        match self.ledger.transfer(fund, caller, value) {
            Ok(()) => {},
            Err(()) => {
                return Err(Error::TransferFailed);
            },
        }
        self.stash_set(asset, caller, old_v - value);
        self.index_account(caller);
        self.events.push(Event::StashRemove(asset, caller, value));
        Ok(())
    }

    /// Moves the whole stash of `asset` of `caller` back to `caller`.
    pub fn withdraw_stash_all(&mut self, caller: AccountId, asset: AcuityAssetId) -> (r: Result<
        (),
        Error,
    >)
        requires
            old(self).wf(),
            caller != old(self).fund,
        ensures
            final(self).wf(),
            withdraw_stash_post(
                *old(self),
                *final(self),
                caller,
                asset,
                old(self).stash_value(asset, caller) as Balance,
                r,
            ),
            r is Ok ==> final(self).stash_value(asset, caller) == 0,
    {
        let v = self.stash_value_of_raw(&asset, caller);
        self.withdraw_stash(caller, asset, v)
    }

    pub(crate) fn stash_value_of_raw(&self, asset: &AcuityAssetId, a: AccountId) -> (r: Balance)
        requires
            keys_unique(self.stash@),
        ensures
            r == value_at(self.stash@, (*asset, a)),
    {
        match self.stash_find(asset, a) {
            Some(i) => self.stash[i].1,
            None => 0,
        }
    }
}

} // verus!

verus! {

/// What `move_stash` does: refused when the stash of `from_asset` holds less
/// than `value`; else `value` leaves it and joins the stash of `to_asset`, with
/// no transfer.
pub open spec fn move_stash_post(
    pre: Pallet,
    post: Pallet,
    caller: AccountId,
    from_asset: AcuityAssetId,
    to_asset: AcuityAssetId,
    value: Balance,
    r: Result<(), Error>,
) -> bool {
    &&& (r is Err) == (pre.stash_value(from_asset, caller) < value)
    &&& r is Err ==> r == Err::<(), Error>(Error::StashNotBigEnough) && post == pre
    &&& r is Ok ==> {
        &&& crate::pallet::balances_kept(&pre, &post)
        &&& from_asset != to_asset ==> post.stash_value(from_asset, caller) + value == pre.stash_value(
            from_asset,
            caller,
        ) && post.stash_value(to_asset, caller) == pre.stash_value(to_asset, caller) + value
        &&& from_asset == to_asset ==> post.stash_value(from_asset, caller) == pre.stash_value(
            from_asset,
            caller,
        )
        &&& forall|k: (AcuityAssetId, AccountId)|
            k != (from_asset, caller) && k != (to_asset, caller) ==> #[trigger] value_at(
                post.stash@,
                k,
            ) == value_at(pre.stash@, k)
        &&& post.orders@ == pre.orders@
        &&& post.locks@ == pre.locks@
        &&& post.sell_locks@ == pre.sell_locks@
        &&& post.same_env(&pre)
        &&& post.index_log@ == pre.index_log@.push((caller, pre.block_number))
        &&& post.events@ == pre.events@.push(Event::StashRemove(from_asset, caller, value)).push(
            Event::StashAdd(to_asset, caller, value),
        )
    }
}

impl Pallet {
    /// Moves `value` of the stash of `caller` from `from_asset` to `to_asset`.
    pub fn move_stash(
        &mut self,
        caller: AccountId,
        from_asset: AcuityAssetId,
        to_asset: AcuityAssetId,
        value: Balance,
    ) -> (r: Result<(), Error>)
        requires
            old(self).wf(),
        ensures
            final(self).wf(),
            move_stash_post(*old(self), *final(self), caller, from_asset, to_asset, value, r),
    {
        let from_v = self.stash_value_of_raw(&from_asset, caller);
        if from_v < value {
            return Err(Error::StashNotBigEnough);
        }
        self.stash_set(from_asset, caller, from_v - value);
        let to_v = self.stash_value_of_raw(&to_asset, caller);
        proof {
            lemma_value_le_total(self.stash@, (to_asset, caller));
            lemma_value_le_total(old(self).stash@, (from_asset, caller));
            lemma_value_found_or_zero(self.ledger.entries@, self.fund);
        }
        self.stash_set(to_asset, caller, to_v + value);
        self.index_account(caller);
        self.events.push(Event::StashRemove(from_asset, caller, value));
        self.events.push(Event::StashAdd(to_asset, caller, value));
        Ok(())
    }
}

} // verus!

verus! {

/// The part of `l` from position `offset` on, at most `limit` long.
pub open spec fn page<T>(l: Seq<T>, offset: nat, limit: nat) -> Seq<T> {
    let start = if offset < l.len() { offset } else { l.len() };
    let end = if offset + limit < l.len() { offset + limit } else { l.len() };
    l.subrange(start as int, end as int)
}

proof fn lemma_page_push<T>(l: Seq<T>, x: T, offset: nat, limit: nat)
    ensures
        page(l.push(x), offset, limit) == page(l, offset, limit) + if offset <= l.len() < offset
            + limit {
            seq![x]
        } else {
            Seq::<T>::empty()
        },
{
    let a = page(l.push(x), offset, limit);
    let b = page(l, offset, limit) + if offset <= l.len() < offset + limit {
        seq![x]
    } else {
        Seq::<T>::empty()
    };
    assert(a =~= b);
}

proof fn lemma_stash_list_members(s: Seq<((AcuityAssetId, AccountId), Balance)>, asset: AcuityAssetId)
    ensures
        forall|m: int|
            0 <= m < stash_list(s, asset).len() ==> exists|k: int|
                0 <= k < s.len() && #[trigger] s[k].0 == (asset, #[trigger] stash_list(s, asset)[m].0) && s[k].1
                    == stash_list(s, asset)[m].1,
        forall|k: int|
            0 <= k < s.len() && s[k].0.0 == asset ==> exists|m: int|
                0 <= m < stash_list(s, asset).len() && stash_list(s, asset)[m] == (
                    s[k].0.1,
                    s[k].1,
                ),
    decreases s.len(),
{
    if s.len() > 0 {
        let d = s.drop_last();
        lemma_stash_list_members(d, asset);
        let l = stash_list(s, asset);
        let ld = stash_list(d, asset);
        assert forall|m: int| 0 <= m < l.len() implies exists|k: int|
            0 <= k < s.len() && #[trigger] s[k].0 == (asset, #[trigger] l[m].0) && s[k].1 == l[m].1 by {
            if m < ld.len() {
                assert(l[m] == ld[m]);
                let k = choose|k: int|
                    0 <= k < d.len() && d[k].0 == (asset, ld[m].0) && d[k].1 == ld[m].1;
                assert(s[k] == d[k]);
            } else {
                assert(s[s.len() - 1].0 == (asset, l[m].0));
            }
        }
        assert forall|k: int| 0 <= k < s.len() && #[trigger] s[k].0.0 == asset implies exists|m: int|
            0 <= m < l.len() && #[trigger] l[m] == (s[k].0.1, s[k].1) by {
            if k < d.len() {
                assert(s[k] == d[k]);
                let m = choose|m: int| 0 <= m < ld.len() && ld[m] == (d[k].0.1, d[k].1);
                assert(l[m] == ld[m]);
            } else {
                assert(l[l.len() - 1] == (s[k].0.1, s[k].1));
            }
        }
    }
}

proof fn lemma_stash_list_sorted(s: Seq<((AcuityAssetId, AccountId), Balance)>, asset: AcuityAssetId)
    requires
        ranked(s),
    ensures
        forall|i: int, j: int|
            0 <= i <= j < stash_list(s, asset).len() ==> stash_list(s, asset)[i].1 >= stash_list(
                s,
                asset,
            )[j].1,
    decreases s.len(),
{
    if s.len() > 0 {
        let d = s.drop_last();
        assert(ranked(d)) by {
            assert forall|i: int, j: int|
                #![trigger d[i], d[j]]
                0 <= i < j < d.len() && d[i].0.0 == d[j].0.0 implies d[i].1 >= d[j].1 by {
                assert(s[i] == d[i] && s[j] == d[j]);
            }
        }
        lemma_stash_list_sorted(d, asset);
        lemma_stash_list_members(d, asset);
        let l = stash_list(s, asset);
        let ld = stash_list(d, asset);
        assert forall|i: int, j: int| 0 <= i <= j < l.len() implies l[i].1 >= l[j].1 by {
            if j < ld.len() {
                assert(l[i] == ld[i] && l[j] == ld[j]);
            } else if i < ld.len() {
                assert(l[i] == ld[i]);
                let k = choose|k: int|
                    0 <= k < d.len() && d[k].0 == (asset, ld[i].0) && d[k].1 == ld[i].1;
                assert(s[k] == d[k]);
                assert(s[k].1 >= s[s.len() - 1].1);
            }
        }
    }
}

/// Walking the stash list of an asset from its head meets values in
/// non-increasing order, each with the stash value of its account, and meets
/// an account if and only if its stash in that asset is not zero.
pub proof fn lemma_stash_ranking(p: Pallet, asset: AcuityAssetId)
    requires
        p.wf(),
    ensures
        forall|i: int, j: int|
            0 <= i <= j < p.stashes(asset).len() ==> p.stashes(asset)[i].1 >= p.stashes(
                asset,
            )[j].1,
        forall|i: int|
            0 <= i < p.stashes(asset).len() ==> p.stashes(asset)[i].1 == p.stash_value(
                asset,
                #[trigger] p.stashes(asset)[i].0,
            ),
        forall|a: AccountId|
            (exists|i: int| 0 <= i < p.stashes(asset).len() && p.stashes(asset)[i].0 == a) <==> p.stash_value(
                asset,
                a,
            ) > 0,
{
    let s = p.stash@;
    let l = stash_list(s, asset);
    lemma_stash_list_sorted(s, asset);
    lemma_stash_list_members(s, asset);
    assert forall|i: int| 0 <= i < l.len() implies l[i].1 == p.stash_value(asset, #[trigger] l[i].0) by {
        let k = choose|k: int| 0 <= k < s.len() && s[k].0 == (asset, l[i].0) && s[k].1 == l[i].1;
        lemma_value_at_index(s, k);
    }
    assert forall|a: AccountId|
        (exists|i: int| 0 <= i < l.len() && l[i].0 == a) <==> p.stash_value(asset, a) > 0 by {
        lemma_value_found_or_zero(s, (asset, a));
        if exists|i: int| 0 <= i < l.len() && l[i].0 == a {
            let i = choose|i: int| 0 <= i < l.len() && l[i].0 == a;
            let k = choose|k: int| 0 <= k < s.len() && s[k].0 == (asset, l[i].0) && s[k].1 == l[i].1;
            lemma_value_at_index(s, k);
        }
        if p.stash_value(asset, a) > 0 {
            let k = choose|k: int| 0 <= k < s.len() && s[k].0 == (asset, a) && value_at(s, (asset, a)) == s[k].1;
            assert(s[k].0.0 == asset);
            let m = choose|m: int| 0 <= m < l.len() && l[m] == (s[k].0.1, s[k].1);
            assert(l[m].0 == a);
        }
    }
}

impl Pallet {
    /// Up to `limit` (account, value) pairs of the stash list of `asset`, from
    /// position `offset` on, in ranked order.
    pub fn get_stashes(&self, asset: AcuityAssetId, offset: u64, limit: u64) -> (r: Vec<
        (AccountId, Balance),
    >)
        ensures
            r@ == page(self.stashes(asset), offset as nat, limit as nat),
    {
        let mut r: Vec<(AccountId, Balance)> = Vec::new();
        let mut seen: u64 = 0;
        let mut i: usize = 0;
        while i < self.stash.len()
            invariant
                0 <= i <= self.stash@.len(),
                seen as nat == stash_list(self.stash@.subrange(0, i as int), asset).len(),
                seen <= i,
                r@ == page(
                    stash_list(self.stash@.subrange(0, i as int), asset),
                    offset as nat,
                    limit as nat,
                ),
            decreases self.stash@.len() - i,
        {
            let e = self.stash[i];
            proof {
                let pre = self.stash@.subrange(0, i as int);
                let post = self.stash@.subrange(0, i + 1);
                assert(post.drop_last() =~= pre);
                lemma_page_push(stash_list(pre, asset), (e.0.1, e.1), offset as nat, limit as nat);
            }
            if eq_bytes32(&e.0.0.0, &asset.0) {
                if offset <= seen && (seen as u128) < offset as u128 + limit as u128 {
                    r.push((e.0.1, e.1));
                }
                seen = seen + 1;
            }
            i = i + 1;
        }
        assert(self.stash@.subrange(0, self.stash@.len() as int) =~= self.stash@);
        r
    }
}

} // verus!
