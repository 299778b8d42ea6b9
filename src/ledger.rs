//! The native currency: free balances of accounts, moved by transfers.
use vstd::prelude::*;
use crate::keyed::{has_key, keys_unique, lemma_push, lemma_update, lemma_value_absent, lemma_value_at_index, value_at};
use crate::types::{AccountId, Balance};

verus! {

/// Free balances. An account without an entry holds nothing; a transfer may
/// take an account down to zero, as no minimum balance is kept.
#[derive(Clone, Debug, PartialEq, Eq)]
pub struct Ledger {
    pub entries: Vec<(AccountId, Balance)>,
}

impl Ledger {
    pub open spec fn wf(&self) -> bool {
        keys_unique(self.entries@)
    }

    pub open spec fn balance_of(&self, a: AccountId) -> nat {
        value_at(self.entries@, a)
    }

    /// A ledger in which nobody holds anything.
    pub fn new() -> (r: Ledger)
        ensures
            r.wf(),
            forall|a: AccountId| r.balance_of(a) == 0,
    {
        Ledger { entries: Vec::new() }
    }

    fn find(&self, a: AccountId) -> (r: Option<usize>)
        requires
            self.wf(),
        ensures
            r matches Some(i) ==> i < self.entries@.len() && self.entries@[i as int].0 == a
                && self.balance_of(a) == self.entries@[i as int].1,
            r is None ==> !has_key(self.entries@, a) && self.balance_of(a) == 0,
    {
        let mut i: usize = 0;
        while i < self.entries.len()
            invariant
                self.wf(),
                0 <= i <= self.entries@.len(),
                forall|j: int| 0 <= j < i ==> self.entries@[j].0 != a,
            decreases self.entries@.len() - i,
        {
            if self.entries[i].0 == a {
                proof {
                    lemma_value_at_index(self.entries@, i as int);
                }
                return Some(i);
            }
            i = i + 1;
        }
        proof {
            lemma_value_absent(self.entries@, a);
        }
        None
    }

    /// The free balance of `a`.
    pub fn balance(&self, a: AccountId) -> (r: Balance)
        requires
            self.wf(),
        ensures
            r == self.balance_of(a),
    {
        match self.find(a) {
            Some(i) => self.entries[i].1,
            None => 0,
        }
    }

    /// Sets the free balance of `a` to `v`.
    pub fn set_balance(&mut self, a: AccountId, v: Balance)
        requires
            old(self).wf(),
        ensures
            final(self).wf(),
            final(self).balance_of(a) == v,
            forall|b: AccountId| b != a ==> final(self).balance_of(b) == old(self).balance_of(b),
    {
        match self.find(a) {
            Some(i) => {
                proof {
                    lemma_update(self.entries@, i as int, v);
                }
                self.entries.set(i, (a, v));
                assert(self.entries@ =~= old(self).entries@.update(
                    i as int,
                    (old(self).entries@[i as int].0, v),
                ));
                assert forall|b: AccountId| b != a implies self.balance_of(b) == old(
                    self,
                ).balance_of(b) by {
                    assert(value_at(self.entries@, b) + 0 == value_at(old(self).entries@, b) + 0);
                }
                assert(value_at(self.entries@, a) + old(self).entries@[i as int].1 == value_at(
                    old(self).entries@,
                    a,
                ) + v);
            },
            None => {
                proof {
                    lemma_push(self.entries@, (a, v));
                }
                self.entries.push((a, v));
            },
        }
    }

    /// Moves `v` from `from` to `to`; refused when `from` holds less than `v` or
    /// when `to` would overflow. A refused transfer changes nothing.
    pub fn transfer(&mut self, from: AccountId, to: AccountId, v: Balance) -> (r: Result<(), ()>)
        requires
            old(self).wf(),
            from != to,
        ensures
            final(self).wf(),
            r is Ok <==> (v <= old(self).balance_of(from) && old(self).balance_of(to) + v
                <= u128::MAX),
            r is Ok ==> final(self).balance_of(from) == old(self).balance_of(from) - v
                && final(self).balance_of(to) == old(self).balance_of(to) + v && forall|
                b: AccountId,
            | b != from && b != to ==> final(self).balance_of(b) == old(self).balance_of(b),
            r is Err ==> *final(self) == *old(self),
    {
        let fb = self.balance(from);
        if fb < v {
            return Err(());
        }
        let tb = self.balance(to);
        if tb > u128::MAX - v {
            return Err(());
        }
        self.set_balance(from, fb - v);
        self.set_balance(to, tb + v);
        Ok(())
    }
}

} // verus!
