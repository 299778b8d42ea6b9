//! Finite maps held as association lists `Seq<(K, u128)>`, read through sums
//! so that a missing key reads as zero.
use vstd::prelude::*;

verus! {

/// The value stored under `k`: the sum of the values of all entries keyed `k`
/// (with unique keys, the value of the one such entry, or zero).
pub open spec fn value_at<K>(s: Seq<(K, u128)>, k: K) -> nat
    decreases s.len(),
{
    if s.len() == 0 {
        0
    } else {
        value_at(s.drop_last(), k) + if s.last().0 == k {
            s.last().1 as nat
        } else {
            0
        }
    }
}

/// The sum of all values of the list.
pub open spec fn total<K>(s: Seq<(K, u128)>) -> nat
    decreases s.len(),
{
    if s.len() == 0 {
        0
    } else {
        total(s.drop_last()) + s.last().1 as nat
    }
}

pub open spec fn keys_unique<K>(s: Seq<(K, u128)>) -> bool {
    forall|i: int, j: int| 0 <= i < j < s.len() ==> s[i].0 != s[j].0
}

pub open spec fn values_nonzero<K>(s: Seq<(K, u128)>) -> bool {
    forall|i: int| 0 <= i < s.len() ==> s[i].1 > 0
}

pub open spec fn has_key<K>(s: Seq<(K, u128)>, k: K) -> bool {
    exists|i: int| 0 <= i < s.len() && s[i].0 == k
}

pub proof fn lemma_value_absent<K>(s: Seq<(K, u128)>, k: K)
    requires
        forall|i: int| 0 <= i < s.len() ==> s[i].0 != k,
    ensures
        value_at(s, k) == 0,
    decreases s.len(),
{
    if s.len() > 0 {
        lemma_value_absent(s.drop_last(), k);
    }
}

pub proof fn lemma_value_at_index<K>(s: Seq<(K, u128)>, i: int)
    requires
        keys_unique(s),
        0 <= i < s.len(),
    ensures
        value_at(s, s[i].0) == s[i].1,
    decreases s.len(),
{
    let k = s[i].0;
    if i == s.len() - 1 {
        assert forall|j: int| 0 <= j < s.drop_last().len() implies s.drop_last()[j].0 != k by {
            assert(s[j].0 != s[i].0);
        }
        lemma_value_absent(s.drop_last(), k);
    } else {
        lemma_value_at_index(s.drop_last(), i);
        assert(s.last().0 != k);
    }
}

/// Reading a key through a list: the value of its entry, or zero.
pub proof fn lemma_value_found_or_zero<K>(s: Seq<(K, u128)>, k: K)
    requires
        keys_unique(s),
    ensures
        has_key(s, k) ==> exists|i: int| 0 <= i < s.len() && s[i].0 == k && value_at(s, k) == s[i].1,
        !has_key(s, k) ==> value_at(s, k) == 0,
{
    if has_key(s, k) {
        let i = choose|i: int| 0 <= i < s.len() && s[i].0 == k;
        lemma_value_at_index(s, i);
    } else {
        lemma_value_absent(s, k);
    }
}

pub proof fn lemma_value_le_total<K>(s: Seq<(K, u128)>, k: K)
    ensures
        value_at(s, k) <= total(s),
    decreases s.len(),
{
    if s.len() > 0 {
        lemma_value_le_total(s.drop_last(), k);
    }
}

pub proof fn lemma_push<K>(s: Seq<(K, u128)>, e: (K, u128))
    ensures
        total(s.push(e)) == total(s) + e.1,
        forall|k: K| #[trigger] value_at(s.push(e), k) == value_at(s, k) + if e.0 == k {
            e.1 as nat
        } else {
            0
        },
{
    assert(s.push(e).drop_last() =~= s);
}

pub proof fn lemma_insert<K>(s: Seq<(K, u128)>, i: int, e: (K, u128))
    requires
        0 <= i <= s.len(),
    ensures
        total(s.insert(i, e)) == total(s) + e.1,
        forall|k: K| #[trigger] value_at(s.insert(i, e), k) == value_at(s, k) + if e.0 == k {
            e.1 as nat
        } else {
            0
        },
    decreases s.len(),
{
    if i == s.len() {
        assert(s.insert(i, e) =~= s.push(e));
        lemma_push(s, e);
    } else {
        let t = s.insert(i, e);
        lemma_insert(s.drop_last(), i, e);
        assert(t.drop_last() =~= s.drop_last().insert(i, e));
        assert(t.last() == s.last());
        assert forall|k: K| #[trigger] value_at(t, k) == value_at(s, k) + if e.0 == k {
            e.1 as nat
        } else {
            0
        } by {
            assert(value_at(t.drop_last(), k) == value_at(s.drop_last().insert(i, e), k));
        }
    }
}

pub proof fn lemma_remove<K>(s: Seq<(K, u128)>, i: int)
    requires
        0 <= i < s.len(),
    ensures
        total(s.remove(i)) + s[i].1 == total(s),
        forall|k: K| #[trigger] value_at(s.remove(i), k) + (if s[i].0 == k {
            s[i].1 as nat
        } else {
            0
        }) == value_at(s, k),
{
    let r = s.remove(i);
    assert(s =~= r.insert(i, s[i]));
    lemma_insert(r, i, s[i]);
}

pub proof fn lemma_update<K>(s: Seq<(K, u128)>, i: int, v: u128)
    requires
        0 <= i < s.len(),
    ensures
        total(s.update(i, (s[i].0, v))) + s[i].1 == total(s) + v,
        forall|k: K| #[trigger] value_at(s.update(i, (s[i].0, v)), k) + (if s[i].0 == k {
            s[i].1 as nat
        } else {
            0
        }) == value_at(s, k) + if s[i].0 == k {
            v as nat
        } else {
            0
        },
{
    let u = s.update(i, (s[i].0, v));
    assert(u.len() == s.len());
    assert(u.remove(i) =~= s.remove(i));
    lemma_remove(s, i);
    lemma_remove(u, i);
    assert forall|k: K| #[trigger] value_at(u, k) + (if s[i].0 == k {
        s[i].1 as nat
    } else {
        0
    }) == value_at(s, k) + if s[i].0 == k {
        v as nat
    } else {
        0
    } by {
        assert(value_at(u.remove(i), k) == value_at(s.remove(i), k));
    }
}

} // verus!

verus! {

/// Sets the value under `k` to `v`, where `at` is the index of its entry if it
/// has one; a zero value removes the entry.
pub fn keyed_set<K: Copy>(s: &mut Vec<(K, u128)>, at: Option<usize>, k: K, v: u128)
    requires
        keys_unique(old(s)@),
        values_nonzero(old(s)@),
        at matches Some(i) ==> i < old(s)@.len() && old(s)@[i as int].0 == k,
        at is None ==> !has_key(old(s)@, k),
    ensures
        keys_unique(final(s)@),
        values_nonzero(final(s)@),
        value_at(final(s)@, k) == v,
        forall|q: K| q != k ==> #[trigger] value_at(final(s)@, q) == value_at(old(s)@, q),
        total(final(s)@) + value_at(old(s)@, k) == total(old(s)@) + v,
        at is None && v > 0 ==> final(s)@ == old(s)@.push((k, v)),
        at is None && v == 0 ==> final(s)@ == old(s)@,
        at is Some && v == 0 ==> final(s)@ == old(s)@.remove(at->0 as int),
{
    match at {
        Some(i) => {
            proof {
                lemma_value_at_index(s@, i as int);
            }
            if v > 0 {
                proof {
                    lemma_update(s@, i as int, v);
                }
                s.set(i, (k, v));
                assert(s@ =~= old(s)@.update(i as int, (k, v)));
                assert forall|q: K| q != k implies #[trigger] value_at(s@, q) == value_at(
                    old(s)@,
                    q,
                ) by {
                    assert(value_at(s@, q) + 0 == value_at(old(s)@, q) + 0);
                }
                assert forall|a: int, b: int| 0 <= a < b < s@.len() implies s@[a].0 != s@[b].0 by {
                    assert(old(s)@[a].0 != old(s)@[b].0);
                }
            } else {
                proof {
                    lemma_remove(s@, i as int);
                    let t = s@;
                    let r = t.remove(i as int);
                    assert forall|a: int, b: int| 0 <= a < b < r.len() implies r[a].0 != r[b].0 by {
                        let a2 = if a < i { a } else { a + 1 };
                        let b2 = if b < i { b } else { b + 1 };
                        assert(r[a] == t[a2] && r[b] == t[b2]);
                    }
                    assert forall|j: int| 0 <= j < r.len() implies r[j].0 != k && r[j].1 > 0 by {
                        let j2 = if j < i { j } else { j + 1 };
                        assert(r[j] == t[j2]);
                    }
                    lemma_value_absent(r, k);
                }
                s.remove(i);
            }
        },
        None => {
            proof {
                lemma_value_absent(s@, k);
            }
            if v > 0 {
                proof {
                    lemma_push(s@, (k, v));
                    assert forall|j: int| 0 <= j < s@.len() implies s@[j].0 != k by {
                        if s@[j].0 == k {
                            assert(has_key(s@, k));
                        }
                    }
                }
                s.push((k, v));
            }
        },
    }
}

} // verus!
