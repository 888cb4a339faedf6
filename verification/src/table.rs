//! Rows that are found, replaced and removed by a key.
use vstd::prelude::*;

verus! {

/// A row that answers to a key.
pub trait Row<K>: Sized {
    /// Whether the row has the key.
    spec fn has_key(self, key: K) -> bool;

    /// Whether the row has the key.
    fn is_key(&self, key: &K) -> (r: bool)
        ensures
            r == self.has_key(*key),
    ;
}

/// The first row with a key.
pub open spec fn found<K, T: Row<K>>(s: Seq<T>, key: K) -> Option<int>
    decreases s.len(),
{
    if s.len() == 0 {
        None
    } else {
        match found(s.drop_last(), key) {
            Some(i) => Some(i),
            None => if s.last().has_key(key) {
                Some(s.len() - 1)
            } else {
                None
            },
        }
    }
}

/// The first row with a key has it, and none before it does; where there is none, no row
/// has it.
pub proof fn lemma_found<K, T: Row<K>>(s: Seq<T>, key: K)
    ensures
        match found(s, key) {
            Some(i) => 0 <= i < s.len() && s[i].has_key(key) && forall|j: int|
                0 <= j < i ==> !(#[trigger] s[j]).has_key(key),
            None => forall|j: int| 0 <= j < s.len() ==> !(#[trigger] s[j]).has_key(key),
        },
    decreases s.len(),
{
    if s.len() > 0 {
        lemma_found(s.drop_last(), key);
        assert forall|j: int| 0 <= j < s.len() - 1 implies s.drop_last()[j] == #[trigger] s[j] by {}
        match found(s.drop_last(), key) {
            Some(i) => {
                assert(s[i] == s.drop_last()[i]);
            },
            None => {
                assert forall|j: int| 0 <= j < s.len() - 1 implies !(#[trigger] s[j]).has_key(
                    key,
                ) by {
                    assert(s.drop_last()[j] == s[j]);
                }
            },
        }
    }
}

/// A row that has a key, and that none before it has, is the first with it.
pub proof fn lemma_is_found<K, T: Row<K>>(s: Seq<T>, key: K, i: int)
    requires
        0 <= i < s.len(),
        s[i].has_key(key),
        forall|j: int| 0 <= j < i ==> !(#[trigger] s[j]).has_key(key),
    ensures
        found(s, key) == Some(i),
{
    lemma_found(s, key);
    match found(s, key) {
        Some(k) => {
            if k < i {
                assert(!s[k].has_key(key));
            } else if i < k {
                assert(!s[i].has_key(key));
            }
        },
        None => {
            assert(!s[i].has_key(key));
        },
    }
}

/// The first row with a key.
pub fn find<K, T: Row<K>>(v: &Vec<T>, key: &K) -> (r: Option<usize>)
    ensures
        match r {
            Some(i) => i < v@.len() && found(v@, *key) == Some(i as int) && v@[i as int].has_key(
                *key,
            ),
            None => found(v@, *key) is None,
        },
{
    let n: usize = v.len();
    let mut i: usize = 0;
    while i < n
        invariant
            i <= n,
            n == v@.len(),
            forall|j: int| 0 <= j < i ==> !(#[trigger] v@[j]).has_key(*key),
        decreases n - i,
    {
        if v[i].is_key(key) {
            proof {
                lemma_is_found(v@, *key, i as int);
            }
            return Some(i);
        }
        i = i + 1;
    }
    proof {
        lemma_found(v@, *key);
    }
    None
}

/// The rows with one in the place of the first that has its key, else at the end.
pub open spec fn upserted<K, T: Row<K>>(s: Seq<T>, key: K, row: T) -> Seq<T> {
    match found(s, key) {
        Some(i) => s.update(i, row),
        None => s.push(row),
    }
}

/// Puts a row in the place of the first that has its key, else at the end.
pub fn upsert<K, T: Row<K>>(v: &mut Vec<T>, key: &K, row: T)
    ensures
        final(v)@ == upserted(old(v)@, *key, row),
{
    match find(v, key) {
        Some(i) => {
            v.set(i, row);
        },
        None => {
            v.push(row);
        },
    }
}

/// The row that was put is the one that is found.
pub proof fn law_upserted_is_found<K, T: Row<K>>(s: Seq<T>, key: K, row: T)
    requires
        row.has_key(key),
    ensures
        found(upserted(s, key, row), key) matches Some(i) && upserted(s, key, row)[i] == row,
{
    let t = upserted(s, key, row);
    lemma_found(s, key);
    match found(s, key) {
        Some(i) => {
            assert forall|j: int| 0 <= j < i implies !(#[trigger] t[j]).has_key(key) by {
                assert(t[j] == s[j]);
            }
            lemma_is_found(t, key, i);
        },
        None => {
            assert forall|j: int| 0 <= j < s.len() implies !(#[trigger] t[j]).has_key(key) by {
                assert(t[j] == s[j]);
            }
            lemma_is_found(t, key, s.len() as int);
        },
    }
}

/// To put a row leaves what is found under another key as it was.
pub proof fn law_upsert_keeps_others<K, T: Row<K>>(s: Seq<T>, key: K, row: T, other: K)
    requires
        !row.has_key(other),
        forall|i: int|
            0 <= i < s.len() && (#[trigger] s[i]).has_key(key) ==> !s[i].has_key(other),
    ensures
        found(upserted(s, key, row), other) == found(s, other),
        found(s, other) matches Some(i) ==> upserted(s, key, row)[i] == s[i],
{
    let t = upserted(s, key, row);
    lemma_found(s, key);
    lemma_found(s, other);
    match found(s, other) {
        Some(i) => {
            assert forall|j: int| 0 <= j < i implies !(#[trigger] t[j]).has_key(other) by {
                if t[j] != row {
                    assert(t[j] == s[j]);
                }
            }
            lemma_is_found(t, other, i);
        },
        None => {
            lemma_found(t, other);
            if found(t, other) is Some {
                let k = found(t, other)->0;
                if t[k] != row {
                    assert(t[k] == s[k]);
                }
            }
        },
    }
}

/// The rows that do not have a key, in their order.
pub open spec fn without<K, T: Row<K>>(s: Seq<T>, key: K) -> Seq<T>
    decreases s.len(),
{
    if s.len() == 0 {
        s
    } else if s.last().has_key(key) {
        without(s.drop_last(), key)
    } else {
        without(s.drop_last(), key).push(s.last())
    }
}

/// Removes the rows that have a key.
pub fn remove<K, T: Row<K>>(v: &mut Vec<T>, key: &K)
    ensures
        final(v)@ == without(old(v)@, *key),
{
    let ghost all = v@;
    let mut kept: Vec<T> = Vec::new();
    let ghost mut done: int = 0;
    proof {
        assert(all.take(0) =~= Seq::<T>::empty());
        assert(all.skip(0) =~= all);
    }
    while v.len() > 0
        invariant
            0 <= done <= all.len(),
            v@ == all.skip(done),
            kept@ == without(all.take(done), *key),
        decreases v@.len(),
    {
        proof {
            assert(all.take(done + 1).drop_last() =~= all.take(done));
            assert(all.take(done + 1).last() == all[done]);
            assert(all.skip(done).remove(0) =~= all.skip(done + 1));
        }
        let row = v.remove(0);
        if !row.is_key(key) {
            kept.push(row);
        }
        proof {
            done = done + 1;
        }
    }
    proof {
        assert(all.take(all.len() as int) =~= all);
    }
    *v = kept;
}

/// What was removed is no longer found, and a row with another key still is.
pub proof fn law_removed_is_not_found<K, T: Row<K>>(s: Seq<T>, key: K)
    ensures
        found(without(s, key), key) is None,
        forall|i: int|
            0 <= i < without(s, key).len() ==> s.contains(#[trigger] without(s, key)[i]),
        forall|i: int|
            0 <= i < s.len() && !s[i].has_key(key) ==> without(s, key).contains(#[trigger] s[i]),
    decreases s.len(),
{
    if s.len() > 0 {
        let init = s.drop_last();
        law_removed_is_not_found(init, key);
        let w = without(s, key);
        let w0 = without(init, key);
        lemma_found(w0, key);
        lemma_found(w, key);
        assert forall|i: int| 0 <= i < w.len() implies s.contains(#[trigger] w[i]) by {
            if i < w0.len() {
                assert(w[i] == w0[i]);
                let k = choose|k: int| 0 <= k < init.len() && init[k] == w0[i];
                assert(s[k] == w0[i]);
            } else {
                assert(s[s.len() - 1] == w[i]);
            }
        }
        assert forall|i: int| 0 <= i < s.len() && !s[i].has_key(key) implies w.contains(
            #[trigger] s[i],
        ) by {
            if i < init.len() {
                assert(init[i] == s[i]);
                let k = choose|k: int| 0 <= k < w0.len() && w0[k] == init[i];
                assert(w[k] == s[i]);
            } else {
                assert(w[w.len() - 1] == s[i]);
            }
        }
        if found(w, key) is Some {
            let k = found(w, key)->0;
            if k < w0.len() {
                assert(w0[k] == w[k]);
            }
        }
    }
}

} // verus!
