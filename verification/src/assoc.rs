//! Association sequences: the spec-level view of a vector of key-value
//! pairs whose keys are pairwise distinct, together with the lemmas that
//! the session store and the completion index share.

use vstd::prelude::*;

verus! {

/// The value stored under `k`, scanning the entries from the front.
pub open spec fn find_key<K, V>(s: Seq<(K, V)>, k: K) -> Option<V>
    decreases s.len(),
{
    if s.len() == 0 {
        None
    } else if s[0].0 == k {
        Some(s[0].1)
    } else {
        find_key(s.drop_first(), k)
    }
}

/// No key stands under two entries.
pub open spec fn unique_keys<K, V>(s: Seq<(K, V)>) -> bool {
    forall|i: int, j: int| 0 <= i < j < s.len() ==> s[i].0 != s[j].0
}

/// `find_key` misses exactly when no entry carries the key.
pub proof fn lemma_find_key_none<K, V>(s: Seq<(K, V)>, k: K)
    ensures
        find_key(s, k) is None <==> (forall|i: int| 0 <= i < s.len() ==> s[i].0 != k),
    decreases s.len(),
{
    if s.len() > 0 {
        lemma_find_key_none(s.drop_first(), k);
        assert(forall|i: int| 1 <= i < s.len() ==> s[i] == s.drop_first()[i - 1]);
    }
}

/// When keys are unique, the entry at any index is the one `find_key` returns.
pub proof fn lemma_find_key_at<K, V>(s: Seq<(K, V)>, i: int, k: K)
    requires
        unique_keys(s),
        0 <= i < s.len(),
        s[i].0 == k,
    ensures
        find_key(s, k) == Some(s[i].1),
    decreases i,
{
    if i > 0 {
        assert(unique_keys(s.drop_first())) by {
            assert(forall|m: int| 0 <= m < s.len() - 1 ==> s.drop_first()[m] == s[m + 1]);
        }
        lemma_find_key_at(s.drop_first(), i - 1, k);
    }
}

/// Appending an entry changes only what `find_key` says of its key, and
/// only when that key was absent.
pub proof fn lemma_find_key_push<K, V>(s: Seq<(K, V)>, k2: K, v2: V, k: K)
    ensures
        find_key(s.push((k2, v2)), k) == (if find_key(s, k) is Some {
            find_key(s, k)
        } else if k == k2 {
            Some(v2)
        } else {
            None::<V>
        }),
    decreases s.len(),
{
    if s.len() == 0 {
        assert(s.push((k2, v2))[0] == (k2, v2));
        if k != k2 {
            assert(s.push((k2, v2)).drop_first().len() == 0);
        }
    } else {
        assert(s.push((k2, v2))[0] == s[0]);
        if s[0].0 != k {
            assert(s.push((k2, v2)).drop_first() =~= s.drop_first().push((k2, v2)));
            lemma_find_key_push(s.drop_first(), k2, v2, k);
        }
    }
}

/// Removing the entry at `i` clears its key and leaves every other key as
/// it was; distinctness of the keys is kept.
pub proof fn lemma_find_key_remove<K, V>(s: Seq<(K, V)>, i: int, k: K)
    requires
        unique_keys(s),
        0 <= i < s.len(),
    ensures
        unique_keys(s.remove(i)),
        find_key(s.remove(i), k) == (if s[i].0 == k {
            None::<V>
        } else {
            find_key(s, k)
        }),
    decreases i,
{
    assert(unique_keys(s.remove(i))) by {
        assert(forall|m: int| 0 <= m < s.len() - 1 ==> s.remove(i)[m] == (if m < i {
            s[m]
        } else {
            s[m + 1]
        }));
    }
    if i == 0 {
        assert(s.remove(0) =~= s.drop_first());
        if s[0].0 == k {
            lemma_find_key_none(s.drop_first(), k);
            assert(forall|m: int| 0 <= m < s.len() - 1 ==> s.drop_first()[m] == s[m + 1]);
        }
    } else {
        assert(s.remove(i)[0] == s[0]);
        if s[0].0 != k {
            assert(unique_keys(s.drop_first())) by {
                assert(forall|m: int| 0 <= m < s.len() - 1 ==> s.drop_first()[m] == s[m + 1]);
            }
            assert(s.remove(i).drop_first() =~= s.drop_first().remove(i - 1));
            lemma_find_key_remove(s.drop_first(), i - 1, k);
        } else {
            assert(s.remove(i)[0].0 == k);
        }
    }
}

/// Appending an entry under a fresh key keeps the keys distinct.
pub proof fn lemma_unique_keys_push<K, V>(s: Seq<(K, V)>, k: K, v: V)
    requires
        unique_keys(s),
        forall|i: int| 0 <= i < s.len() ==> s[i].0 != k,
    ensures
        unique_keys(s.push((k, v))),
{
    let t = s.push((k, v));
    assert forall|i: int, j: int| 0 <= i < j < t.len() implies t[i].0 != t[j].0 by {
        if j < s.len() {
            assert(t[i] == s[i] && t[j] == s[j]);
        } else {
            assert(t[i] == s[i] && t[j] == (k, v));
        }
    }
}

/// How many entries carry the key `k`.
pub open spec fn count_key<K, V>(s: Seq<(K, V)>, k: K) -> nat
    decreases s.len(),
{
    if s.len() == 0 {
        0
    } else {
        (if s[0].0 == k {
            1nat
        } else {
            0nat
        }) + count_key(s.drop_first(), k)
    }
}

/// A key that no entry carries is counted zero times.
pub proof fn lemma_count_key_absent<K, V>(s: Seq<(K, V)>, k: K)
    requires
        forall|i: int| 0 <= i < s.len() ==> s[i].0 != k,
    ensures
        count_key(s, k) == 0,
    decreases s.len(),
{
    if s.len() > 0 {
        assert(forall|i: int| 0 <= i < s.len() - 1 ==> s.drop_first()[i] == s[i + 1]);
        lemma_count_key_absent(s.drop_first(), k);
    }
}

/// With pairwise-distinct keys, no key is counted more than once.
pub proof fn lemma_count_key_unique<K, V>(s: Seq<(K, V)>, k: K)
    requires
        unique_keys(s),
    ensures
        count_key(s, k) <= 1,
    decreases s.len(),
{
    if s.len() > 0 {
        assert(forall|i: int| 0 <= i < s.len() - 1 ==> s.drop_first()[i] == s[i + 1]);
        if s[0].0 == k {
            lemma_count_key_absent(s.drop_first(), k);
        } else {
            lemma_count_key_unique(s.drop_first(), k);
        }
    }
}

/// Replacing the value under the entry at `i` (remove it, then append the
/// key with the new value) changes only what `find_key` says of that key.
pub proof fn lemma_replace_entry<K, V>(s: Seq<(K, V)>, i: int, v2: V, t: K)
    requires
        unique_keys(s),
        0 <= i < s.len(),
    ensures
        unique_keys(s.remove(i).push((s[i].0, v2))),
        find_key(s.remove(i).push((s[i].0, v2)), t) == (if t == s[i].0 {
            Some(v2)
        } else {
            find_key(s, t)
        }),
{
    let k = s[i].0;
    lemma_find_key_remove(s, i, t);
    lemma_find_key_remove(s, i, k);
    lemma_find_key_none(s.remove(i), k);
    lemma_unique_keys_push(s.remove(i), k, v2);
    lemma_find_key_push(s.remove(i), k, v2, t);
    if t != k && find_key(s, t) is None {
        lemma_find_key_none(s, t);
    }
}

/// Finds the position of `k` among the entries of a vector keyed by `u64`.
pub fn find_index<V>(v: &Vec<(u64, V)>, k: u64) -> (r: Option<usize>)
    ensures
        match r {
            Some(i) => i < v@.len() && v@[i as int].0 == k,
            None => forall|i: int| 0 <= i < v@.len() ==> v@[i].0 != k,
        },
{
    let mut i: usize = 0;
    while i < v.len()
        invariant
            i <= v@.len(),
            forall|j: int| 0 <= j < i ==> v@[j].0 != k,
        decreases v@.len() - i,
    {
        if v[i].0 == k {
            return Some(i);
        }
        i += 1;
    }
    None
}

} // verus!
