//! A specification library for association lists.
//!
//! Each contract keeps its secondary indexes as vectors of key/value pairs.
//! [`assoc_get`] is the mathematical reading of such a vector: the value of
//! the first pair whose key matches.  The lemmas below are the facts the
//! index operations need: scanning past non-matching prefixes, appending a
//! fresh key, and replacing the value of the first match in place.

use vstd::prelude::*;

verus! {

/// The value bound to `k`: the second component of the first pair whose
/// first component equals `k`, if any.
pub open spec fn assoc_get<K, V>(s: Seq<(K, V)>, k: K) -> Option<V>
    decreases s.len(),
{
    if s.len() == 0 {
        None
    } else if s[0].0 == k {
        Some(s[0].1)
    } else {
        assoc_get(s.drop_first(), k)
    }
}

/// No key occurs twice.
pub open spec fn keys_unique<K, V>(s: Seq<(K, V)>) -> bool {
    forall|i: int, j: int| 0 <= i < j < s.len() ==> s[i].0 != s[j].0
}

/// A prefix free of `k` does not affect the lookup of `k`.
pub proof fn lemma_assoc_get_skip<K, V>(s: Seq<(K, V)>, k: K, i: int)
    requires
        0 <= i <= s.len(),
        forall|j: int| 0 <= j < i ==> s[j].0 != k,
    ensures
        assoc_get(s, k) == assoc_get(s.skip(i), k),
    decreases i,
{
    if i == 0 {
        assert(s.skip(0) =~= s);
    } else {
        lemma_assoc_get_skip(s, k, i - 1);
        assert(s.skip(i - 1).drop_first() =~= s.skip(i));
    }
}

/// If no pair carries `k`, the lookup of `k` misses.
pub proof fn lemma_assoc_get_none<K, V>(s: Seq<(K, V)>, k: K)
    requires
        forall|j: int| 0 <= j < s.len() ==> s[j].0 != k,
    ensures
        assoc_get(s, k) is None,
{
    lemma_assoc_get_skip(s, k, s.len() as int);
    assert(s.skip(s.len() as int) =~= Seq::<(K, V)>::empty());
}

/// Appending a pair only affects lookups of keys the list missed.
pub proof fn lemma_assoc_get_push<K, V>(s: Seq<(K, V)>, k: K, v: V, k2: K)
    ensures
        assoc_get(s.push((k, v)), k2) == (if assoc_get(s, k2) is Some {
            assoc_get(s, k2)
        } else if k2 == k {
            Some(v)
        } else {
            None
        }),
    decreases s.len(),
{
    let s2 = s.push((k, v));
    if s.len() == 0 {
        assert(s2[0] == (k, v));
        assert(s2.drop_first() =~= Seq::<(K, V)>::empty());
        if k2 == k {
            assert(assoc_get(s2, k2) == Some(v));
        } else {
            assert(assoc_get(s2, k2) == assoc_get(s2.drop_first(), k2));
        }
    } else {
        assert(s2[0] == s[0]);
        assert(s2.drop_first() =~= s.drop_first().push((k, v)));
        lemma_assoc_get_push(s.drop_first(), k, v, k2);
        if s[0].0 == k2 {
            assert(assoc_get(s2, k2) == Some(s[0].1));
            assert(assoc_get(s, k2) == Some(s[0].1));
        } else {
            assert(assoc_get(s2, k2) == assoc_get(s2.drop_first(), k2));
            assert(assoc_get(s, k2) == assoc_get(s.drop_first(), k2));
        }
    }
}

/// Replacing the value of the first pair that carries `k` rebinds `k` and
/// leaves every other key's lookup alone.
pub proof fn lemma_assoc_get_update<K, V>(s: Seq<(K, V)>, i: int, v: V, k2: K)
    requires
        0 <= i < s.len(),
        forall|j: int| 0 <= j < i ==> s[j].0 != s[i].0,
    ensures
        assoc_get(s.update(i, (s[i].0, v)), k2) == (if k2 == s[i].0 {
            Some(v)
        } else {
            assoc_get(s, k2)
        }),
    decreases i,
{
    let k = s[i].0;
    let s2 = s.update(i, (k, v));
    if i == 0 {
        assert(s2[0] == (k, v));
        if k2 != k {
            assert(s2.drop_first() =~= s.drop_first());
        }
    } else {
        assert(s2[0] == s[0]);
        if k2 == s[0].0 {
        } else {
            assert(s2.drop_first() =~= s.drop_first().update(i - 1, (s.drop_first()[i - 1].0, v)));
            lemma_assoc_get_update(s.drop_first(), i - 1, v, k2);
        }
    }
}

/// The value bound to the key whose view is `k`, for keys compared by view:
/// the second component of the first pair whose first component's view
/// equals `k`, if any.  String-keyed indexes use this reading, because two
/// strings are interchangeable exactly when their character sequences are.
pub open spec fn assoc_get_v<K: View, V>(s: Seq<(K, V)>, k: K::V) -> Option<V>
    decreases s.len(),
{
    if s.len() == 0 {
        None
    } else if s[0].0@ == k {
        Some(s[0].1)
    } else {
        assoc_get_v(s.drop_first(), k)
    }
}

/// No two keys share a view.
pub open spec fn keys_unique_v<K: View, V>(s: Seq<(K, V)>) -> bool {
    forall|i: int, j: int| 0 <= i < j < s.len() ==> s[i].0@ != s[j].0@
}

/// A prefix free of `k` does not affect the lookup of `k`.
pub proof fn lemma_assoc_get_v_skip<K: View, V>(s: Seq<(K, V)>, k: K::V, i: int)
    requires
        0 <= i <= s.len(),
        forall|j: int| 0 <= j < i ==> s[j].0@ != k,
    ensures
        assoc_get_v(s, k) == assoc_get_v(s.skip(i), k),
    decreases i,
{
    if i == 0 {
        assert(s.skip(0) =~= s);
    } else {
        lemma_assoc_get_v_skip(s, k, i - 1);
        assert(s.skip(i - 1).drop_first() =~= s.skip(i));
    }
}

/// If no pair carries a key with view `k`, the lookup of `k` misses.
pub proof fn lemma_assoc_get_v_none<K: View, V>(s: Seq<(K, V)>, k: K::V)
    requires
        forall|j: int| 0 <= j < s.len() ==> s[j].0@ != k,
    ensures
        assoc_get_v(s, k) is None,
{
    lemma_assoc_get_v_skip(s, k, s.len() as int);
    assert(s.skip(s.len() as int) =~= Seq::<(K, V)>::empty());
}

/// Appending a pair only affects lookups of key views the list missed.
pub proof fn lemma_assoc_get_v_push<K: View, V>(s: Seq<(K, V)>, k: K, v: V, k2: K::V)
    ensures
        assoc_get_v(s.push((k, v)), k2) == (if assoc_get_v(s, k2) is Some {
            assoc_get_v(s, k2)
        } else if k2 == k@ {
            Some(v)
        } else {
            None
        }),
    decreases s.len(),
{
    let s2 = s.push((k, v));
    if s.len() == 0 {
        assert(s2[0] == (k, v));
        assert(s2.drop_first() =~= Seq::<(K, V)>::empty());
        if k2 == k@ {
            assert(assoc_get_v(s2, k2) == Some(v));
        } else {
            assert(assoc_get_v(s2, k2) == assoc_get_v(s2.drop_first(), k2));
        }
    } else {
        assert(s2[0] == s[0]);
        assert(s2.drop_first() =~= s.drop_first().push((k, v)));
        lemma_assoc_get_v_push(s.drop_first(), k, v, k2);
        if s[0].0@ == k2 {
            assert(assoc_get_v(s2, k2) == Some(s[0].1));
            assert(assoc_get_v(s, k2) == Some(s[0].1));
        } else {
            assert(assoc_get_v(s2, k2) == assoc_get_v(s2.drop_first(), k2));
            assert(assoc_get_v(s, k2) == assoc_get_v(s.drop_first(), k2));
        }
    }
}

/// Replacing the first pair whose key view is `s[i].0@` rebinds that view
/// and leaves every other view's lookup alone.  The replacement key may be
/// another value with the same view.
pub proof fn lemma_assoc_get_v_update<K: View, V>(s: Seq<(K, V)>, i: int, k: K, v: V, k2: K::V)
    requires
        0 <= i < s.len(),
        k@ == s[i].0@,
        forall|j: int| 0 <= j < i ==> s[j].0@ != s[i].0@,
    ensures
        assoc_get_v(s.update(i, (k, v)), k2) == (if k2 == s[i].0@ {
            Some(v)
        } else {
            assoc_get_v(s, k2)
        }),
    decreases i,
{
    let s2 = s.update(i, (k, v));
    if i == 0 {
        assert(s2[0] == (k, v));
        if k2 != s[0].0@ {
            assert(s2.drop_first() =~= s.drop_first());
        }
    } else {
        assert(s2[0] == s[0]);
        if k2 == s[0].0@ {
        } else {
            assert(s2.drop_first() =~= s.drop_first().update(i - 1, (k, v)));
            lemma_assoc_get_v_update(s.drop_first(), i - 1, k, v, k2);
        }
    }
}



} // verus!
