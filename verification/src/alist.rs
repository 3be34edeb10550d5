//! The mathematical model shared by every map in this crate: an association
//! list, a sequence of key/value pairs in which the first pair with a given
//! key decides that key's value.

use vstd::prelude::*;

verus! {

/// The value bound to `k`: that of the first pair whose key is `k`, if any.
pub open spec fn alist_get<K, V>(s: Seq<(K, V)>, k: K) -> Option<V>
    decreases s.len(),
{
    if s.len() == 0 {
        None
    } else if s[0].0 == k {
        Some(s[0].1)
    } else {
        alist_get(s.skip(1), k)
    }
}

/// The list with every pair whose key is `k` dropped.
pub open spec fn alist_drop_key<K, V>(s: Seq<(K, V)>, k: K) -> Seq<(K, V)>
    decreases s.len(),
{
    if s.len() == 0 {
        s
    } else if s[0].0 == k {
        alist_drop_key(s.skip(1), k)
    } else {
        seq![s[0]] + alist_drop_key(s.skip(1), k)
    }
}

/// The list with `k` bound to `v`: the first pair bearing `k` is replaced,
/// or the binding is appended when no pair bears it.
pub open spec fn alist_put<K, V>(s: Seq<(K, V)>, k: K, v: V) -> Seq<(K, V)>
    decreases s.len(),
{
    if s.len() == 0 {
        seq![(k, v)]
    } else if s[0].0 == k {
        seq![(k, v)] + s.skip(1)
    } else {
        seq![s[0]] + alist_put(s.skip(1), k, v)
    }
}

/// Putting a key held by the first matching pair at `i` is the update at
/// `i`.
pub proof fn lemma_alist_put_update<K, V>(s: Seq<(K, V)>, k: K, v: V, i: int)
    requires
        0 <= i < s.len(),
        s[i].0 == k,
        forall|j: int| 0 <= j < i ==> s[j].0 != k,
    ensures
        alist_put(s, k, v) == s.update(i, (k, v)),
    decreases i,
{
    if i == 0 {
        assert(alist_put(s, k, v) =~= s.update(0, (k, v)));
    } else {
        lemma_alist_put_update(s.skip(1), k, v, i - 1);
        assert(seq![s[0]] + s.skip(1).update(i - 1, (k, v)) =~= s.update(i, (k, v)));
    }
}

/// Putting a key no pair bears appends the binding.
pub proof fn lemma_alist_put_push<K, V>(s: Seq<(K, V)>, k: K, v: V)
    requires
        forall|j: int| 0 <= j < s.len() ==> s[j].0 != k,
    ensures
        alist_put(s, k, v) == s.push((k, v)),
    decreases s.len(),
{
    if s.len() == 0 {
        assert(alist_put(s, k, v) =~= s.push((k, v)));
    } else {
        lemma_alist_put_push(s.skip(1), k, v);
        assert(seq![s[0]] + s.skip(1).push((k, v)) =~= s.push((k, v)));
    }
}

/// A key bound by no pair resolves to nothing.
pub proof fn lemma_alist_get_none<K, V>(s: Seq<(K, V)>, k: K)
    requires
        forall|j: int| 0 <= j < s.len() ==> s[j].0 != k,
    ensures
        alist_get(s, k) is None,
    decreases s.len(),
{
    if s.len() > 0 {
        lemma_alist_get_none(s.skip(1), k);
    }
}

/// The first pair with key `k` decides `alist_get`.
pub proof fn lemma_alist_get_first_match<K, V>(s: Seq<(K, V)>, k: K, i: int)
    requires
        0 <= i < s.len(),
        s[i].0 == k,
        forall|j: int| 0 <= j < i ==> s[j].0 != k,
    ensures
        alist_get(s, k) == Some(s[i].1),
    decreases i,
{
    if i > 0 {
        lemma_alist_get_first_match(s.skip(1), k, i - 1);
    }
}

/// Appending a pair binds its key only where the key was unbound before.
pub proof fn lemma_alist_get_push<K, V>(s: Seq<(K, V)>, p: (K, V), k: K)
    ensures
        alist_get(s.push(p), k) == (match alist_get(s, k) {
            Some(v) => Some(v),
            None => if p.0 == k {
                Some(p.1)
            } else {
                None
            },
        }),
    decreases s.len(),
{
    if s.len() == 0 {
        assert(s.push(p)[0] == p);
        assert(alist_get(s, k) is None);
        if p.0 != k {
            assert(s.push(p).skip(1) =~= Seq::<(K, V)>::empty());
            assert(alist_get(s.push(p), k) == alist_get(s.push(p).skip(1), k));
            assert(alist_get(s.push(p), k) is None);
        } else {
            assert(alist_get(s.push(p), k) == Some(p.1));
        }
    } else {
        assert(s.push(p)[0] == s[0]);
        assert(s.push(p).skip(1) =~= s.skip(1).push(p));
        lemma_alist_get_push(s.skip(1), p, k);
        if s[0].0 == k {
            assert(alist_get(s, k) == Some(s[0].1));
            assert(alist_get(s.push(p), k) == Some(s.push(p)[0].1));
        } else {
            assert(alist_get(s.push(p), k) == alist_get(s.skip(1).push(p), k));
            assert(alist_get(s, k) == alist_get(s.skip(1), k));
        }
    }
}

/// Overwriting the first pair that bears a key rebinds that key and no
/// other.
pub proof fn lemma_alist_get_update<K, V>(s: Seq<(K, V)>, i: int, p: (K, V), k: K)
    requires
        0 <= i < s.len(),
        s[i].0 == p.0,
        forall|j: int| 0 <= j < i ==> s[j].0 != p.0,
    ensures
        alist_get(s.update(i, p), k) == (if k == p.0 {
            Some(p.1)
        } else {
            alist_get(s, k)
        }),
    decreases i,
{
    let t = s.update(i, p);
    if i == 0 {
        assert(t[0] == p);
        assert(t.skip(1) =~= s.skip(1));
    } else {
        assert(t[0] == s[0]);
        assert(t.skip(1) =~= s.skip(1).update(i - 1, p));
        lemma_alist_get_update(s.skip(1), i - 1, p, k);
    }
}

/// Dropping a key unbinds it and leaves every other key bound as before.
pub proof fn lemma_alist_drop_key_get<K, V>(s: Seq<(K, V)>, k: K, k2: K)
    ensures
        alist_get(alist_drop_key(s, k), k2) == (if k2 == k {
            None::<V>
        } else {
            alist_get(s, k2)
        }),
    decreases s.len(),
{
    if s.len() == 0 {
        if k2 == k {
            lemma_alist_get_none(alist_drop_key(s, k), k2);
        }
    } else {
        lemma_alist_drop_key_get(s.skip(1), k, k2);
        if s[0].0 == k {
        } else {
            let t = seq![s[0]] + alist_drop_key(s.skip(1), k);
            assert(t[0] == s[0]);
            assert(t.skip(1) =~= alist_drop_key(s.skip(1), k));
        }
    }
}

/// Extending a list on the right drops a key from the extension pointwise.
pub proof fn lemma_alist_drop_key_push<K, V>(s: Seq<(K, V)>, p: (K, V), k: K)
    ensures
        alist_drop_key(s.push(p), k) == (if p.0 == k {
            alist_drop_key(s, k)
        } else {
            alist_drop_key(s, k).push(p)
        }),
    decreases s.len(),
{
    if s.len() == 0 {
        assert(s.push(p)[0] == p);
        assert(s.push(p).skip(1) =~= Seq::<(K, V)>::empty());
        if p.0 != k {
            assert(alist_drop_key(s, k).push(p) =~= seq![p] + alist_drop_key(
                Seq::<(K, V)>::empty(),
                k,
            ));
        }
    } else {
        assert(s.push(p)[0] == s[0]);
        assert(s.push(p).skip(1) =~= s.skip(1).push(p));
        lemma_alist_drop_key_push(s.skip(1), p, k);
        if s[0].0 != k {
            if p.0 != k {
                assert(seq![s[0]] + alist_drop_key(s.skip(1), k).push(p) =~= (seq![s[0]]
                    + alist_drop_key(s.skip(1), k)).push(p));
            }
        }
    }
}

} // verus!
