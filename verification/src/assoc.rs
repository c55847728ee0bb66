//! Association lists: sequences of key/value pairs with distinct keys, read
//! as finite maps. The grid index and the skill tables are stored this way.
use vstd::prelude::*;

verus! {

/// No key occurs twice.
pub open spec fn keys_unique<K, V>(s: Seq<(K, V)>) -> bool {
    forall|i: int, j: int| 0 <= i < s.len() && 0 <= j < s.len() && i != j ==> s[i].0 != s[j].0
}

/// Some entry carries the key `k`.
pub open spec fn has_key<K, V>(s: Seq<(K, V)>, k: K) -> bool {
    exists|i: int| 0 <= i < s.len() && s[i].0 == k
}

/// The position of the entry that carries `k` (meaningful when there is one).
pub open spec fn key_index<K, V>(s: Seq<(K, V)>, k: K) -> int {
    choose|i: int| 0 <= i < s.len() && s[i].0 == k
}

/// The finite map that an association list stands for.
pub open spec fn assoc_map<K, V>(s: Seq<(K, V)>) -> Map<K, V> {
    Map::new(|k: K| has_key(s, k), |k: K| s[key_index(s, k)].1)
}

pub proof fn lemma_assoc_lookup<K, V>(s: Seq<(K, V)>, i: int)
    requires
        keys_unique(s),
        0 <= i < s.len(),
    ensures
        has_key(s, s[i].0),
        key_index(s, s[i].0) == i,
        assoc_map(s).contains_key(s[i].0),
        assoc_map(s)[s[i].0] == s[i].1,
{
    assert(has_key(s, s[i].0));
}

pub proof fn lemma_assoc_push<K, V>(s: Seq<(K, V)>, k: K, v: V)
    requires
        keys_unique(s),
        !has_key(s, k),
    ensures
        keys_unique(s.push((k, v))),
        assoc_map(s.push((k, v))) == assoc_map(s).insert(k, v),
{
    let t = s.push((k, v));
    assert forall|i: int, j: int| 0 <= i < t.len() && 0 <= j < t.len() && i != j implies t[i].0
        != t[j].0 by {
        if i < s.len() && j < s.len() {
            assert(t[i] == s[i] && t[j] == s[j]);
        } else if i < s.len() {
            assert(t[i] == s[i]);
        } else {
            assert(t[j] == s[j]);
        }
    }
    assert forall|key: K| #[trigger] assoc_map(t).contains_key(key) <==> assoc_map(s).insert(
        k,
        v,
    ).contains_key(key) by {
        if has_key(s, key) {
            let i = key_index(s, key);
            assert(t[i] == s[i]);
        }
        if has_key(t, key) && key != k {
            let i = key_index(t, key);
            assert(i < s.len());
            assert(s[i] == t[i]);
        }
        if key == k {
            assert(t[s.len() as int].0 == k);
        }
    }
    assert forall|key: K| #[trigger] assoc_map(t).contains_key(key) implies assoc_map(t)[key]
        == assoc_map(s).insert(k, v)[key] by {
        let i = key_index(t, key);
        lemma_assoc_lookup(t, i);
        if i < s.len() {
            assert(s[i] == t[i]);
            lemma_assoc_lookup(s, i);
        }
    }
    assert(assoc_map(t) =~= assoc_map(s).insert(k, v));
}

pub proof fn lemma_assoc_update<K, V>(s: Seq<(K, V)>, i: int, v: V)
    requires
        keys_unique(s),
        0 <= i < s.len(),
    ensures
        keys_unique(s.update(i, (s[i].0, v))),
        assoc_map(s.update(i, (s[i].0, v))) == assoc_map(s).insert(s[i].0, v),
{
    let t = s.update(i, (s[i].0, v));
    assert forall|a: int, b: int| 0 <= a < t.len() && 0 <= b < t.len() && a != b implies t[a].0
        != t[b].0 by {
        assert(t[a].0 == s[a].0 && t[b].0 == s[b].0);
    }
    assert forall|key: K| #[trigger] assoc_map(t).contains_key(key) <==> assoc_map(s).insert(
        s[i].0,
        v,
    ).contains_key(key) by {
        if has_key(s, key) {
            let j = key_index(s, key);
            assert(t[j].0 == s[j].0);
        }
        if has_key(t, key) {
            let j = key_index(t, key);
            assert(t[j].0 == s[j].0);
        }
    }
    assert forall|key: K| #[trigger] assoc_map(t).contains_key(key) implies assoc_map(t)[key]
        == assoc_map(s).insert(s[i].0, v)[key] by {
        let j = key_index(t, key);
        lemma_assoc_lookup(t, j);
        if j != i {
            lemma_assoc_lookup(s, j);
        }
    }
    assert(assoc_map(t) =~= assoc_map(s).insert(s[i].0, v));
}

pub proof fn lemma_assoc_remove<K, V>(s: Seq<(K, V)>, i: int)
    requires
        keys_unique(s),
        0 <= i < s.len(),
    ensures
        keys_unique(s.remove(i)),
        assoc_map(s.remove(i)) == assoc_map(s).remove(s[i].0),
{
    let t = s.remove(i);
    assert forall|a: int| 0 <= a < t.len() implies #[trigger] t[a] == (if a < i {
        s[a]
    } else {
        s[a + 1]
    }) by {}
    assert forall|a: int, b: int| 0 <= a < t.len() && 0 <= b < t.len() && a != b implies t[a].0
        != t[b].0 by {
        let sa = if a < i {
            a
        } else {
            a + 1
        };
        let sb = if b < i {
            b
        } else {
            b + 1
        };
        assert(t[a] == s[sa] && t[b] == s[sb]);
    }
    assert forall|key: K| #[trigger] assoc_map(t).contains_key(key) <==> assoc_map(s).remove(
        s[i].0,
    ).contains_key(key) by {
        if has_key(s, key) && key != s[i].0 {
            let j = key_index(s, key);
            if j < i {
                assert(t[j] == s[j]);
            } else {
                assert(t[j - 1] == s[j]);
            }
        }
        if has_key(t, key) {
            let j = key_index(t, key);
            let sj = if j < i {
                j
            } else {
                j + 1
            };
            assert(t[j] == s[sj]);
        }
    }
    assert forall|key: K| #[trigger] assoc_map(t).contains_key(key) implies assoc_map(t)[key]
        == assoc_map(s).remove(s[i].0)[key] by {
        let j = key_index(t, key);
        lemma_assoc_lookup(t, j);
        let sj = if j < i {
            j
        } else {
            j + 1
        };
        assert(t[j] == s[sj]);
        lemma_assoc_lookup(s, sj);
    }
    assert(assoc_map(t) =~= assoc_map(s).remove(s[i].0));
}

/// An association list has as many keys as entries.
pub proof fn lemma_assoc_dom<K, V>(s: Seq<(K, V)>)
    requires
        keys_unique(s),
    ensures
        assoc_map(s).dom().finite(),
        assoc_map(s).dom().len() == s.len(),
    decreases s.len(),
{
    if s.len() == 0 {
        assert(assoc_map(s).dom() =~= Set::<K>::empty());
    } else {
        let t = s.drop_last();
        let (k, v) = s.last();
        assert(s == t.push((k, v)));
        assert(keys_unique(t));
        assert(!has_key(t, k)) by {
            if has_key(t, k) {
                let j = key_index(t, k);
                assert(s[j].0 == s[s.len() - 1].0);
            }
        }
        lemma_assoc_dom(t);
        lemma_assoc_push(t, k, v);
        assert(assoc_map(s).dom() =~= assoc_map(t).dom().insert(k));
    }
}

} // verus!
