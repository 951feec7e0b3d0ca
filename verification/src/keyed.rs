//! Lists of `(address, value)` pairs used as small maps keyed by the
//! characters of a `String`: lookup, insert-or-replace and removal, with the
//! map laws they obey.
use vstd::prelude::*;
use vstd::pervasive::VecAdditionalExecFns;

verus! {

/// No two entries share a key.
pub open spec fn keys_distinct<V>(s: Seq<(String, V)>) -> bool {
    forall|i: int, j: int| 0 <= i < j < s.len() ==> #[trigger] s[i].0@ != #[trigger] s[j].0@
}

/// Some entry has key `k`.
pub open spec fn has_key<V>(s: Seq<(String, V)>, k: Seq<char>) -> bool {
    exists|i: int| 0 <= i < s.len() && #[trigger] s[i].0@ == k
}

/// `i` is the position of the first entry with key `k`.
pub open spec fn is_first_key_index<V>(s: Seq<(String, V)>, k: Seq<char>, i: int) -> bool {
    &&& 0 <= i < s.len()
    &&& s[i].0@ == k
    &&& forall|j: int| 0 <= j < i ==> #[trigger] s[j].0@ != k
}

/// The position of the first entry with key `k` (meaningful when `has_key`).
pub open spec fn first_key_index<V>(s: Seq<(String, V)>, k: Seq<char>) -> int {
    choose|i: int| is_first_key_index(s, k, i)
}

/// The value of the first entry with key `k`.
pub open spec fn lookup<V>(s: Seq<(String, V)>, k: Seq<char>) -> Option<V> {
    if has_key(s, k) {
        Some(s[first_key_index(s, k)].1)
    } else {
        None
    }
}

/// `s` with the entry for `key` replaced, or a new entry appended.
pub open spec fn upsert<V>(s: Seq<(String, V)>, key: String, v: V) -> Seq<(String, V)> {
    if has_key(s, key@) {
        s.update(first_key_index(s, key@), (key, v))
    } else {
        s.push((key, v))
    }
}

/// `s` without its first entry for key `k`.
pub open spec fn remove_key<V>(s: Seq<(String, V)>, k: Seq<char>) -> Seq<(String, V)> {
    if has_key(s, k) {
        s.remove(first_key_index(s, k))
    } else {
        s
    }
}

proof fn lemma_min_index_exists<V>(s: Seq<(String, V)>, k: Seq<char>, i: int)
    requires
        0 <= i < s.len(),
        s[i].0@ == k,
    ensures
        exists|m: int| is_first_key_index(s, k, m),
    decreases i,
{
    if exists|j: int| 0 <= j < i && #[trigger] s[j].0@ == k {
        let j = choose|j: int| 0 <= j < i && #[trigger] s[j].0@ == k;
        lemma_min_index_exists(s, k, j);
    } else {
        assert(is_first_key_index(s, k, i));
    }
}

/// The first index for a present key exists and is the one `choose` names.
pub proof fn lemma_first_key_index<V>(s: Seq<(String, V)>, k: Seq<char>)
    requires
        has_key(s, k),
    ensures
        is_first_key_index(s, k, first_key_index(s, k)),
{
    let i = choose|i: int| 0 <= i < s.len() && #[trigger] s[i].0@ == k;
    lemma_min_index_exists(s, k, i);
}

/// There is only one first index.
pub proof fn lemma_first_key_index_unique<V>(s: Seq<(String, V)>, k: Seq<char>, i: int)
    requires
        is_first_key_index(s, k, i),
    ensures
        has_key(s, k),
        first_key_index(s, k) == i,
{
    assert(s[i].0@ == k);
    lemma_first_key_index(s, k);
    let f = first_key_index(s, k);
    if f < i {
        assert(s[f].0@ != k);
    } else if i < f {
        assert(s[i].0@ != k);
    }
}

/// In a list without repeated keys, the entry at `i` is the first one for its key.
pub proof fn lemma_distinct_index<V>(s: Seq<(String, V)>, i: int)
    requires
        keys_distinct(s),
        0 <= i < s.len(),
    ensures
        is_first_key_index(s, s[i].0@, i),
        first_key_index(s, s[i].0@) == i,
        lookup(s, s[i].0@) == Some(s[i].1),
{
    assert forall|j: int| 0 <= j < i implies #[trigger] s[j].0@ != s[i].0@ by {}
    lemma_first_key_index_unique(s, s[i].0@, i);
}

/// Lookup after insert-or-replace: the new value for its key, the old
/// lookup for every other key; distinct keys stay distinct.
pub proof fn lemma_upsert<V>(s: Seq<(String, V)>, key: String, v: V, k: Seq<char>)
    requires
        keys_distinct(s),
    ensures
        keys_distinct(upsert(s, key, v)),
        lookup(upsert(s, key, v), k) == if k == key@ {
            Some(v)
        } else {
            lookup(s, k)
        },
        has_key(upsert(s, key, v), k) == (k == key@ || has_key(s, k)),
{
    let t = upsert(s, key, v);
    if has_key(s, key@) {
        lemma_first_key_index(s, key@);
        let f = first_key_index(s, key@);
        assert(t[f].0@ == key@);
        assert(keys_distinct(t)) by {
            assert forall|i: int, j: int| 0 <= i < j < t.len() implies #[trigger] t[i].0@
                != #[trigger] t[j].0@ by {
                if i == f {
                    assert(s[i].0@ != s[j].0@);
                } else if j == f {
                    assert(s[i].0@ != s[j].0@);
                }
            }
        }
        if has_key(t, k) {
            let w = choose|i: int| 0 <= i < t.len() && #[trigger] t[i].0@ == k;
            if w != f {
                assert(s[w].0@ == k);
            }
        }
        if has_key(s, k) {
            let w = choose|i: int| 0 <= i < s.len() && #[trigger] s[i].0@ == k;
            assert(t[w].0@ == k);
        }
        if k == key@ {
            lemma_distinct_index(t, f);
        } else if has_key(s, k) {
            lemma_first_key_index(s, k);
            let g = first_key_index(s, k);
            lemma_distinct_index(s, g);
            assert(g != f);
            assert(t[g] == s[g]);
            lemma_distinct_index(t, g);
        }
    } else {
        assert(keys_distinct(t)) by {
            assert forall|i: int, j: int| 0 <= i < j < t.len() implies #[trigger] t[i].0@
                != #[trigger] t[j].0@ by {
                if j == s.len() {
                    assert(s[i].0@ != key@);
                }
            }
        }
        let n = s.len() as int;
        assert(t[n].0@ == key@);
        if has_key(t, k) {
            let w = choose|i: int| 0 <= i < t.len() && #[trigger] t[i].0@ == k;
            if w != n {
                assert(s[w].0@ == k);
            }
        }
        if has_key(s, k) {
            let w = choose|i: int| 0 <= i < s.len() && #[trigger] s[i].0@ == k;
            assert(t[w].0@ == k);
        }
        if k == key@ {
            lemma_distinct_index(t, n);
        } else if has_key(s, k) {
            lemma_first_key_index(s, k);
            let g = first_key_index(s, k);
            lemma_distinct_index(s, g);
            assert(t[g] == s[g]);
            lemma_distinct_index(t, g);
        }
    }
}

/// Lookup after removal: nothing for the removed key, the old lookup for
/// every other key; distinct keys stay distinct.
pub proof fn lemma_remove_key<V>(s: Seq<(String, V)>, key: Seq<char>, k: Seq<char>)
    requires
        keys_distinct(s),
    ensures
        keys_distinct(remove_key(s, key)),
        lookup(remove_key(s, key), k) == if k == key {
            None
        } else {
            lookup(s, k)
        },
        has_key(remove_key(s, key), k) == (k != key && has_key(s, k)),
{
    let t = remove_key(s, key);
    if has_key(s, key) {
        lemma_first_key_index(s, key);
        let f = first_key_index(s, key);
        assert(keys_distinct(t)) by {
            assert forall|i: int, j: int| 0 <= i < j < t.len() implies #[trigger] t[i].0@
                != #[trigger] t[j].0@ by {
                if i < f && j < f {
                    assert(s[i].0@ != s[j].0@);
                } else if i < f {
                    assert(t[j] == s[j + 1]);
                    assert(s[i].0@ != s[j + 1].0@);
                } else {
                    assert(s[i + 1].0@ != s[j + 1].0@);
                }
            }
        }
        if has_key(t, k) {
            let w = choose|i: int| 0 <= i < t.len() && #[trigger] t[i].0@ == k;
            if w < f {
                assert(s[w].0@ == k);
                assert(s[w].0@ != s[f].0@);
            } else {
                assert(s[w + 1].0@ == k);
                assert(s[f].0@ != s[w + 1].0@);
            }
        }
        if k != key && has_key(s, k) {
            lemma_first_key_index(s, k);
            let g = first_key_index(s, k);
            assert(g != f);
            let h = if g < f {
                g
            } else {
                g - 1
            };
            assert(t[h] == s[g]);
            lemma_distinct_index(s, g);
            lemma_distinct_index(t, h);
        }
    } else {
        if has_key(s, k) {
            lemma_first_key_index(s, k);
        }
    }
}

/// A key is present after a push exactly when it was before or is the pushed one.
pub proof fn lemma_has_key_push<V>(s: Seq<(String, V)>, e: (String, V), k: Seq<char>)
    ensures
        has_key(s.push(e), k) == (has_key(s, k) || e.0@ == k),
{
    let t = s.push(e);
    if has_key(s, k) {
        let w = choose|i: int| 0 <= i < s.len() && #[trigger] s[i].0@ == k;
        assert(t[w] == s[w]);
    }
    if e.0@ == k {
        assert(t[s.len() as int].0@ == k);
    }
    if has_key(t, k) {
        let w = choose|i: int| 0 <= i < t.len() && #[trigger] t[i].0@ == k;
        if w < s.len() {
            assert(s[w].0@ == k);
        }
    }
}

/// A key is present in a concatenation exactly when it is present in a part.
pub proof fn lemma_has_key_concat<V>(s: Seq<(String, V)>, u: Seq<(String, V)>, k: Seq<char>)
    ensures
        has_key(s + u, k) == (has_key(s, k) || has_key(u, k)),
{
    let t = s + u;
    if has_key(s, k) {
        let w = choose|i: int| 0 <= i < s.len() && #[trigger] s[i].0@ == k;
        assert(t[w] == s[w]);
    }
    if has_key(u, k) {
        let w = choose|i: int| 0 <= i < u.len() && #[trigger] u[i].0@ == k;
        assert(t[s.len() + w] == u[w]);
    }
    if has_key(t, k) {
        let w = choose|i: int| 0 <= i < t.len() && #[trigger] t[i].0@ == k;
        if w < s.len() {
            assert(s[w].0@ == k);
        } else {
            assert(u[w - s.len()].0@ == k);
        }
    }
}

/// Dropping the last entry keeps keys distinct.
pub proof fn lemma_distinct_drop_last<V>(s: Seq<(String, V)>)
    requires
        keys_distinct(s),
        s.len() > 0,
    ensures
        keys_distinct(s.drop_last()),
        !has_key(s.drop_last(), s.last().0@),
{
    let p = s.drop_last();
    assert forall|i: int, j: int| 0 <= i < j < p.len() implies #[trigger] p[i].0@
        != #[trigger] p[j].0@ by {
        assert(s[i].0@ != s[j].0@);
    }
    if has_key(p, s.last().0@) {
        let w = choose|i: int| 0 <= i < p.len() && #[trigger] p[i].0@ == s.last().0@;
        assert(s[w].0@ != s[s.len() - 1].0@);
    }
}

/// Pushing an entry with a new key keeps keys distinct.
pub proof fn lemma_distinct_push<V>(s: Seq<(String, V)>, e: (String, V))
    requires
        keys_distinct(s),
        !has_key(s, e.0@),
    ensures
        keys_distinct(s.push(e)),
{
    let t = s.push(e);
    assert forall|i: int, j: int| 0 <= i < j < t.len() implies #[trigger] t[i].0@
        != #[trigger] t[j].0@ by {
        if j == s.len() {
            assert(t[i] == s[i]);
            if s[i].0@ == e.0@ {
                assert(has_key(s, e.0@));
            }
        } else {
            assert(s[i].0@ != s[j].0@);
        }
    }
}

/// The position of the first entry whose key equals `key`.
pub fn position_of_key<V>(v: &Vec<(String, V)>, key: &String) -> (r: Option<usize>)
    ensures
        match r {
            Some(i) => is_first_key_index(v@, key@, i as int),
            None => !has_key(v@, key@),
        },
{
    let mut i: usize = 0;
    while i < v.len()
        invariant
            i <= v@.len(),
            forall|j: int| 0 <= j < i ==> #[trigger] v@[j].0@ != key@,
        decreases v@.len() - i,
    {
        if v[i].0 == *key {
            return Some(i);
        }
        i = i + 1;
    }
    None
}

/// Inserts `(key, value)`, replacing the value of an entry with that key.
pub fn upsert_key<V>(v: &mut Vec<(String, V)>, key: String, value: V)
    ensures
        final(v)@ == upsert(old(v)@, key, value),
{
    match position_of_key(v, &key) {
        Some(i) => {
            proof {
                lemma_first_key_index_unique(v@, key@, i as int);
            }
            v.set(i, (key, value));
        },
        None => {
            v.push((key, value));
        },
    }
}

/// Removes the first entry whose key equals `key`, if there is one.
pub fn remove_first_key<V>(v: &mut Vec<(String, V)>, key: &String)
    ensures
        final(v)@ == remove_key(old(v)@, key@),
{
    match position_of_key(v, key) {
        Some(i) => {
            proof {
                lemma_first_key_index_unique(v@, key@, i as int);
            }
            let _ = v.remove(i);
        },
        None => {},
    }
}

} // verus!
