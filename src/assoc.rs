//! Lists of key/value pairs read as maps: the lemmas that the store's tables
//! share.
use vstd::prelude::*;

verus! {

/// No two entries share a key.
pub open spec fn distinct_keys<K, V>(s: Seq<(K, V)>) -> bool {
    forall|i: int, j: int|
        #![trigger s[i], s[j]]
        0 <= i < s.len() && 0 <= j < s.len() && s[i].0 == s[j].0 ==> i == j
}

/// Some entry has key `k`.
pub open spec fn has_key<K, V>(s: Seq<(K, V)>, k: K) -> bool {
    exists|i: int| 0 <= i < s.len() && #[trigger] s[i].0 == k
}

/// The map that a list of pairs denotes: each key to the value of its entry.
pub open spec fn to_map<K, V>(s: Seq<(K, V)>) -> Map<K, V> {
    Map::new(
        |k: K| has_key(s, k),
        |k: K| s[choose|i: int| 0 <= i < s.len() && #[trigger] s[i].0 == k].1,
    )
}

/// The map built by inserting the entries one after another, so that a later
/// entry overrides an earlier one with the same key.
pub open spec fn fold_insert<K, V>(s: Seq<(K, V)>) -> Map<K, V>
    decreases s.len(),
{
    if s.len() == 0 {
        Map::empty()
    } else {
        fold_insert(s.drop_last()).insert(s.last().0, s.last().1)
    }
}

pub proof fn lemma_to_map_entry<K, V>(s: Seq<(K, V)>, i: int)
    requires
        distinct_keys(s),
        0 <= i < s.len(),
    ensures
        to_map(s).contains_key(s[i].0),
        to_map(s)[s[i].0] == s[i].1,
{
    let k = s[i].0;
    assert(has_key(s, k));
    let j = choose|j: int| 0 <= j < s.len() && #[trigger] s[j].0 == k;
    assert(s[j].0 == s[i].0);
}

/// A map equals the one a list denotes when it holds exactly the list's entries.
pub proof fn lemma_to_map_equal<K, V>(s: Seq<(K, V)>, m: Map<K, V>)
    requires
        distinct_keys(s),
        forall|i: int| #![trigger s[i]] 0 <= i < s.len() ==> m.contains_key(s[i].0) && m[s[i].0] == s[i].1,
        forall|k: K| m.contains_key(k) ==> has_key(s, k),
    ensures
        to_map(s) == m,
{
    assert forall|k: K| #[trigger] to_map(s).contains_key(k) implies m.contains_key(k) && to_map(s)[k] == m[k] by {
        let i = choose|i: int| 0 <= i < s.len() && #[trigger] s[i].0 == k;
        lemma_to_map_entry(s, i);
    }
    assert(to_map(s) =~= m);
}

pub proof fn lemma_to_map_empty<K, V>(s: Seq<(K, V)>)
    requires
        s.len() == 0,
    ensures
        distinct_keys(s),
        to_map(s) == Map::<K, V>::empty(),
{
    assert(to_map(s) =~= Map::<K, V>::empty());
}

pub proof fn lemma_to_map_push<K, V>(s: Seq<(K, V)>, k: K, v: V)
    requires
        distinct_keys(s),
        !has_key(s, k),
    ensures
        distinct_keys(s.push((k, v))),
        to_map(s.push((k, v))) == to_map(s).insert(k, v),
{
    let t = s.push((k, v));
    assert forall|i: int, j: int|
        #![trigger t[i], t[j]]
        0 <= i < t.len() && 0 <= j < t.len() && t[i].0 == t[j].0 implies i == j by {
        if i < s.len() && j < s.len() {
            assert(t[i] == s[i] && t[j] == s[j]);
        } else if i < s.len() {
            assert(t[i] == s[i]);
        } else if j < s.len() {
            assert(t[j] == s[j]);
        }
    }
    let m = to_map(s).insert(k, v);
    assert forall|i: int| #![trigger t[i]] 0 <= i < t.len() implies m.contains_key(t[i].0) && m[t[i].0] == t[i].1 by {
        if i < s.len() {
            assert(t[i] == s[i]);
            lemma_to_map_entry(s, i);
        }
    }
    assert forall|x: K| m.contains_key(x) implies has_key(t, x) by {
        if x == k {
            assert(t[s.len() as int].0 == k);
        } else {
            let i = choose|i: int| 0 <= i < s.len() && #[trigger] s[i].0 == x;
            assert(t[i] == s[i]);
        }
    }
    lemma_to_map_equal(t, m);
}

pub proof fn lemma_to_map_update<K, V>(s: Seq<(K, V)>, i: int, v: V)
    requires
        distinct_keys(s),
        0 <= i < s.len(),
    ensures
        distinct_keys(s.update(i, (s[i].0, v))),
        to_map(s.update(i, (s[i].0, v))) == to_map(s).insert(s[i].0, v),
{
    let t = s.update(i, (s[i].0, v));
    assert forall|a: int, b: int|
        #![trigger t[a], t[b]]
        0 <= a < t.len() && 0 <= b < t.len() && t[a].0 == t[b].0 implies a == b by {
        assert(t[a].0 == s[a].0 && t[b].0 == s[b].0);
    }
    let m = to_map(s).insert(s[i].0, v);
    assert forall|a: int| #![trigger t[a]] 0 <= a < t.len() implies m.contains_key(t[a].0) && m[t[a].0] == t[a].1 by {
        if a != i {
            lemma_to_map_entry(s, a);
        }
    }
    assert forall|x: K| m.contains_key(x) implies has_key(t, x) by {
        if x == s[i].0 {
            assert(t[i].0 == x);
        } else {
            let a = choose|a: int| 0 <= a < s.len() && #[trigger] s[a].0 == x;
            assert(t[a].0 == s[a].0);
        }
    }
    lemma_to_map_equal(t, m);
}

pub proof fn lemma_to_map_remove<K, V>(s: Seq<(K, V)>, i: int)
    requires
        distinct_keys(s),
        0 <= i < s.len(),
    ensures
        distinct_keys(s.remove(i)),
        to_map(s.remove(i)) == to_map(s).remove(s[i].0),
{
    let t = s.remove(i);
    assert forall|a: int| 0 <= a < t.len() implies #[trigger] t[a] == s[if a < i { a } else { a + 1 }] by {}
    assert forall|a: int, b: int|
        #![trigger t[a], t[b]]
        0 <= a < t.len() && 0 <= b < t.len() && t[a].0 == t[b].0 implies a == b by {
        let sa = if a < i { a } else { a + 1 };
        let sb = if b < i { b } else { b + 1 };
        assert(s[sa].0 == s[sb].0);
    }
    let m = to_map(s).remove(s[i].0);
    assert forall|a: int| #![trigger t[a]] 0 <= a < t.len() implies m.contains_key(t[a].0) && m[t[a].0] == t[a].1 by {
        let sa = if a < i { a } else { a + 1 };
        lemma_to_map_entry(s, sa);
        assert(s[sa].0 != s[i].0);
    }
    assert forall|x: K| m.contains_key(x) implies has_key(t, x) by {
        let a = choose|a: int| 0 <= a < s.len() && #[trigger] s[a].0 == x;
        if a < i {
            assert(t[a] == s[a]);
        } else {
            assert(a != i);
            assert(t[a - 1] == s[a]);
        }
    }
    lemma_to_map_equal(t, m);
}

/// Inserting the entries of a list with distinct keys one by one gives the
/// map that the list denotes.
pub proof fn lemma_fold_insert_distinct<K, V>(s: Seq<(K, V)>)
    requires
        distinct_keys(s),
    ensures
        fold_insert(s) == to_map(s),
    decreases s.len(),
{
    if s.len() == 0 {
        lemma_to_map_empty(s);
    } else {
        let p = s.drop_last();
        assert forall|i: int, j: int|
            #![trigger p[i], p[j]]
            0 <= i < p.len() && 0 <= j < p.len() && p[i].0 == p[j].0 implies i == j by {
            assert(p[i] == s[i] && p[j] == s[j]);
        }
        lemma_fold_insert_distinct(p);
        assert(!has_key(p, s.last().0)) by {
            if has_key(p, s.last().0) {
                let i = choose|i: int| 0 <= i < p.len() && #[trigger] p[i].0 == s.last().0;
                assert(p[i] == s[i]);
                assert(s[i].0 == s[s.len() - 1].0);
            }
        }
        lemma_to_map_push(p, s.last().0, s.last().1);
        assert(p.push((s.last().0, s.last().1)) =~= s);
    }
}

} // verus!
