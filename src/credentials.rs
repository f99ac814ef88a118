//! A table from secret strings (encoded passwords, bypass tokens) to the
//! users they authenticate.
use vstd::prelude::*;
use crate::assoc::{
    distinct_keys, has_key, to_map, fold_insert, lemma_to_map_entry, lemma_to_map_equal,
    lemma_to_map_empty, lemma_to_map_push, lemma_to_map_update, lemma_to_map_remove,
};
use crate::username::Username;

verus! {

/// The entries of a table as text pairs.
pub open spec fn secret_pairs(v: Seq<(String, Username)>) -> Seq<(Seq<char>, Seq<char>)> {
    v.map_values(|e: (String, Username)| (e.0@, e.1@))
}

/// The table without the entries that name user `u`.
pub open spec fn without_user(m: Map<Seq<char>, Seq<char>>, u: Seq<char>) -> Map<Seq<char>, Seq<char>> {
    Map::new(|k: Seq<char>| m.contains_key(k) && m[k] != u, |k: Seq<char>| m[k])
}

/// Secrets mapped to users; each secret appears once.
pub struct CredentialMap {
    entries: Vec<(String, Username)>,
}

impl View for CredentialMap {
    type V = Map<Seq<char>, Seq<char>>;

    closed spec fn view(&self) -> Map<Seq<char>, Seq<char>> {
        to_map(self.pairs())
    }
}

impl CredentialMap {
    pub closed spec fn pairs(&self) -> Seq<(Seq<char>, Seq<char>)> {
        secret_pairs(self.entries@)
    }

    pub closed spec fn wf(&self) -> bool {
        distinct_keys(self.pairs())
    }

    pub fn new() -> (r: CredentialMap)
        ensures
            r.wf(),
            r@ == Map::<Seq<char>, Seq<char>>::empty(),
    {
        let r = CredentialMap { entries: Vec::new() };
        proof {
            lemma_to_map_empty(r.pairs());
        }
        r
    }

    /// A table of the given entries, a later entry overriding an earlier one
    /// with the same secret.
    pub fn from_entries(entries: Vec<(String, Username)>) -> (r: CredentialMap)
        ensures
            r.wf(),
            r@ == fold_insert(secret_pairs(entries@)),
    {
        let mut r = CredentialMap::new();
        let mut i: usize = 0;
        let ghost src = secret_pairs(entries@);
        while i < entries.len()
            invariant
                i <= entries@.len(),
                src == secret_pairs(entries@),
                r.wf(),
                r@ == fold_insert(src.take(i as int)),
            decreases entries@.len() - i,
        {
            let (k, u) = (entries[i].0.clone(), entries[i].1.clone());
            r.insert(k, u);
            proof {
                assert(src.take(i + 1).drop_last() =~= src.take(i as int));
            }
            i += 1;
        }
        proof {
            assert(src.take(i as int) =~= src);
        }
        r
    }

    /// The entries, each secret once, in no particular order.
    pub fn entries(&self) -> (r: &Vec<(String, Username)>)
        requires
            self.wf(),
        ensures
            distinct_keys(secret_pairs(r@)),
            to_map(secret_pairs(r@)) == self@,
    {
        &self.entries
    }

    fn find(&self, key: &String) -> (r: Option<usize>)
        ensures
            match r {
                Some(i) => i < self.entries@.len() && self.pairs()[i as int].0 == key@,
                None => !has_key(self.pairs(), key@),
            },
    {
        let mut i: usize = 0;
        while i < self.entries.len()
            invariant
                i <= self.entries@.len(),
                forall|j: int| 0 <= j < i ==> #[trigger] self.pairs()[j].0 != key@,
            decreases self.entries@.len() - i,
        {
            if self.entries[i].0 == *key {
                return Some(i);
            }
            i += 1;
        }
        None
    }

    /// The user that `key` authenticates, if any.
    pub fn get(&self, key: &String) -> (r: Option<Username>)
        requires
            self.wf(),
        ensures
            match r {
                Some(u) => self@.contains_key(key@) && self@[key@] == u@,
                None => !self@.contains_key(key@),
            },
    {
        match self.find(key) {
            Some(i) => {
                proof {
                    lemma_to_map_entry(self.pairs(), i as int);
                }
                Some(self.entries[i].1.clone())
            },
            None => None,
        }
    }

    /// Binds `key` to `user`, replacing an earlier binding of `key`.
    pub fn insert(&mut self, key: String, user: Username)
        requires
            old(self).wf(),
        ensures
            final(self).wf(),
            final(self)@ == old(self)@.insert(key@, user@),
    {
        let ghost k = key@;
        let ghost u = user@;
        let ghost before = self.pairs();
        match self.find(&key) {
            Some(i) => {
                self.entries.set(i, (key, user));
                proof {
                    assert(self.pairs() =~= before.update(i as int, (before[i as int].0, u)));
                    lemma_to_map_update(before, i as int, u);
                }
            },
            None => {
                self.entries.push((key, user));
                proof {
                    assert(self.pairs() =~= before.push((k, u)));
                    lemma_to_map_push(before, k, u);
                }
            },
        }
    }

    /// Drops the binding of `key`; nothing changes when there is none.
    pub fn remove(&mut self, key: &String)
        requires
            old(self).wf(),
        ensures
            final(self).wf(),
            final(self)@ == old(self)@.remove(key@),
    {
        let ghost before = self.pairs();
        match self.find(key) {
            Some(i) => {
                self.entries.remove(i);
                proof {
                    assert(self.pairs() =~= before.remove(i as int));
                    lemma_to_map_remove(before, i as int);
                }
            },
            None => {
                proof {
                    assert(to_map(before) =~= to_map(before).remove(key@));
                }
            },
        }
    }

    /// Drops every binding.
    pub fn clear(&mut self)
        ensures
            final(self).wf(),
            final(self)@ == Map::<Seq<char>, Seq<char>>::empty(),
    {
        self.entries = Vec::new();
        proof {
            lemma_to_map_empty(self.pairs());
        }
    }

    /// Drops every binding to `user`.
    pub fn remove_user(&mut self, user: &Username)
        requires
            old(self).wf(),
        ensures
            final(self).wf(),
            final(self)@ == without_user(old(self)@, user@),
    {
        let ghost before = self.pairs();
        let ghost u = user@;
        let mut kept: Vec<(String, Username)> = Vec::new();
        let ghost mut origin: Seq<int> = Seq::empty();
        let mut i: usize = 0;
        while i < self.entries.len()
            invariant
                i <= self.entries@.len(),
                before == self.pairs(),
                u == user@,
                before.len() == self.entries@.len(),
                distinct_keys(before),
                distinct_keys(secret_pairs(kept@)),
                origin.len() == kept@.len(),
                forall|m: int| #![trigger origin[m]] 0 <= m < kept@.len() ==>
                    0 <= origin[m] < i && before[origin[m]] == secret_pairs(kept@)[m] && before[origin[m]].1 != u,
                forall|j: int| #![trigger before[j]] 0 <= j < i && before[j].1 != u ==>
                    has_key(secret_pairs(kept@), before[j].0),
            decreases self.entries@.len() - i,
        {
            if !self.entries[i].1.same_as(user) {
                let ghost ks = secret_pairs(kept@);
                assert(before[i as int].1 != u);
                assert(!has_key(ks, before[i as int].0)) by {
                    if has_key(ks, before[i as int].0) {
                        let m = choose|m: int| 0 <= m < ks.len() && #[trigger] ks[m].0 == before[i as int].0;
                        assert(before[origin[m]].0 == before[i as int].0);
                    }
                }
                kept.push((self.entries[i].0.clone(), self.entries[i].1.clone()));
                proof {
                    origin = origin.push(i as int);
                    assert(secret_pairs(kept@) =~= ks.push(before[i as int]));
                    lemma_to_map_push(ks, before[i as int].0, before[i as int].1);
                    assert forall|m: int| #![trigger origin[m]] 0 <= m < kept@.len() implies
                        0 <= origin[m] < i + 1 && before[origin[m]] == secret_pairs(kept@)[m] && before[origin[m]].1 != u by {
                        if m < ks.len() {
                            assert(secret_pairs(kept@)[m] == ks[m]);
                            assert(origin[m] < i);
                        } else {
                            assert(origin[m] == i);
                            assert(secret_pairs(kept@)[m] == before[i as int]);
                        }
                    }
                    assert forall|j: int| #![trigger before[j]] 0 <= j < i + 1 && before[j].1 != u implies
                        has_key(secret_pairs(kept@), before[j].0) by {
                        if j < i {
                            let m = choose|m: int| 0 <= m < ks.len() && #[trigger] ks[m].0 == before[j].0;
                            assert(secret_pairs(kept@)[m] == ks[m]);
                        } else {
                            assert(secret_pairs(kept@)[ks.len() as int] == before[i as int]);
                        }
                    }
                }
            }
            i += 1;
        }
        let ghost ks = secret_pairs(kept@);
        let ghost target = without_user(to_map(before), u);
        proof {
            assert forall|m: int| #![trigger ks[m]] 0 <= m < ks.len() implies
                target.contains_key(ks[m].0) && target[ks[m].0] == ks[m].1 by {
                assert(ks[m] == secret_pairs(kept@)[m]);
                lemma_to_map_entry(before, origin[m]);
            }
            assert forall|k: Seq<char>| target.contains_key(k) implies has_key(ks, k) by {
                let j = choose|j: int| 0 <= j < before.len() && #[trigger] before[j].0 == k;
                lemma_to_map_entry(before, j);
            }
            lemma_to_map_equal(ks, target);
        }
        self.entries = kept;
    }
}

} // verus!
