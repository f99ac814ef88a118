//! The IP allow-list: addresses, each with the users learned or bound there.
use vstd::prelude::*;
use crate::assoc::{
    distinct_keys, has_key, to_map, fold_insert, lemma_to_map_entry, lemma_to_map_empty,
    lemma_to_map_push, lemma_to_map_update, lemma_to_map_remove,
};
use crate::ip::IpAddress;
use crate::username::Username;

verus! {

/// The text of each name in a list.
pub open spec fn names_view(s: Seq<Username>) -> Seq<Seq<char>> {
    s.map_values(|u: Username| u@)
}

/// The entries of an allow-list as plain pairs.
pub open spec fn ip_pairs(v: Seq<(IpAddress, Vec<Username>)>) -> Seq<(IpAddress, Seq<Seq<char>>)> {
    v.map_values(|e: (IpAddress, Vec<Username>)| (e.0, names_view(e.1@)))
}

/// The users bound to `ip`; none when the address is absent.
pub open spec fn users_at(m: Map<IpAddress, Seq<Seq<char>>>, ip: IpAddress) -> Seq<Seq<char>> {
    if m.contains_key(ip) {
        m[ip]
    } else {
        Seq::empty()
    }
}

/// A user list with `u` appended, unless it already holds `u`.
pub open spec fn with_user(l: Seq<Seq<char>>, u: Seq<char>) -> Seq<Seq<char>> {
    if l.contains(u) {
        l
    } else {
        l.push(u)
    }
}

/// The allow-list after `ip` is made present and, when a user is given, that
/// user is bound to it.
pub open spec fn with_binding(
    m: Map<IpAddress, Seq<Seq<char>>>,
    ip: IpAddress,
    user: Option<Seq<char>>,
) -> Map<IpAddress, Seq<Seq<char>>> {
    match user {
        Some(u) => m.insert(ip, with_user(users_at(m, ip), u)),
        None => m.insert(ip, users_at(m, ip)),
    }
}

/// Addresses allowed in, each once, with the users bound to them in order.
pub struct IpAllowList {
    entries: Vec<(IpAddress, Vec<Username>)>,
}

impl View for IpAllowList {
    type V = Map<IpAddress, Seq<Seq<char>>>;

    closed spec fn view(&self) -> Map<IpAddress, Seq<Seq<char>>> {
        to_map(self.pairs())
    }
}

impl IpAllowList {
    pub closed spec fn pairs(&self) -> Seq<(IpAddress, Seq<Seq<char>>)> {
        ip_pairs(self.entries@)
    }

    pub closed spec fn wf(&self) -> bool {
        distinct_keys(self.pairs())
    }

    pub fn new() -> (r: IpAllowList)
        ensures
            r.wf(),
            r@ == Map::<IpAddress, Seq<Seq<char>>>::empty(),
    {
        let r = IpAllowList { entries: Vec::new() };
        proof {
            lemma_to_map_empty(r.pairs());
        }
        r
    }

    /// An allow-list of the given entries, a later entry overriding an
    /// earlier one with the same address.
    pub fn from_entries(entries: Vec<(IpAddress, Vec<Username>)>) -> (r: IpAllowList)
        ensures
            r.wf(),
            r@ == fold_insert(ip_pairs(entries@)),
    {
        let mut r = IpAllowList::new();
        let mut i: usize = 0;
        let ghost src = ip_pairs(entries@);
        while i < entries.len()
            invariant
                i <= entries@.len(),
                src == ip_pairs(entries@),
                r.wf(),
                r@ == fold_insert(src.take(i as int)),
            decreases entries@.len() - i,
        {
            let ip = entries[i].0;
            let users = entries[i].1.clone();
            proof {
                assert(names_view(users@) =~= names_view(entries@[i as int].1@));
            }
            r.set(ip, users);
            proof {
                assert(src.take(i + 1).drop_last() =~= src.take(i as int));
            }
            i += 1;
        }
        proof {
            assert(src.take(i as int) =~= src);
        }
        r
    }

    /// The entries, each address once, in no particular order.
    pub fn entries(&self) -> (r: &Vec<(IpAddress, Vec<Username>)>)
        requires
            self.wf(),
        ensures
            distinct_keys(ip_pairs(r@)),
            to_map(ip_pairs(r@)) == self@,
    {
        &self.entries
    }

    fn find(&self, ip: IpAddress) -> (r: Option<usize>)
        ensures
            match r {
                Some(i) => i < self.entries@.len() && self.pairs()[i as int].0 == ip,
                None => !has_key(self.pairs(), ip),
            },
    {
        let mut i: usize = 0;
        while i < self.entries.len()
            invariant
                i <= self.entries@.len(),
                forall|j: int| 0 <= j < i ==> #[trigger] self.pairs()[j].0 != ip,
            decreases self.entries@.len() - i,
        {
            if self.entries[i].0 == ip {
                return Some(i);
            }
            i += 1;
        }
        None
    }

    /// Whether `ip` is allowed in.
    pub fn contains(&self, ip: IpAddress) -> (r: bool)
        requires
            self.wf(),
        ensures
            r == self@.contains_key(ip),
    {
        match self.find(ip) {
            Some(i) => {
                proof {
                    lemma_to_map_entry(self.pairs(), i as int);
                }
                true
            },
            None => false,
        }
    }

    /// Binds `ip` to exactly `users`.
    fn set(&mut self, ip: IpAddress, users: Vec<Username>)
        requires
            old(self).wf(),
        ensures
            final(self).wf(),
            final(self)@ == old(self)@.insert(ip, names_view(users@)),
    {
        let ghost us = names_view(users@);
        let ghost before = self.pairs();
        match self.find(ip) {
            Some(i) => {
                self.entries.set(i, (ip, users));
                proof {
                    assert(self.pairs() =~= before.update(i as int, (before[i as int].0, us)));
                    lemma_to_map_update(before, i as int, us);
                }
            },
            None => {
                self.entries.push((ip, users));
                proof {
                    assert(self.pairs() =~= before.push((ip, us)));
                    lemma_to_map_push(before, ip, us);
                }
            },
        }
    }

    /// Makes `ip` present and, when `user` is given and not yet bound to
    /// `ip`, appends it to the address's users.
    pub fn add(&mut self, ip: IpAddress, user: Option<&Username>)
        requires
            old(self).wf(),
        ensures
            final(self).wf(),
            final(self)@ == with_binding(old(self)@, ip, match user {
                Some(u) => Some(u@),
                None => None,
            }),
    {
        let ghost before = self.pairs();
        let mut users: Vec<Username> = match self.find(ip) {
            Some(i) => {
                proof {
                    lemma_to_map_entry(before, i as int);
                }
                self.entries[i].1.clone()
            },
            None => Vec::new(),
        };
        let ghost base = users_at(to_map(before), ip);
        proof {
            assert(names_view(users@) =~= base);
        }
        if let Some(u) = user {
            let mut present = false;
            let mut j: usize = 0;
            while j < users.len()
                invariant
                    j <= users@.len(),
                    present == exists|k: int| 0 <= k < j && #[trigger] names_view(users@)[k] == u@,
                decreases users@.len() - j,
            {
                if users[j].same_as(u) {
                    present = true;
                }
                proof {
                    if names_view(users@)[j as int] == u@ {
                        assert(names_view(users@)[j as int] == u@);
                    }
                }
                j += 1;
            }
            proof {
                assert(present == names_view(users@).contains(u@));
            }
            if !present {
                users.push(u.clone());
                proof {
                    assert(names_view(users@) =~= base.push(u@));
                }
            }
            assert(names_view(users@) == with_user(base, u@));
        }
        self.set(ip, users);
    }

    /// Removes `ip` and every user bound to it.
    pub fn remove(&mut self, ip: IpAddress)
        requires
            old(self).wf(),
        ensures
            final(self).wf(),
            final(self)@ == old(self)@.remove(ip),
    {
        let ghost before = self.pairs();
        match self.find(ip) {
            Some(i) => {
                self.entries.remove(i);
                proof {
                    assert(self.pairs() =~= before.remove(i as int));
                    lemma_to_map_remove(before, i as int);
                }
            },
            None => {
                proof {
                    assert(to_map(before) =~= to_map(before).remove(ip));
                }
            },
        }
    }

    /// Removes every address.
    pub fn clear(&mut self)
        ensures
            final(self).wf(),
            final(self)@ == Map::<IpAddress, Seq<Seq<char>>>::empty(),
    {
        self.entries = Vec::new();
        proof {
            lemma_to_map_empty(self.pairs());
        }
    }
}

} // verus!
