//! The per-user command lists.
use vstd::prelude::*;
use crate::assoc::{
    distinct_keys, has_key, to_map, fold_insert, lemma_to_map_entry, lemma_to_map_empty,
    lemma_to_map_push, lemma_to_map_update, lemma_to_map_remove,
};
use crate::command::{CommandModel, UserCommand};
use crate::username::Username;

verus! {

/// What each command of a list holds.
pub open spec fn commands_view(s: Seq<UserCommand>) -> Seq<CommandModel> {
    s.map_values(|c: UserCommand| c@)
}

/// The entries of a command table as plain pairs.
pub open spec fn command_pairs(v: Seq<(Username, Vec<UserCommand>)>) -> Seq<(Seq<char>, Seq<CommandModel>)> {
    v.map_values(|e: (Username, Vec<UserCommand>)| (e.0@, commands_view(e.1@)))
}

/// The commands of user `u`; none when the user has no entry.
pub open spec fn commands_of(m: Map<Seq<char>, Seq<CommandModel>>, u: Seq<char>) -> Seq<CommandModel> {
    if m.contains_key(u) {
        m[u]
    } else {
        Seq::empty()
    }
}

/// The list without the commands labelled `name`.
pub open spec fn without_name(l: Seq<CommandModel>, name: Seq<char>) -> Seq<CommandModel> {
    l.filter(|c: CommandModel| c.name != Some(name))
}

/// The list after `c` is added: a labelled command first drops those with
/// its label, then it is appended.
pub open spec fn with_command(l: Seq<CommandModel>, c: CommandModel) -> Seq<CommandModel> {
    match c.name {
        Some(n) => without_name(l, n).push(c),
        None => l.push(c),
    }
}

/// The list without its `index`-th command; unchanged when out of range.
pub open spec fn without_index(l: Seq<CommandModel>, index: int) -> Seq<CommandModel> {
    if 0 <= index < l.len() {
        l.remove(index)
    } else {
        l
    }
}

/// Users mapped to their commands, in the order they run.
pub struct CommandTable {
    entries: Vec<(Username, Vec<UserCommand>)>,
}

impl View for CommandTable {
    type V = Map<Seq<char>, Seq<CommandModel>>;

    closed spec fn view(&self) -> Map<Seq<char>, Seq<CommandModel>> {
        to_map(self.pairs())
    }
}

impl CommandTable {
    pub closed spec fn pairs(&self) -> Seq<(Seq<char>, Seq<CommandModel>)> {
        command_pairs(self.entries@)
    }

    pub closed spec fn wf(&self) -> bool {
        distinct_keys(self.pairs())
    }

    pub fn new() -> (r: CommandTable)
        ensures
            r.wf(),
            r@ == Map::<Seq<char>, Seq<CommandModel>>::empty(),
    {
        let r = CommandTable { entries: Vec::new() };
        proof {
            lemma_to_map_empty(r.pairs());
        }
        r
    }

    /// A table of the given entries, a later entry overriding an earlier one
    /// for the same user.
    pub fn from_entries(entries: Vec<(Username, Vec<UserCommand>)>) -> (r: CommandTable)
        ensures
            r.wf(),
            r@ == fold_insert(command_pairs(entries@)),
    {
        let mut r = CommandTable::new();
        let mut i: usize = 0;
        let ghost src = command_pairs(entries@);
        while i < entries.len()
            invariant
                i <= entries@.len(),
                src == command_pairs(entries@),
                r.wf(),
                r@ == fold_insert(src.take(i as int)),
            decreases entries@.len() - i,
        {
            let user = entries[i].0.clone();
            let list = entries[i].1.clone();
            proof {
                assert(commands_view(list@) =~= commands_view(entries@[i as int].1@));
            }
            r.set(user, list);
            proof {
                assert(src.take(i + 1).drop_last() =~= src.take(i as int));
            }
            i += 1;
        }
        proof {
            assert(src.take(i as int) =~= src);
        }
        r
    }

    /// The entries, each user once, in no particular order.
    pub fn entries(&self) -> (r: &Vec<(Username, Vec<UserCommand>)>)
        requires
            self.wf(),
        ensures
            distinct_keys(command_pairs(r@)),
            to_map(command_pairs(r@)) == self@,
    {
        &self.entries
    }

    fn find(&self, user: &Username) -> (r: Option<usize>)
        ensures
            match r {
                Some(i) => i < self.entries@.len() && self.pairs()[i as int].0 == user@,
                None => !has_key(self.pairs(), user@),
            },
    {
        let mut i: usize = 0;
        while i < self.entries.len()
            invariant
                i <= self.entries@.len(),
                forall|j: int| 0 <= j < i ==> #[trigger] self.pairs()[j].0 != user@,
            decreases self.entries@.len() - i,
        {
            if self.entries[i].0.same_as(user) {
                return Some(i);
            }
            i += 1;
        }
        None
    }

    /// A copy of the commands of `user`, in order.
    pub fn get(&self, user: &Username) -> (r: Vec<UserCommand>)
        requires
            self.wf(),
        ensures
            commands_view(r@) == commands_of(self@, user@),
    {
        match self.find(user) {
            Some(i) => {
                proof {
                    lemma_to_map_entry(self.pairs(), i as int);
                }
                let r = self.entries[i].1.clone();
                proof {
                    assert(commands_view(r@) =~= commands_view(self.entries@[i as int].1@));
                }
                r
            },
            None => {
                let r: Vec<UserCommand> = Vec::new();
                proof {
                    assert(commands_view(r@) =~= Seq::<CommandModel>::empty());
                }
                r
            },
        }
    }

    /// Gives `user` exactly the commands `list`.
    fn set(&mut self, user: Username, list: Vec<UserCommand>)
        requires
            old(self).wf(),
        ensures
            final(self).wf(),
            final(self)@ == old(self)@.insert(user@, commands_view(list@)),
    {
        let ghost cs = commands_view(list@);
        let ghost u = user@;
        let ghost before = self.pairs();
        match self.find(&user) {
            Some(i) => {
                self.entries.set(i, (user, list));
                proof {
                    assert(self.pairs() =~= before.update(i as int, (before[i as int].0, cs)));
                    lemma_to_map_update(before, i as int, cs);
                }
            },
            None => {
                self.entries.push((user, list));
                proof {
                    assert(self.pairs() =~= before.push((u, cs)));
                    lemma_to_map_push(before, u, cs);
                }
            },
        }
    }

    /// Drops from `user`'s list the commands labelled `name`; the user then
    /// has an entry, empty if it had none.
    pub fn remove_by_name(&mut self, user: &Username, name: &String)
        requires
            old(self).wf(),
        ensures
            final(self).wf(),
            final(self)@ == old(self)@.insert(user@, without_name(commands_of(old(self)@, user@), name@)),
    {
        let list = self.get(user);
        let ghost src = commands_view(list@);
        let ghost pred = |c: CommandModel| c.name != Some(name@);
        let mut kept: Vec<UserCommand> = Vec::new();
        let mut i: usize = 0;
        while i < list.len()
            invariant
                i <= list@.len(),
                src == commands_view(list@),
                pred == (|c: CommandModel| c.name != Some(name@)),
                commands_view(kept@) == src.take(i as int).filter(pred),
            decreases list@.len() - i,
        {
            let ghost before = commands_view(kept@);
            proof {
                assert(src.take(i + 1).drop_last() =~= src.take(i as int));
            }
            let matches = match &list[i].name {
                Some(n) => *n == *name,
                None => false,
            };
            proof {
                assert(src[i as int] == list@[i as int]@);
                assert(pred(src[i as int]) == !matches);
                assert(src.take(i + 1).last() == src[i as int]);
                let t = src.take(i + 1);
                reveal(Seq::filter);
                assert(t.filter(pred) == if pred(t.last()) {
                    t.drop_last().filter(pred).push(t.last())
                } else {
                    t.drop_last().filter(pred)
                });
            }
            if !matches {
                kept.push(list[i].clone());
                proof {
                    assert(commands_view(kept@) =~= before.push(src[i as int]));
                }
            }
            i += 1;
        }
        proof {
            assert(src.take(i as int) =~= src);
        }
        self.set(user.clone(), kept);
    }

    /// Adds `command` at the end of `user`'s list, first dropping the
    /// commands with its label when it has one.
    pub fn add(&mut self, user: &Username, command: UserCommand)
        requires
            old(self).wf(),
        ensures
            final(self).wf(),
            final(self)@ == old(self)@.insert(user@, with_command(commands_of(old(self)@, user@), command@)),
    {
        if let Some(n) = &command.name {
            self.remove_by_name(user, n);
        }
        let mut list = self.get(user);
        let ghost base = commands_view(list@);
        list.push(command);
        proof {
            assert(commands_view(list@) =~= base.push(command@));
        }
        self.set(user.clone(), list);
    }

    /// Drops the `index`-th command of `user`, if there is one; the user
    /// then has an entry, empty if it had none.
    pub fn remove_by_index(&mut self, user: &Username, index: usize)
        requires
            old(self).wf(),
        ensures
            final(self).wf(),
            final(self)@ == old(self)@.insert(user@, without_index(commands_of(old(self)@, user@), index as int)),
    {
        let mut list = self.get(user);
        let ghost base = commands_view(list@);
        if index < list.len() {
            list.remove(index);
            proof {
                assert(commands_view(list@) =~= base.remove(index as int));
            }
        }
        self.set(user.clone(), list);
    }

    /// Drops `user`'s entry and all its commands.
    pub fn remove_user(&mut self, user: &Username)
        requires
            old(self).wf(),
        ensures
            final(self).wf(),
            final(self)@ == old(self)@.remove(user@),
    {
        let ghost before = self.pairs();
        match self.find(user) {
            Some(i) => {
                self.entries.remove(i);
                proof {
                    assert(self.pairs() =~= before.remove(i as int));
                    lemma_to_map_remove(before, i as int);
                }
            },
            None => {
                proof {
                    assert(to_map(before) =~= to_map(before).remove(user@));
                }
            },
        }
    }

    /// Drops every user's commands.
    pub fn clear(&mut self)
        ensures
            final(self).wf(),
            final(self)@ == Map::<Seq<char>, Seq<CommandModel>>::empty(),
    {
        self.entries = Vec::new();
        proof {
            lemma_to_map_empty(self.pairs());
        }
    }
}

} // verus!
