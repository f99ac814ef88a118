//! The credential store: the single aggregate that the engine reads and
//! the administrative operations edit.
use vstd::prelude::*;
use crate::allow_list::{IpAllowList, ip_pairs, with_binding};
use crate::assoc::fold_insert;
use crate::command::{CommandModel, UserCommand};
use crate::commands::{CommandTable, command_pairs, commands_of, with_command, without_name, without_index};
use crate::credentials::{CredentialMap, secret_pairs, without_user};
use crate::encoding::{credential_of, encode_credential};
use crate::ip::IpAddress;
use crate::username::Username;

verus! {

/// What a store holds: allowed addresses with their users, encoded
/// credentials and bypass tokens with the users they authenticate, and each
/// user's commands.
pub struct StoreModel {
    pub ips: Map<IpAddress, Seq<Seq<char>>>,
    pub passwords: Map<Seq<char>, Seq<char>>,
    pub commands: Map<Seq<char>, Seq<CommandModel>>,
    pub tokens: Map<Seq<char>, Seq<char>>,
}

/// The password table after user `u` is given `credential` as its only entry.
pub open spec fn with_credential(
    m: Map<Seq<char>, Seq<char>>,
    u: Seq<char>,
    credential: Seq<char>,
) -> Map<Seq<char>, Seq<char>> {
    without_user(m, u).insert(credential, u)
}

/// The store after `AddPassword(u, p)`.
pub open spec fn with_password(s: StoreModel, u: Seq<char>, p: Seq<char>) -> StoreModel {
    StoreModel { passwords: with_credential(s.passwords, u, credential_of(u, p)), ..s }
}

/// The store after `RemoveToken(t)`.
pub open spec fn without_token(s: StoreModel, t: Seq<char>) -> StoreModel {
    StoreModel { tokens: s.tokens.remove(t), ..s }
}

/// The store after `AddCommand(u, c)`.
pub open spec fn with_user_command(s: StoreModel, u: Seq<char>, c: CommandModel) -> StoreModel {
    StoreModel { commands: s.commands.insert(u, with_command(commands_of(s.commands, u), c)), ..s }
}

/// The store that loading the given table entries builds: in each table a
/// later entry overrides an earlier one with the same key.
pub open spec fn loaded(
    ips: Seq<(IpAddress, Seq<Seq<char>>)>,
    passwords: Seq<(Seq<char>, Seq<char>)>,
    commands: Seq<(Seq<char>, Seq<CommandModel>)>,
    tokens: Seq<(Seq<char>, Seq<char>)>,
) -> StoreModel {
    StoreModel {
        ips: fold_insert(ips),
        passwords: fold_insert(passwords),
        commands: fold_insert(commands),
        tokens: fold_insert(tokens),
    }
}

/// The store that the persisted tables stand for.
pub struct AuthOptions {
    pub ips: IpAllowList,
    pub passwords: CredentialMap,
    pub commands: CommandTable,
    pub tokens: CredentialMap,
}

impl View for AuthOptions {
    type V = StoreModel;

    open spec fn view(&self) -> StoreModel {
        StoreModel {
            ips: self.ips@,
            passwords: self.passwords@,
            commands: self.commands@,
            tokens: self.tokens@,
        }
    }
}

impl Default for AuthOptions {
    /// An empty store.
    fn default() -> (r: AuthOptions)
        ensures
            r.wf(),
            r@.ips == Map::<IpAddress, Seq<Seq<char>>>::empty(),
            r@.passwords == Map::<Seq<char>, Seq<char>>::empty(),
            r@.commands == Map::<Seq<char>, Seq<CommandModel>>::empty(),
            r@.tokens == Map::<Seq<char>, Seq<char>>::empty(),
    {
        AuthOptions::new()
    }
}

impl AuthOptions {
    pub open spec fn wf(&self) -> bool {
        &&& self.ips.wf()
        &&& self.passwords.wf()
        &&& self.commands.wf()
        &&& self.tokens.wf()
    }

    /// An empty store.
    pub fn new() -> (r: AuthOptions)
        ensures
            r.wf(),
            r@.ips == Map::<IpAddress, Seq<Seq<char>>>::empty(),
            r@.passwords == Map::<Seq<char>, Seq<char>>::empty(),
            r@.commands == Map::<Seq<char>, Seq<CommandModel>>::empty(),
            r@.tokens == Map::<Seq<char>, Seq<char>>::empty(),
    {
        AuthOptions {
            ips: IpAllowList::new(),
            passwords: CredentialMap::new(),
            commands: CommandTable::new(),
            tokens: CredentialMap::new(),
        }
    }

    /// A store built from persisted table entries.
    pub fn from_entries(
        ips: Vec<(IpAddress, Vec<Username>)>,
        passwords: Vec<(String, Username)>,
        commands: Vec<(Username, Vec<UserCommand>)>,
        tokens: Vec<(String, Username)>,
    ) -> (r: AuthOptions)
        ensures
            r.wf(),
            r@ == loaded(ip_pairs(ips@), secret_pairs(passwords@), command_pairs(commands@), secret_pairs(tokens@)),
    {
        AuthOptions {
            ips: IpAllowList::from_entries(ips),
            passwords: CredentialMap::from_entries(passwords),
            commands: CommandTable::from_entries(commands),
            tokens: CredentialMap::from_entries(tokens),
        }
    }

    /// Stores `encoded` as the only credential of `username`: earlier
    /// credentials of that user stop authenticating.
    pub fn set_encoded_password(&mut self, username: Username, encoded: String)
        requires
            old(self).wf(),
        ensures
            final(self).wf(),
            final(self)@ == (StoreModel {
                passwords: with_credential(old(self)@.passwords, username@, encoded@),
                ..old(self)@
            }),
    {
        self.passwords.remove_user(&username);
        self.passwords.insert(encoded, username);
    }

    /// Gives `username` the password `password`, replacing any earlier one.
    pub fn add_password(&mut self, username: String, password: String)
        requires
            old(self).wf(),
        ensures
            final(self).wf(),
            final(self)@ == with_password(old(self)@, username@, password@),
    {
        let encoded = encode_credential(username.as_str(), password.as_str());
        self.set_encoded_password(Username::new(username), encoded);
    }

    /// Removes every password of `username`.
    pub fn remove_password_by_user(&mut self, username: String)
        requires
            old(self).wf(),
        ensures
            final(self).wf(),
            final(self)@ == (StoreModel { passwords: without_user(old(self)@.passwords, username@), ..old(self)@ }),
    {
        let user = Username::new(username);
        self.passwords.remove_user(&user);
    }

    /// The user that `encoded` authenticates as a password credential.
    pub fn check_password(&self, encoded: &String) -> (r: Option<Username>)
        requires
            self.wf(),
        ensures
            match r {
                Some(u) => self@.passwords.contains_key(encoded@) && self@.passwords[encoded@] == u@,
                None => !self@.passwords.contains_key(encoded@),
            },
    {
        self.passwords.get(encoded)
    }

    /// The user that bypass token `token` authenticates.
    pub fn check_token(&self, token: &String) -> (r: Option<Username>)
        requires
            self.wf(),
        ensures
            match r {
                Some(u) => self@.tokens.contains_key(token@) && self@.tokens[token@] == u@,
                None => !self@.tokens.contains_key(token@),
            },
    {
        self.tokens.get(token)
    }

    /// Makes `token` a bypass token of `username`.
    pub fn add_token(&mut self, token: String, username: Username)
        requires
            old(self).wf(),
        ensures
            final(self).wf(),
            final(self)@ == (StoreModel { tokens: old(self)@.tokens.insert(token@, username@), ..old(self)@ }),
    {
        self.tokens.insert(token, username);
    }

    /// Revokes `token`; nothing changes when it is not a token.
    pub fn remove_token(&mut self, token: &String)
        requires
            old(self).wf(),
        ensures
            final(self).wf(),
            final(self)@ == without_token(old(self)@, token@),
    {
        self.tokens.remove(token);
    }

    /// Revokes every bypass token.
    pub fn clear_tokens(&mut self)
        requires
            old(self).wf(),
        ensures
            final(self).wf(),
            final(self)@ == (StoreModel { tokens: Map::<Seq<char>, Seq<char>>::empty(), ..old(self)@ }),
    {
        self.tokens.clear();
    }

    /// Appends `command` to `username`'s commands, replacing those with the
    /// same label.
    pub fn add_command(&mut self, username: &Username, command: UserCommand)
        requires
            old(self).wf(),
        ensures
            final(self).wf(),
            final(self)@ == with_user_command(old(self)@, username@, command@),
    {
        self.commands.add(username, command);
    }

    /// Removes `username`'s commands labelled `command_name`.
    pub fn remove_command_by_name(&mut self, username: &Username, command_name: String)
        requires
            old(self).wf(),
        ensures
            final(self).wf(),
            final(self)@ == (StoreModel {
                commands: old(self)@.commands.insert(
                    username@,
                    without_name(commands_of(old(self)@.commands, username@), command_name@),
                ),
                ..old(self)@
            }),
    {
        self.commands.remove_by_name(username, &command_name);
    }

    /// Removes `username`'s command at `command_index`, when there is one.
    pub fn remove_command_by_index(&mut self, username: &Username, command_index: usize)
        requires
            old(self).wf(),
        ensures
            final(self).wf(),
            final(self)@ == (StoreModel {
                commands: old(self)@.commands.insert(
                    username@,
                    without_index(commands_of(old(self)@.commands, username@), command_index as int),
                ),
                ..old(self)@
            }),
    {
        self.commands.remove_by_index(username, command_index);
    }

    /// Removes the commands of `username`, or of every user when none is given.
    pub fn remove_all_commands(&mut self, username: Option<Username>)
        requires
            old(self).wf(),
        ensures
            final(self).wf(),
            final(self)@ == (StoreModel {
                commands: match username {
                    Some(u) => old(self)@.commands.remove(u@),
                    None => Map::<Seq<char>, Seq<CommandModel>>::empty(),
                },
                ..old(self)@
            }),
    {
        match username {
            Some(u) => self.commands.remove_user(&u),
            None => self.commands.clear(),
        }
    }

    /// Allows `ip` in and, when a user is given, binds that user to it.
    pub fn add_ip_and_user(&mut self, ip: IpAddress, username: Option<&Username>)
        requires
            old(self).wf(),
        ensures
            final(self).wf(),
            final(self)@ == (StoreModel {
                ips: with_binding(old(self)@.ips, ip, match username {
                    Some(u) => Some(u@),
                    None => None,
                }),
                ..old(self)@
            }),
    {
        self.ips.add(ip, username);
    }

    /// Removes `ip` and the users bound to it.
    pub fn remove_ip(&mut self, ip: &IpAddress)
        requires
            old(self).wf(),
        ensures
            final(self).wf(),
            final(self)@ == (StoreModel { ips: old(self)@.ips.remove(*ip), ..old(self)@ }),
    {
        self.ips.remove(*ip);
    }

    /// Removes every address from the allow-list.
    pub fn clear_ips(&mut self)
        requires
            old(self).wf(),
        ensures
            final(self).wf(),
            final(self)@ == (StoreModel { ips: Map::<IpAddress, Seq<Seq<char>>>::empty(), ..old(self)@ }),
    {
        self.ips.clear();
    }

    /// A copy of `username`'s commands, in the order they run.
    pub fn commands_for(&self, username: &Username) -> (r: Vec<UserCommand>)
        requires
            self.wf(),
        ensures
            crate::commands::commands_view(r@) == commands_of(self@.commands, username@),
    {
        self.commands.get(username)
    }
}

} // verus!
