//! Registering an account: a password, a bypass token and a command for a
//! user, in one request.
use vstd::prelude::*;
use crate::command::{CommandModel, UserCommand, opt_view};
use crate::error::RauthyError;
use crate::store::{AuthOptions, StoreModel, with_password, with_user_command};
use crate::username::Username;

verus! {

/// What `str::trim` leaves of `s`.
pub uninterp spec fn trimmed(s: Seq<char>) -> Seq<char>;

/// Relies on `str::trim`: the result depends on the text alone.
#[verifier::external_body]
fn trim(s: &str) -> (r: String)
    ensures
        r@ == trimmed(s@),
{
    s.trim().to_string()
}

/// An account to register; absent or empty fields are left alone.
#[derive(Debug)]
pub struct AddUser {
    pub username: String,
    pub password: Option<String>,
    pub token: Option<String>,
    pub command: Option<UserCommand>,
}

/// A field that is present and not empty.
pub open spec fn filled(o: Option<Seq<char>>) -> Option<Seq<char>> {
    match o {
        Some(s) => if s.len() > 0 { Some(s) } else { None },
        None => None,
    }
}

/// The store after registering user `u`: a filled password replaces the
/// user's passwords, a filled token is bound to the user, and a command is
/// added to the user's commands.
pub open spec fn registered(
    s: StoreModel,
    u: Seq<char>,
    password: Option<Seq<char>>,
    token: Option<Seq<char>>,
    command: Option<CommandModel>,
) -> StoreModel {
    let s1 = match filled(password) {
        Some(p) => with_password(s, u, p),
        None => s,
    };
    let s2 = match filled(token) {
        Some(t) => StoreModel { tokens: s1.tokens.insert(t, u), ..s1 },
        None => s1,
    };
    match command {
        Some(c) => with_user_command(s2, u, c),
        None => s2,
    }
}

pub open spec fn command_view(c: Option<UserCommand>) -> Option<CommandModel> {
    match c {
        Some(c) => Some(c@),
        None => None,
    }
}

fn filled_text(o: Option<String>) -> (r: Option<String>)
    ensures
        opt_view(r) == filled(opt_view(o)),
{
    match o {
        Some(s) => if s.as_str().unicode_len() > 0 { Some(s) } else { None },
        None => None,
    }
}

/// Registers the account of `username`, already trimmed; a blank name is
/// refused and leaves the store as it was.
pub fn register_user(
    options: &mut AuthOptions,
    username: String,
    password: Option<String>,
    token: Option<String>,
    command: Option<UserCommand>,
) -> (r: Result<(), RauthyError>)
    requires
        old(options).wf(),
    ensures
        final(options).wf(),
        r.is_err() <==> username@.len() == 0,
        r.is_err() ==> r == Err::<(), RauthyError>(RauthyError::InvalidUserName) && final(options)@ == old(options)@,
        r.is_ok() ==> final(options)@ == registered(
            old(options)@,
            username@,
            opt_view(password),
            opt_view(token),
            command_view(command),
        ),
{
    if username.as_str().unicode_len() == 0 {
        return Err(RauthyError::InvalidUserName);
    }
    if let Some(p) = filled_text(password) {
        options.add_password(username.clone(), p);
    }
    let ghost s1 = options@;
    if let Some(t) = filled_text(token) {
        options.remove_token(&t);
        options.add_token(t, Username::new(username.clone()));
        proof {
            assert(options@.tokens =~= s1.tokens.insert(t@, username@));
        }
    }
    if let Some(c) = command {
        options.add_command(&Username::new(username), c);
    }
    Ok(())
}

/// Registers an account, its username trimmed first; a username that is
/// blank once trimmed is refused and leaves the store as it was.
pub fn add_user(options: &mut AuthOptions, user: AddUser) -> (r: Result<(), RauthyError>)
    requires
        old(options).wf(),
    ensures
        final(options).wf(),
        r.is_err() <==> trimmed(user.username@).len() == 0,
        r.is_err() ==> r == Err::<(), RauthyError>(RauthyError::InvalidUserName) && final(options)@ == old(options)@,
        r.is_ok() ==> final(options)@ == registered(
            old(options)@,
            trimmed(user.username@),
            opt_view(user.password),
            opt_view(user.token),
            command_view(user.command),
        ),
{
    let username = trim(user.username.as_str());
    register_user(options, username, user.password, user.token, user.command)
}

} // verus!
