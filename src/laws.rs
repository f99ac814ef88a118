//! Properties that hold across the store's operations and the engine.
use vstd::prelude::*;
use crate::allow_list::with_binding;
use crate::assoc::{distinct_keys, to_map, lemma_fold_insert_distinct};
use crate::command::CommandModel;
use crate::commands::commands_of;
use crate::credentials::without_user;
use crate::encoding::credential_of;
use crate::engine::{AuthMethod, RequestModel, VerdictModel, after_request, bound_user, decide};
use crate::ip::IpAddress;
use crate::store::{StoreModel, loaded, with_password, with_user_command, without_token};

verus! {

/// After `AddPassword(u, p)` the credential of `u` and `p` resolves to `u`,
/// and no other credential resolves to `u`.
pub proof fn lemma_add_password_replaces(s: StoreModel, u: Seq<char>, p: Seq<char>)
    ensures
        with_password(s, u, p).passwords.contains_key(credential_of(u, p)),
        with_password(s, u, p).passwords[credential_of(u, p)] == u,
        forall|k: Seq<char>|
            #![trigger with_password(s, u, p).passwords[k]]
            with_password(s, u, p).passwords.contains_key(k) && with_password(s, u, p).passwords[k] == u
                ==> k == credential_of(u, p),
{
    let m = with_password(s, u, p).passwords;
    assert forall|k: Seq<char>| #![trigger m[k]] m.contains_key(k) && m[k] == u implies k == credential_of(u, p) by {
        if k != credential_of(u, p) {
            assert(without_user(s.passwords, u).contains_key(k));
        }
    }
}

proof fn lemma_filter_all(l: Seq<CommandModel>, pred: spec_fn(CommandModel) -> bool)
    requires
        forall|j: int| 0 <= j < l.len() ==> pred(#[trigger] l[j]),
    ensures
        l.filter(pred) == l,
    decreases l.len(),
{
    reveal(Seq::filter);
    if l.len() > 0 {
        let p = l.drop_last();
        assert forall|j: int| 0 <= j < p.len() implies pred(#[trigger] p[j]) by {
            assert(p[j] == l[j]);
        }
        lemma_filter_all(p, pred);
        assert(pred(l[l.len() - 1]));
        assert(p.push(l.last()) =~= l);
    }
}

proof fn lemma_filter_drops_one(l: Seq<CommandModel>, pred: spec_fn(CommandModel) -> bool, i: int)
    requires
        0 <= i < l.len(),
        !pred(l[i]),
        forall|j: int| 0 <= j < l.len() && j != i ==> pred(#[trigger] l[j]),
    ensures
        l.filter(pred).len() == l.len() - 1,
    decreases l.len(),
{
    reveal(Seq::filter);
    let p = l.drop_last();
    if i == l.len() - 1 {
        assert forall|j: int| 0 <= j < p.len() implies pred(#[trigger] p[j]) by {
            assert(p[j] == l[j]);
        }
        lemma_filter_all(p, pred);
    } else {
        assert forall|j: int| 0 <= j < p.len() && j != i implies pred(#[trigger] p[j]) by {
            assert(p[j] == l[j]);
        }
        assert(p[i] == l[i]);
        lemma_filter_drops_one(p, pred, i);
        assert(pred(l[l.len() - 1]));
    }
}

/// Re-adding a command under a label that the user's list holds once leaves
/// the list as long as before, with one command under that label: the new
/// one, now last.
pub proof fn lemma_readd_command_replaces(s: StoreModel, u: Seq<char>, c: CommandModel, i: int)
    requires
        c.name.is_some(),
        0 <= i < commands_of(s.commands, u).len(),
        commands_of(s.commands, u)[i].name == c.name,
        forall|j: int|
            0 <= j < commands_of(s.commands, u).len() && j != i
                ==> (#[trigger] commands_of(s.commands, u)[j]).name != c.name,
    ensures
        with_user_command(s, u, c).commands.contains_key(u),
        with_user_command(s, u, c).commands[u].len() == commands_of(s.commands, u).len(),
        with_user_command(s, u, c).commands[u].last() == c,
        forall|j: int|
            0 <= j < with_user_command(s, u, c).commands[u].len() - 1
                ==> (#[trigger] with_user_command(s, u, c).commands[u][j]).name != c.name,
{
    let l = commands_of(s.commands, u);
    let n = c.name.unwrap();
    let pred = |x: CommandModel| x.name != Some(n);
    lemma_filter_drops_one(l, pred, i);
    let f = l.filter(pred);
    assert(with_user_command(s, u, c).commands[u] == f.push(c));
    assert forall|j: int| 0 <= j < f.len() implies (#[trigger] f.push(c)[j]).name != c.name by {
        l.filter_lemma(pred);
        assert(pred(f[j]));
    }
}

/// Revoking a token that is not in the store leaves the store unchanged.
pub proof fn lemma_remove_absent_token(s: StoreModel, t: Seq<char>)
    requires
        !s.tokens.contains_key(t),
    ensures
        without_token(s, t) == s,
{
    assert(s.tokens.remove(t) =~= s.tokens);
}

/// An allowed client address decides a request alone, whatever credentials
/// or tokens the request also carries.
pub proof fn lemma_client_ip_first(s: StoreModel, r: RequestModel, ip: IpAddress)
    requires
        r.client_ip == Some(ip),
        s.ips.contains_key(ip),
    ensures
        decide(s, r) == (VerdictModel::Authenticated { method: AuthMethod::ClientIp, user: None }),
{
}

/// Once a request binds a user from an address, every later request from
/// that address is allowed by address, with or without credentials.
pub proof fn lemma_learned_address_allows(s: StoreModel, r: RequestModel, next: RequestModel, ip: IpAddress)
    requires
        r.client_ip == Some(ip),
        bound_user(decide(s, r)).is_some(),
        next.client_ip == Some(ip),
    ensures
        decide(after_request(s, r), next) == (VerdictModel::Authenticated {
            method: AuthMethod::ClientIp,
            user: None,
        }),
{
    assert(after_request(s, r).ips == with_binding(s.ips, ip, bound_user(decide(s, r))));
}

/// Loading the entries that a store hands out for saving rebuilds the same
/// store: the same addresses with their user lists in order, the same
/// credentials and tokens, and the same command lists in order.
pub proof fn lemma_save_load_round_trip(
    s: StoreModel,
    ips: Seq<(IpAddress, Seq<Seq<char>>)>,
    passwords: Seq<(Seq<char>, Seq<char>)>,
    commands: Seq<(Seq<char>, Seq<CommandModel>)>,
    tokens: Seq<(Seq<char>, Seq<char>)>,
)
    requires
        distinct_keys(ips) && to_map(ips) == s.ips,
        distinct_keys(passwords) && to_map(passwords) == s.passwords,
        distinct_keys(commands) && to_map(commands) == s.commands,
        distinct_keys(tokens) && to_map(tokens) == s.tokens,
    ensures
        loaded(ips, passwords, commands, tokens) == s,
{
    lemma_fold_insert_distinct(ips);
    lemma_fold_insert_distinct(passwords);
    lemma_fold_insert_distinct(commands);
    lemma_fold_insert_distinct(tokens);
}

} // verus!
