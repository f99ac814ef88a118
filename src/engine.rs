//! The authorization decision: which signal of a request, if any,
//! authenticates it, and what the store learns from it.
use vstd::prelude::*;
use crate::allow_list::with_binding;
use crate::command::{CommandModel, UserCommand, opt_view};
use crate::commands::{commands_of, commands_view};
use crate::ip::IpAddress;
use crate::store::{AuthOptions, StoreModel};
use crate::username::Username;

verus! {

/// How a request was authenticated.
#[derive(Clone, Copy, Debug, PartialEq, Eq, Structural)]
pub enum AuthMethod {
    ClientIp,
    BasicAuth,
    BypassTokenQuery,
    BypassTokenHeader,
    BypassTokenPath,
}

impl AuthMethod {
    /// The method's name, as reported to the proxy.
    pub fn name(&self) -> (r: &'static str)
        ensures
            r@ == method_name(*self),
    {
        match self {
            AuthMethod::ClientIp => "ClientIp",
            AuthMethod::BasicAuth => "BasicAuth",
            AuthMethod::BypassTokenQuery => "BypassTokenQuery",
            AuthMethod::BypassTokenHeader => "BypassTokenHeader",
            AuthMethod::BypassTokenPath => "BypassTokenPath",
        }
    }
}

pub open spec fn method_name(m: AuthMethod) -> Seq<char> {
    match m {
        AuthMethod::ClientIp => "ClientIp"@,
        AuthMethod::BasicAuth => "BasicAuth"@,
        AuthMethod::BypassTokenQuery => "BypassTokenQuery"@,
        AuthMethod::BypassTokenHeader => "BypassTokenHeader"@,
        AuthMethod::BypassTokenPath => "BypassTokenPath"@,
    }
}

/// The outcome of evaluating a request.
#[derive(Debug)]
pub enum AuthVerdict {
    Unauthenticated,
    /// `user` is the identity that the signal bound; the address check binds none.
    Authenticated { method: AuthMethod, user: Option<Username> },
}

/// A verdict as plain values.
pub enum VerdictModel {
    Unauthenticated,
    Authenticated { method: AuthMethod, user: Option<Seq<char>> },
}

impl View for AuthVerdict {
    type V = VerdictModel;

    open spec fn view(&self) -> VerdictModel {
        match self {
            AuthVerdict::Unauthenticated => VerdictModel::Unauthenticated,
            AuthVerdict::Authenticated { method, user } => VerdictModel::Authenticated {
                method: *method,
                user: match user {
                    Some(u) => Some(u@),
                    None => None,
                },
            },
        }
    }
}

/// The signals of one request, as the transport extracted them.
#[derive(Debug)]
pub struct AuthRequest {
    /// The client address, when a trusted header gave a parsable one.
    pub client_ip: Option<IpAddress>,
    /// The `Authorization` header.
    pub authorization: Option<String>,
    /// The bypass token of the custom header.
    pub header_token: Option<String>,
    /// The bypass token of the query string.
    pub query_token: Option<String>,
    /// The unmatched tail of the request path.
    pub path_tail: String,
}

/// A request's signals as plain values.
pub struct RequestModel {
    pub client_ip: Option<IpAddress>,
    pub authorization: Option<Seq<char>>,
    pub header_token: Option<Seq<char>>,
    pub query_token: Option<Seq<char>>,
    pub path_tail: Seq<char>,
}

impl View for AuthRequest {
    type V = RequestModel;

    open spec fn view(&self) -> RequestModel {
        RequestModel {
            client_ip: self.client_ip,
            authorization: opt_view(self.authorization),
            header_token: opt_view(self.header_token),
            query_token: opt_view(self.query_token),
            path_tail: self.path_tail@,
        }
    }
}

/// What the store should do after a request: the verdict, whether the store
/// changed and must be persisted, and the commands to run, in order.
#[derive(Debug)]
pub struct AuthOutcome {
    pub verdict: AuthVerdict,
    pub persist: bool,
    pub commands: Vec<UserCommand>,
}

/// The credential of an `Authorization` header: the text after a leading
/// `Basic `, or the whole header when it has no such prefix.
pub open spec fn basic_credential(h: Seq<char>) -> Seq<char> {
    if h.len() >= 6 && h.take(6) == seq!['B', 'a', 's', 'i', 'c', ' '] {
        h.skip(6)
    } else {
        h
    }
}

/// The end of `p.take(j)` once trailing slashes are dropped.
pub open spec fn trailing_end(p: Seq<char>, j: int) -> int
    decreases j,
{
    if j > 0 && p[j - 1] == '/' {
        trailing_end(p, j - 1)
    } else {
        j
    }
}

/// The start of the slash-free run that ends at `j`.
pub open spec fn component_start(p: Seq<char>, j: int) -> int
    decreases j,
{
    if j > 0 && p[j - 1] != '/' {
        component_start(p, j - 1)
    } else {
        j
    }
}

/// The last non-empty `/`-separated component of a path, if any.
pub open spec fn path_token(p: Seq<char>) -> Option<Seq<char>> {
    let e = trailing_end(p, p.len() as int);
    let s = component_start(p, e);
    if s == e {
        None
    } else {
        Some(p.subrange(s, e))
    }
}

/// A token signal that is present and not empty.
pub open spec fn given_token(t: Option<Seq<char>>) -> Option<Seq<char>> {
    match t {
        Some(s) => if s.len() > 0 { Some(s) } else { None },
        None => None,
    }
}

/// The verdict for a request: the address, then basic auth, then the query,
/// header and path tokens, the first that matches deciding.
pub open spec fn decide(s: StoreModel, r: RequestModel) -> VerdictModel {
    if r.client_ip.is_some() && s.ips.contains_key(r.client_ip.unwrap()) {
        VerdictModel::Authenticated { method: AuthMethod::ClientIp, user: None }
    } else if r.authorization.is_some()
        && s.passwords.contains_key(basic_credential(r.authorization.unwrap())) {
        VerdictModel::Authenticated {
            method: AuthMethod::BasicAuth,
            user: Some(s.passwords[basic_credential(r.authorization.unwrap())]),
        }
    } else if given_token(r.query_token).is_some()
        && s.tokens.contains_key(given_token(r.query_token).unwrap()) {
        VerdictModel::Authenticated {
            method: AuthMethod::BypassTokenQuery,
            user: Some(s.tokens[given_token(r.query_token).unwrap()]),
        }
    } else if given_token(r.header_token).is_some()
        && s.tokens.contains_key(given_token(r.header_token).unwrap()) {
        VerdictModel::Authenticated {
            method: AuthMethod::BypassTokenHeader,
            user: Some(s.tokens[given_token(r.header_token).unwrap()]),
        }
    } else if path_token(r.path_tail).is_some()
        && s.tokens.contains_key(path_token(r.path_tail).unwrap()) {
        VerdictModel::Authenticated {
            method: AuthMethod::BypassTokenPath,
            user: Some(s.tokens[path_token(r.path_tail).unwrap()]),
        }
    } else {
        VerdictModel::Unauthenticated
    }
}

/// The user that a verdict binds, if any.
pub open spec fn bound_user(v: VerdictModel) -> Option<Seq<char>> {
    match v {
        VerdictModel::Authenticated { user: Some(u), .. } => Some(u),
        _ => None,
    }
}

/// Whether the request teaches the store a new (address, user) binding: a
/// user was bound and an address given.
pub open spec fn learns(s: StoreModel, r: RequestModel) -> bool {
    bound_user(decide(s, r)).is_some() && r.client_ip.is_some()
}

/// The store after a request: a bound user from a given address is added
/// to that address's users.
pub open spec fn after_request(s: StoreModel, r: RequestModel) -> StoreModel {
    if learns(s, r) {
        StoreModel {
            ips: with_binding(s.ips, r.client_ip.unwrap(), bound_user(decide(s, r))),
            ..s
        }
    } else {
        s
    }
}

/// The commands to run after a request: those of the bound user, if any.
pub open spec fn commands_to_run(s: StoreModel, r: RequestModel) -> Seq<CommandModel> {
    match bound_user(decide(s, r)) {
        Some(u) => commands_of(s.commands, u),
        None => Seq::empty(),
    }
}

/// The credential part of an `Authorization` header.
pub fn strip_basic(header: &str) -> (r: String)
    ensures
        r@ == basic_credential(header@),
{
    let n = header.unicode_len();
    if n >= 6 && header.get_char(0) == 'B' && header.get_char(1) == 'a' && header.get_char(2) == 's'
        && header.get_char(3) == 'i' && header.get_char(4) == 'c' && header.get_char(5) == ' ' {
        proof {
            assert(header@.take(6) =~= seq!['B', 'a', 's', 'i', 'c', ' ']);
        }
        header.substring_char(6, n).to_string()
    } else {
        proof {
            if header@.len() >= 6 && header@.take(6) == seq!['B', 'a', 's', 'i', 'c', ' '] {
                assert(header@[0] == header@.take(6)[0]);
                assert(header@[1] == header@.take(6)[1]);
                assert(header@[2] == header@.take(6)[2]);
                assert(header@[3] == header@.take(6)[3]);
                assert(header@[4] == header@.take(6)[4]);
                assert(header@[5] == header@.take(6)[5]);
            }
        }
        header.to_string()
    }
}

/// The last non-empty `/`-separated component of a request path.
pub fn last_path_component(path: &str) -> (r: Option<String>)
    ensures
        match r {
            Some(t) => path_token(path@) == Some(t@),
            None => path_token(path@).is_none(),
        },
{
    let n = path.unicode_len();
    let mut end: usize = n;
    while end > 0 && path.get_char(end - 1) == '/'
        invariant
            end <= n,
            n == path@.len(),
            trailing_end(path@, end as int) == trailing_end(path@, n as int),
        decreases end,
    {
        end = end - 1;
    }
    let mut start: usize = end;
    while start > 0 && path.get_char(start - 1) != '/'
        invariant
            start <= end <= n,
            n == path@.len(),
            trailing_end(path@, n as int) == end,
            component_start(path@, start as int) == component_start(path@, end as int),
        decreases start,
    {
        start = start - 1;
    }
    if start == end {
        None
    } else {
        Some(path.substring_char(start, end).to_string())
    }
}

/// A token signal that is present and not empty.
fn nonempty(t: &Option<String>) -> (r: Option<&String>)
    ensures
        match r {
            Some(s) => given_token(opt_view(*t)) == Some(s@),
            None => given_token(opt_view(*t)).is_none(),
        },
{
    match t {
        Some(s) => if s.as_str().unicode_len() > 0 { Some(s) } else { None },
        None => None,
    }
}

impl AuthOptions {
    /// Evaluates a request against the store, without changing it.
    pub fn evaluate(&self, request: &AuthRequest) -> (r: AuthVerdict)
        requires
            self.wf(),
        ensures
            r@ == decide(self@, request@),
    {
        if let Some(ip) = request.client_ip {
            if self.ips.contains(ip) {
                return AuthVerdict::Authenticated { method: AuthMethod::ClientIp, user: None };
            }
        }
        if let Some(h) = &request.authorization {
            let credential = strip_basic(h.as_str());
            if let Some(u) = self.check_password(&credential) {
                return AuthVerdict::Authenticated { method: AuthMethod::BasicAuth, user: Some(u) };
            }
        }
        if let Some(t) = nonempty(&request.query_token) {
            if let Some(u) = self.check_token(t) {
                return AuthVerdict::Authenticated { method: AuthMethod::BypassTokenQuery, user: Some(u) };
            }
        }
        if let Some(t) = nonempty(&request.header_token) {
            if let Some(u) = self.check_token(t) {
                return AuthVerdict::Authenticated { method: AuthMethod::BypassTokenHeader, user: Some(u) };
            }
        }
        if let Some(t) = last_path_component(request.path_tail.as_str()) {
            if let Some(u) = self.check_token(&t) {
                return AuthVerdict::Authenticated { method: AuthMethod::BypassTokenPath, user: Some(u) };
            }
        }
        AuthVerdict::Unauthenticated
    }

    /// Decides a request and applies its learn step: a user bound from a
    /// given address is added to that address's users. The outcome says
    /// whether the store must now be persisted and which commands to run.
    pub fn authorize(&mut self, request: &AuthRequest) -> (r: AuthOutcome)
        requires
            old(self).wf(),
        ensures
            final(self).wf(),
            r.verdict@ == decide(old(self)@, request@),
            final(self)@ == after_request(old(self)@, request@),
            r.persist == learns(old(self)@, request@),
            commands_view(r.commands@) == commands_to_run(old(self)@, request@),
    {
        let verdict = self.evaluate(request);
        let mut persist = false;
        let mut commands: Vec<UserCommand> = Vec::new();
        if let AuthVerdict::Authenticated { user: Some(u), .. } = &verdict {
            commands = self.commands_for(u);
            if let Some(ip) = request.client_ip {
                self.add_ip_and_user(ip, Some(u));
                persist = true;
            }
        } else {
            proof {
                assert(commands_view(commands@) =~= Seq::<CommandModel>::empty());
            }
        }
        AuthOutcome { verdict, persist, commands }
    }
}

} // verus!
