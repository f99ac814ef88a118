use rauthy::engine::{last_path_component, strip_basic};
use rauthy::{AuthMethod, AuthOptions, AuthRequest, AuthVerdict, IpAddress, UserCommand, Username};

fn s(text: &str) -> String {
    text.to_string()
}

fn user(text: &str) -> Username {
    Username::new(s(text))
}

fn request(
    client_ip: Option<IpAddress>,
    authorization: Option<&str>,
    header_token: Option<&str>,
    query_token: Option<&str>,
    path_tail: &str,
) -> AuthRequest {
    AuthRequest {
        client_ip,
        authorization: authorization.map(s),
        header_token: header_token.map(s),
        query_token: query_token.map(s),
        path_tail: s(path_tail),
    }
}

fn method_and_user(v: &AuthVerdict) -> Option<(AuthMethod, Option<String>)> {
    match v {
        AuthVerdict::Unauthenticated => None,
        AuthVerdict::Authenticated { method, user } => {
            Some((*method, user.as_ref().map(|u| u.as_str().to_string())))
        }
    }
}

fn v4(a: u32, b: u32, c: u32, d: u32) -> IpAddress {
    IpAddress::V4((a << 24) | (b << 16) | (c << 8) | d)
}

#[test]
fn client_ip_wins_over_query_token() {
    let mut options = AuthOptions::new();
    let ip = v4(10, 0, 0, 7);
    options.add_ip_and_user(ip, None);
    options.add_token(s("tok"), user("alice"));
    let outcome = options.authorize(&request(Some(ip), None, None, Some("tok"), ""));
    assert_eq!(
        method_and_user(&outcome.verdict),
        Some((AuthMethod::ClientIp, None))
    );
    assert!(!outcome.persist);
    assert!(outcome.commands.is_empty());
}

#[test]
fn basic_auth_learns_client_ip() {
    let mut options = AuthOptions::new();
    options.add_password(s("alice"), s("secret"));
    let ip = v4(203, 0, 113, 5);
    let outcome = options.authorize(&request(Some(ip), Some("Basic YWxpY2U6c2VjcmV0"), None, None, ""));
    assert_eq!(
        method_and_user(&outcome.verdict),
        Some((AuthMethod::BasicAuth, Some(s("alice"))))
    );
    assert!(outcome.persist);
    assert!(options.ips.contains(ip));
    let next = options.authorize(&request(Some(ip), None, None, None, ""));
    assert_eq!(method_and_user(&next.verdict), Some((AuthMethod::ClientIp, None)));
    assert!(!next.persist);
}

#[test]
fn basic_auth_without_ip_changes_no_addresses() {
    let mut options = AuthOptions::new();
    options.add_password(s("bob"), s("s3cret"));
    let outcome = options.authorize(&request(None, Some("Basic Ym9iOnMzY3JldA=="), None, None, ""));
    assert_eq!(
        method_and_user(&outcome.verdict),
        Some((AuthMethod::BasicAuth, Some(s("bob"))))
    );
    assert!(!outcome.persist);
    assert!(options.ips.entries().is_empty());
}

#[test]
fn path_token_authenticates() {
    let mut options = AuthOptions::new();
    options.add_token(s("tok123"), user("carol"));
    let outcome = options.authorize(&request(None, None, None, None, "some/auth/tok123"));
    assert_eq!(
        method_and_user(&outcome.verdict),
        Some((AuthMethod::BypassTokenPath, Some(s("carol"))))
    );
    let trailing = options.evaluate(&request(None, None, None, None, "auth/tok123//"));
    assert_eq!(
        method_and_user(&trailing),
        Some((AuthMethod::BypassTokenPath, Some(s("carol"))))
    );
}

#[test]
fn query_token_before_header_token() {
    let mut options = AuthOptions::new();
    options.add_token(s("q"), user("alice"));
    options.add_token(s("h"), user("bob"));
    let v = options.evaluate(&request(None, None, Some("h"), Some("q"), ""));
    assert_eq!(method_and_user(&v), Some((AuthMethod::BypassTokenQuery, Some(s("alice")))));
    let v = options.evaluate(&request(None, None, Some("h"), Some("unknown"), ""));
    assert_eq!(method_and_user(&v), Some((AuthMethod::BypassTokenHeader, Some(s("bob")))));
}

#[test]
fn basic_auth_before_tokens() {
    let mut options = AuthOptions::new();
    options.add_password(s("alice"), s("pw"));
    options.add_token(s("q"), user("bob"));
    let v = options.evaluate(&request(None, Some("Basic YWxpY2U6cHc="), None, Some("q"), ""));
    assert_eq!(method_and_user(&v), Some((AuthMethod::BasicAuth, Some(s("alice")))));
    let v = options.evaluate(&request(None, Some("Basic wrong"), None, Some("q"), ""));
    assert_eq!(method_and_user(&v), Some((AuthMethod::BypassTokenQuery, Some(s("bob")))));
}

#[test]
fn empty_token_is_no_signal() {
    let mut options = AuthOptions::new();
    options.add_token(s(""), user("ghost"));
    let v = options.evaluate(&request(None, None, Some(""), Some(""), ""));
    assert!(matches!(v, AuthVerdict::Unauthenticated));
    let v = options.evaluate(&request(None, None, None, None, "///"));
    assert!(matches!(v, AuthVerdict::Unauthenticated));
}

#[test]
fn unknown_signals_are_unauthenticated() {
    let mut options = AuthOptions::new();
    options.add_token(s("tok"), user("alice"));
    let ip = v4(192, 0, 2, 1);
    let outcome = options.authorize(&request(Some(ip), Some("Basic nope"), Some("x"), Some("y"), "a/b"));
    assert!(matches!(outcome.verdict, AuthVerdict::Unauthenticated));
    assert!(!outcome.persist);
    assert!(!options.ips.contains(ip));
}

#[test]
fn authorize_returns_commands_of_bound_user() {
    let mut options = AuthOptions::new();
    let alice = user("alice");
    options.add_token(s("tok"), alice.clone());
    options.add_command(&alice, UserCommand::new(None, Some(s("/srv")), s("deploy")));
    options.add_command(&alice, UserCommand::new(None, None, s("notify")));
    let ip = IpAddress::V6(1);
    let outcome = options.authorize(&request(Some(ip), None, Some("tok"), None, ""));
    assert_eq!(
        method_and_user(&outcome.verdict),
        Some((AuthMethod::BypassTokenHeader, Some(s("alice"))))
    );
    assert!(outcome.persist);
    let names: Vec<&str> = outcome.commands.iter().map(|c| c.command.as_str()).collect();
    assert_eq!(names, vec!["deploy", "notify"]);
    let again = options.authorize(&request(Some(ip), None, Some("tok"), None, ""));
    assert_eq!(method_and_user(&again.verdict), Some((AuthMethod::ClientIp, None)));
    assert!(again.commands.is_empty());
}

#[test]
fn strip_basic_prefix() {
    assert_eq!(strip_basic("Basic abc"), "abc");
    assert_eq!(strip_basic("abc"), "abc");
    assert_eq!(strip_basic("Basic "), "");
    assert_eq!(strip_basic("basic abc"), "basic abc");
}

#[test]
fn last_path_component_cases() {
    assert_eq!(last_path_component("a/b/c"), Some(s("c")));
    assert_eq!(last_path_component("a/b/c/"), Some(s("c")));
    assert_eq!(last_path_component("tok"), Some(s("tok")));
    assert_eq!(last_path_component(""), None);
    assert_eq!(last_path_component("//"), None);
}

#[test]
fn method_names() {
    assert_eq!(AuthMethod::ClientIp.name(), "ClientIp");
    assert_eq!(AuthMethod::BypassTokenPath.name(), "BypassTokenPath");
}
