use rauthy::{AuthOptions, IpAddress, RauthyError, UserCommand, Username, encode_credential};

fn s(text: &str) -> String {
    text.to_string()
}

fn user(text: &str) -> Username {
    Username::new(s(text))
}

fn cmd(name: Option<&str>, path: Option<&str>, command: &str) -> UserCommand {
    UserCommand::new(name.map(s), path.map(s), s(command))
}

fn users_at(options: &AuthOptions, ip: IpAddress) -> Option<Vec<Username>> {
    options
        .ips
        .entries()
        .iter()
        .find(|(k, _)| *k == ip)
        .map(|(_, users)| users.clone())
}

#[test]
fn encode_credential_is_url_safe_base64() {
    assert_eq!(encode_credential("bob", "s3cret"), "Ym9iOnMzY3JldA==");
    assert_eq!(encode_credential("alice", "pw"), "YWxpY2U6cHc=");
    assert_eq!(encode_credential(">", ">"), "Pjo-");
}

#[test]
fn add_password_resolves_to_user() {
    let mut options = AuthOptions::new();
    options.add_password(s("alice"), s("pw"));
    assert_eq!(options.check_password(&s("YWxpY2U6cHc=")), Some(user("alice")));
    assert_eq!(options.check_password(&s("alice:pw")), None);
}

#[test]
fn add_password_replaces_earlier_password() {
    let mut options = AuthOptions::new();
    options.add_password(s("alice"), s("pw"));
    options.add_password(s("bob"), s("s3cret"));
    options.add_password(s("alice"), s("new"));
    assert_eq!(options.check_password(&s("YWxpY2U6cHc=")), None);
    assert_eq!(options.check_password(&s("YWxpY2U6bmV3")), Some(user("alice")));
    assert_eq!(options.check_password(&s("Ym9iOnMzY3JldA==")), Some(user("bob")));
    let for_alice = options
        .passwords
        .entries()
        .iter()
        .filter(|(_, u)| *u == user("alice"))
        .count();
    assert_eq!(for_alice, 1);
}

#[test]
fn set_encoded_password_drops_other_credentials_of_user() {
    let mut options = AuthOptions::new();
    options.set_encoded_password(user("carol"), s("first"));
    options.set_encoded_password(user("carol"), s("second"));
    assert_eq!(options.check_password(&s("first")), None);
    assert_eq!(options.check_password(&s("second")), Some(user("carol")));
}

#[test]
fn remove_password_by_user_removes_only_that_user() {
    let mut options = AuthOptions::new();
    options.add_password(s("alice"), s("pw"));
    options.add_password(s("bob"), s("s3cret"));
    options.remove_password_by_user(s("alice"));
    assert_eq!(options.check_password(&s("YWxpY2U6cHc=")), None);
    assert_eq!(options.check_password(&s("Ym9iOnMzY3JldA==")), Some(user("bob")));
}

#[test]
fn tokens_add_check_remove_clear() {
    let mut options = AuthOptions::new();
    options.add_token(s("tok1"), user("alice"));
    options.add_token(s("tok2"), user("bob"));
    assert_eq!(options.check_token(&s("tok1")), Some(user("alice")));
    options.add_token(s("tok1"), user("carol"));
    assert_eq!(options.check_token(&s("tok1")), Some(user("carol")));
    options.remove_token(&s("tok1"));
    assert_eq!(options.check_token(&s("tok1")), None);
    assert_eq!(options.check_token(&s("tok2")), Some(user("bob")));
    options.clear_tokens();
    assert_eq!(options.check_token(&s("tok2")), None);
}

#[test]
fn remove_absent_token_is_a_no_op() {
    let mut options = AuthOptions::new();
    options.add_token(s("tok1"), user("alice"));
    options.remove_token(&s("missing"));
    assert_eq!(options.check_token(&s("tok1")), Some(user("alice")));
    assert_eq!(options.tokens.entries().len(), 1);
    options.remove_token(&s("missing"));
    assert_eq!(options.tokens.entries().len(), 1);
}

#[test]
fn readding_named_command_replaces_it() {
    let mut options = AuthOptions::new();
    let alice = user("alice");
    options.add_command(&alice, cmd(Some("a"), None, "first"));
    options.add_command(&alice, cmd(Some("b"), None, "second"));
    options.add_command(&alice, cmd(Some("a"), Some("/tmp"), "third"));
    let list = options.commands_for(&alice);
    assert_eq!(list.len(), 2);
    let named_a: Vec<&UserCommand> = list.iter().filter(|c| c.name == Some(s("a"))).collect();
    assert_eq!(named_a.len(), 1);
    assert_eq!(named_a[0].path, Some(s("/tmp")));
    assert_eq!(named_a[0].command, "third");
    assert_eq!(list[0].command, "second");
    assert_eq!(list[1].command, "third");
}

#[test]
fn unnamed_commands_accumulate_in_order() {
    let mut options = AuthOptions::new();
    let alice = user("alice");
    options.add_command(&alice, cmd(None, None, "one"));
    options.add_command(&alice, cmd(None, None, "one"));
    options.add_command(&alice, cmd(None, None, "two"));
    let list = options.commands_for(&alice);
    let names: Vec<&str> = list.iter().map(|c| c.command.as_str()).collect();
    assert_eq!(names, vec!["one", "one", "two"]);
    assert!(options.commands_for(&user("bob")).is_empty());
}

#[test]
fn remove_command_by_name_and_index() {
    let mut options = AuthOptions::new();
    let alice = user("alice");
    options.add_command(&alice, cmd(Some("a"), None, "first"));
    options.add_command(&alice, cmd(Some("b"), None, "second"));
    options.add_command(&alice, cmd(None, None, "third"));
    options.remove_command_by_name(&alice, s("a"));
    let list = options.commands_for(&alice);
    assert_eq!(list.len(), 2);
    assert_eq!(list[0].command, "second");
    options.remove_command_by_index(&alice, 5);
    assert_eq!(options.commands_for(&alice).len(), 2);
    options.remove_command_by_index(&alice, 0);
    let list = options.commands_for(&alice);
    assert_eq!(list.len(), 1);
    assert_eq!(list[0].command, "third");
}

#[test]
fn remove_all_commands_for_one_or_all_users() {
    let mut options = AuthOptions::new();
    options.add_command(&user("alice"), cmd(None, None, "a"));
    options.add_command(&user("bob"), cmd(None, None, "b"));
    options.remove_all_commands(Some(user("alice")));
    assert!(options.commands_for(&user("alice")).is_empty());
    assert_eq!(options.commands_for(&user("bob")).len(), 1);
    options.remove_all_commands(None);
    assert!(options.commands_for(&user("bob")).is_empty());
    assert!(options.commands.entries().is_empty());
}

#[test]
fn add_ip_and_user_deduplicates_users() {
    let mut options = AuthOptions::new();
    let ip = IpAddress::V4(0x0A00_0001);
    options.add_ip_and_user(ip, None);
    assert!(options.ips.contains(ip));
    assert_eq!(users_at(&options, ip), Some(vec![]));
    options.add_ip_and_user(ip, Some(&user("alice")));
    options.add_ip_and_user(ip, Some(&user("bob")));
    options.add_ip_and_user(ip, Some(&user("alice")));
    assert_eq!(users_at(&options, ip), Some(vec![user("alice"), user("bob")]));
}

#[test]
fn remove_ip_and_clear_ips() {
    let mut options = AuthOptions::new();
    let a = IpAddress::V4(1);
    let b = IpAddress::V6(1);
    options.add_ip_and_user(a, Some(&user("alice")));
    options.add_ip_and_user(b, None);
    options.remove_ip(&a);
    assert!(!options.ips.contains(a));
    assert!(options.ips.contains(b));
    options.remove_ip(&a);
    assert!(options.ips.contains(b));
    options.clear_ips();
    assert!(!options.ips.contains(b));
}

#[test]
fn save_then_load_round_trip() {
    let mut options = AuthOptions::new();
    let ip = IpAddress::V4(0xC000_0201);
    options.add_ip_and_user(ip, Some(&user("bob")));
    options.add_ip_and_user(ip, Some(&user("alice")));
    options.add_password(s("alice"), s("pw"));
    options.add_token(s("tok"), user("carol"));
    options.add_command(&user("alice"), cmd(Some("x"), None, "one"));
    options.add_command(&user("alice"), cmd(None, Some("/srv"), "two"));

    let loaded = AuthOptions::from_entries(
        options.ips.entries().clone(),
        options.passwords.entries().clone(),
        options.commands.entries().clone(),
        options.tokens.entries().clone(),
    );
    assert_eq!(users_at(&loaded, ip), Some(vec![user("bob"), user("alice")]));
    assert_eq!(loaded.check_password(&s("YWxpY2U6cHc=")), Some(user("alice")));
    assert_eq!(loaded.check_token(&s("tok")), Some(user("carol")));
    let list = loaded.commands_for(&user("alice"));
    assert_eq!(list.len(), 2);
    assert_eq!(list[0].command, "one");
    assert_eq!(list[1].path, Some(s("/srv")));
    assert_eq!(loaded.passwords.entries().len(), 1);
    assert_eq!(loaded.tokens.entries().len(), 1);
    assert_eq!(loaded.ips.entries().len(), 1);
}

#[test]
fn loading_duplicate_keys_keeps_the_last() {
    let loaded = AuthOptions::from_entries(
        vec![],
        vec![(s("k"), user("first")), (s("k"), user("second"))],
        vec![],
        vec![(s("t"), user("x")), (s("u"), user("y")), (s("t"), user("z"))],
    );
    assert_eq!(loaded.check_password(&s("k")), Some(user("second")));
    assert_eq!(loaded.passwords.entries().len(), 1);
    assert_eq!(loaded.check_token(&s("t")), Some(user("z")));
    assert_eq!(loaded.check_token(&s("u")), Some(user("y")));
}

#[test]
fn describe_command() {
    assert_eq!(cmd(None, None, "ls").describe(), "cd . && ls");
    assert_eq!(cmd(Some("n"), Some("/tmp"), "make").describe(), "cd /tmp && make");
}

#[test]
fn error_messages() {
    assert_eq!(RauthyError::Generic.message(), "General Error");
    assert_eq!(
        RauthyError::CommandError(s("boom")).message(),
        "Command Execution Error: boom"
    );
    assert_eq!(RauthyError::ConfigError(s("x")).message(), "Config Error: x");
    assert_eq!(RauthyError::InvalidUserName.message(), "Invalid User Name");
}

#[test]
fn username_from_string_and_equality() {
    let a: Username = s("alice").into();
    assert_eq!(a, user("alice"));
    assert_ne!(a, user("Alice"));
    assert_eq!(a.as_str(), "alice");
    assert!(a.same_as(&user("alice")));
}
