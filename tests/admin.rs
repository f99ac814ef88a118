use rauthy::{AddUser, AuthOptions, RauthyError, UserCommand, Username, add_user, register_user};

fn s(text: &str) -> String {
    text.to_string()
}

fn user(text: &str) -> Username {
    Username::new(s(text))
}

#[test]
fn add_user_trims_name_and_stores_everything() {
    let mut options = AuthOptions::new();
    let result = add_user(
        &mut options,
        AddUser {
            username: s("  dave \n"),
            password: Some(s("pw1")),
            token: Some(s("dtok")),
            command: Some(UserCommand::new(Some(s("c")), None, s("echo"))),
        },
    );
    assert!(result.is_ok());
    assert_eq!(options.check_password(&s("ZGF2ZTpwdzE=")), Some(user("dave")));
    assert_eq!(options.check_token(&s("dtok")), Some(user("dave")));
    assert_eq!(options.commands_for(&user("dave")).len(), 1);
}

#[test]
fn add_user_refuses_blank_name() {
    let mut options = AuthOptions::new();
    let result = add_user(
        &mut options,
        AddUser { username: s("   "), password: Some(s("pw")), token: None, command: None },
    );
    assert!(matches!(result, Err(RauthyError::InvalidUserName)));
    assert!(options.passwords.entries().is_empty());
}

#[test]
fn register_user_skips_empty_fields() {
    let mut options = AuthOptions::new();
    options.add_password(s("erin"), s("old"));
    let result = register_user(&mut options, s("erin"), Some(s("")), Some(s("")), None);
    assert!(result.is_ok());
    assert_eq!(options.passwords.entries().len(), 1);
    assert!(options.tokens.entries().is_empty());
    let refused = register_user(&mut options, s(""), Some(s("x")), None, None);
    assert!(matches!(refused, Err(RauthyError::InvalidUserName)));
}
