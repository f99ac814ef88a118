use vstd::prelude::*;

verus! {

/// The failures that the service reports.
#[derive(Debug)]
pub enum RauthyError {
    Generic,
    CommandError(String),
    ServerError(String),
    ConfigError(String),
    UserCommandError(String),
    RegexError(String),
    /// An account was submitted with a blank username.
    InvalidUserName,
}

impl RauthyError {
    /// The text of `message`: a prefix naming the kind of failure, then its detail.
    pub open spec fn message_spec(&self) -> Seq<char> {
        match self {
            RauthyError::Generic => "General Error"@,
            RauthyError::CommandError(s) => "Command Execution Error: "@ + s@,
            RauthyError::ServerError(s) => "Server Error: "@ + s@,
            RauthyError::ConfigError(s) => "Config Error: "@ + s@,
            RauthyError::UserCommandError(s) => "User Command Error: "@ + s@,
            RauthyError::RegexError(s) => "Regex Error: "@ + s@,
            RauthyError::InvalidUserName => "Invalid User Name"@,
        }
    }

    /// A readable description of the failure.
    pub fn message(&self) -> (r: String)
        ensures
            r@ == self.message_spec(),
    {
        let (prefix, detail): (&str, Option<&String>) = match self {
            RauthyError::Generic => ("General Error", None),
            RauthyError::CommandError(s) => ("Command Execution Error: ", Some(s)),
            RauthyError::ServerError(s) => ("Server Error: ", Some(s)),
            RauthyError::ConfigError(s) => ("Config Error: ", Some(s)),
            RauthyError::UserCommandError(s) => ("User Command Error: ", Some(s)),
            RauthyError::RegexError(s) => ("Regex Error: ", Some(s)),
            RauthyError::InvalidUserName => ("Invalid User Name", None),
        };
        let mut r = String::new();
        r.append(prefix);
        if let Some(d) = detail {
            r.append(d.as_str());
        }
        proof {
            assert(r@ =~= self.message_spec());
        }
        r
    }
}

} // verus!
