//! An authorization companion for reverse proxies: a credential store, the
//! administrative operations that edit it, and the decision engine that
//! grants or refuses each request.

pub mod admin;
pub mod allow_list;
pub mod assoc;
pub mod command;
pub mod commands;
pub mod credentials;
pub mod encoding;
pub mod engine;
pub mod error;
pub mod ip;
pub mod laws;
pub mod proxy;
pub mod store;
pub mod username;

pub use admin::{AddUser, add_user, register_user};
pub use allow_list::IpAllowList;
pub use command::UserCommand;
pub use commands::CommandTable;
pub use credentials::CredentialMap;
pub use encoding::encode_credential;
pub use engine::{AuthMethod, AuthOutcome, AuthRequest, AuthVerdict};
pub use error::RauthyError;
pub use ip::IpAddress;
pub use proxy::{ProxyEndpoint, ProxyOptions};
pub use store::AuthOptions;
pub use username::Username;
