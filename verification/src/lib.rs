//! Harbor: secrets grouped by project and scoped to an environment,
//! encrypted with ChaCha20-Poly1305.
pub mod text;
pub mod environment;
pub mod secrets;
pub mod crypto;
pub mod keys;
pub mod config;
pub mod store;
pub mod commands;
pub mod paths;
pub mod server;

pub use environment::{Environment, EnvironmentParseError};
pub use commands::{Cli, Commands, ProjectCommands};
pub use paths::expand_tilde;
pub use secrets::parse_secret_pairs;
