//! The project configuration kept in `.harbor.toml` at a repository's root.
//! Reading and decoding the file is the caller's; this module turns what
//! was read into a configuration.
use vstd::prelude::*;

use std::collections::HashMap;

use crate::environment::Environment;

verus! {

/// The name of the configuration file at a repository's root.
pub const MAIN_CONFIG_FILE: &'static str = ".harbor.toml";

/// The configuration of the project a repository belongs to.
#[derive(Debug, Clone, PartialEq, Eq)]
pub struct Config {
    pub name: String,
    pub version: String,
    pub default_env: Environment,
}

/// The fields of `.harbor.toml`.
#[derive(Debug, Clone, PartialEq, Eq)]
pub struct HarborToml {
    pub name: String,
    pub version: String,
    pub config: Environment,
}

/// Why the configuration could not be read.
#[derive(Debug, Clone, PartialEq, Eq)]
pub enum ConfigError {
    /// The file could not be read; `not_found` tells a missing file apart.
    Io { message: String, not_found: bool },
    /// The file is not valid TOML for a configuration.
    Toml { message: String },
}

/// The message of a configuration error, as displayed.
pub open spec fn config_error_message(e: ConfigError) -> Seq<char> {
    match e {
        ConfigError::Io { message, .. } => "IO error: "@ + message@,
        ConfigError::Toml { message } => "TOML error: "@ + message@,
    }
}

impl ConfigError {
    /// The message of the error, as displayed.
    pub fn to_string(&self) -> (r: String)
        ensures
            r@ == config_error_message(*self),
    {
        match self {
            ConfigError::Io { message, .. } => String::from_str("IO error: ").concat(message.as_str()),
            ConfigError::Toml { message } => String::from_str("TOML error: ").concat(
                message.as_str(),
            ),
        }
    }

    pub open spec fn is_not_found_spec(&self) -> bool {
        *self matches ConfigError::Io { not_found, .. } && not_found
    }

    /// Whether the error is that the file does not exist.
    pub fn is_not_found(&self) -> (r: bool)
        ensures
            r == self.is_not_found_spec(),
    {
        match self {
            ConfigError::Io { not_found, .. } => *not_found,
            ConfigError::Toml { .. } => false,
        }
    }
}

/// The advice given when `.harbor.toml` is missing: `harbor setup` writes it.
pub open spec fn missing_config_advice() -> Seq<char> {
    "Missing .harbor.toml. Run `harbor setup` first."@
}

/// What the tool reports when a command needs `.harbor.toml` and there is
/// none.
pub fn missing_config_report() -> (r: String)
    ensures
        r@ == missing_config_advice(),
{
    String::from_str("Missing .harbor.toml. Run `harbor setup` first.")
}

/// What the tool reports when the configuration cannot be read: a missing
/// file gets advice, any other failure its message.
pub fn config_error_report(err: &ConfigError) -> (r: String)
    ensures
        err.is_not_found_spec() ==> r@ == missing_config_advice(),
        !err.is_not_found_spec() ==> r@ == "Error reading config: "@ + config_error_message(*err),
{
    if err.is_not_found() {
        missing_config_report()
    } else {
        String::from_str("Error reading config: ").concat(err.to_string().as_str())
    }
}

impl HarborToml {
    pub fn new(name: String, version: String, config: Environment) -> (r: HarborToml)
        ensures
            r.name@ == name@,
            r.version@ == version@,
            r.config == config,
    {
        HarborToml { name, version, config }
    }
}

impl Config {
    /// The configuration of a repository, from the outcome of reading its
    /// `.harbor.toml`: the file's `name` and `version`, and its `config` as
    /// the default environment; a failed read is passed on.
    pub fn from_repo_root(main_file: Result<HarborToml, ConfigError>) -> (r: Result<Config, ConfigError>)
        ensures
            match main_file {
                Ok(main) => r matches Ok(c) && c.name@ == main.name@ && c.version@ == main.version@
                    && c.default_env == main.config,
                Err(e) => r == Err::<Config, ConfigError>(e),
            },
    {
        let main = match main_file {
            Ok(main) => main,
            Err(e) => return Err(e),
        };
        Ok(Config { name: main.name, version: main.version, default_env: main.config })
    }

    /// The variables handed to a command: those of the store, unchanged.
    pub fn merged_env_vars(&self, store_vars: &HashMap<String, String>) -> (r: HashMap<
        String,
        String,
    >)
        ensures
            r@ == store_vars@,
    {
        store_vars.clone()
    }
}

/// The `.harbor.toml` written by `harbor setup` for `project`: version 1,
/// the project's name, and the dev environment.
pub fn setup_file_contents(project: &str) -> (r: String)
    ensures
        r@ == "version = \"1\"\nname = \""@ + project@ + "\"\nconfig = \"dev\""@,
{
    String::from_str("version = \"1\"\nname = \"").concat(project).concat("\"\nconfig = \"dev\"")
}

} // verus!
