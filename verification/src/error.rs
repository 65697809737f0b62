//! Domain-specific error types, and the application errors that they become.

use crate::store::StoreError;
use crate::wire::{AppError, ErrorKind};
use vstd::prelude::*;
use vstd::string::StringExecFns;

verus! {

/// Errors of the GitHub API.
#[derive(Debug)]
pub enum GitHubError {
    Api { message: String },
    RateLimit { reset_at: String },
    Auth { message: String },
}

/// A GitHub error in words.
pub open spec fn github_error_text(e: GitHubError) -> Seq<char> {
    match e {
        GitHubError::Api { message } => "GitHub API error: "@ + message@,
        GitHubError::RateLimit { reset_at } => "GitHub rate limit exceeded, resets at "@
            + reset_at@,
        GitHubError::Auth { message } => "GitHub authentication failed: "@ + message@,
    }
}

impl GitHubError {
    /// The error as it is shown.
    pub fn to_string(&self) -> (r: String)
        ensures
            r@ == github_error_text(*self),
    {
        match self {
            GitHubError::Api { message } => prefixed("GitHub API error: ", message),
            GitHubError::RateLimit { reset_at } => prefixed(
                "GitHub rate limit exceeded, resets at ",
                reset_at,
            ),
            GitHubError::Auth { message } => prefixed("GitHub authentication failed: ", message),
        }
    }
}

fn prefixed(prefix: &str, text: &String) -> (r: String)
    ensures
        r@ == prefix@ + text@,
{
    let mut r = prefix.to_owned();
    r.append(text.as_str());
    r
}

/// The application error for a GitHub error.
pub open spec fn github_app_error(e: GitHubError) -> crate::wire::ErrorModel {
    crate::wire::ErrorModel { kind: ErrorKind::GitHub, message: github_error_text(e) }
}

impl From<GitHubError> for AppError {
    fn from(e: GitHubError) -> (r: Self)
        ensures
            r@ == github_app_error(e),
    {
        AppError::new(ErrorKind::GitHub, e.to_string())
    }
}

impl vstd::std_specs::convert::FromSpecImpl<GitHubError> for AppError {
    open spec fn obeys_from_spec() -> bool {
        false
    }

    open spec fn from_spec(e: GitHubError) -> AppError {
        arbitrary()
    }
}

/// Errors of the configuration. A path is given as it is displayed, a cause in words.
#[derive(Debug)]
pub enum ConfigError {
    ReadFile { path: String, source: String },
    Parse { source: String },
    CreateDir { path: String, source: String },
    WriteFile { path: String, source: String },
    NoToken,
}

/// A configuration error in words.
pub open spec fn config_error_text(e: ConfigError) -> Seq<char> {
    match e {
        ConfigError::ReadFile { path, source } => "Failed to read config from '"@ + path@ + "': "@
            + source@,
        ConfigError::Parse { source } => "Failed to parse config: "@ + source@,
        ConfigError::CreateDir { path, source } => "Failed to create config directory '"@ + path@
            + "': "@ + source@,
        ConfigError::WriteFile { path, source } => "Failed to write config to '"@ + path@ + "': "@
            + source@,
        ConfigError::NoToken =>
            "No GitHub token configured. Set 'token' in config.toml or GITHUB_TOKEN env var."@,
    }
}

fn about_path(prefix: &str, path: &String, source: &String) -> (r: String)
    ensures
        r@ == prefix@ + path@ + "': "@ + source@,
{
    let mut r = prefix.to_owned();
    r.append(path.as_str());
    r.append("': ");
    r.append(source.as_str());
    r
}

impl ConfigError {
    /// The error as it is shown.
    pub fn to_string(&self) -> (r: String)
        ensures
            r@ == config_error_text(*self),
    {
        match self {
            ConfigError::ReadFile { path, source } => about_path(
                "Failed to read config from '",
                path,
                source,
            ),
            ConfigError::Parse { source } => prefixed("Failed to parse config: ", source),
            ConfigError::CreateDir { path, source } => about_path(
                "Failed to create config directory '",
                path,
                source,
            ),
            ConfigError::WriteFile { path, source } => about_path(
                "Failed to write config to '",
                path,
                source,
            ),
            ConfigError::NoToken =>
                "No GitHub token configured. Set 'token' in config.toml or GITHUB_TOKEN env var.".to_owned(),
        }
    }
}

/// The application error for a configuration error.
pub open spec fn config_app_error(e: ConfigError) -> crate::wire::ErrorModel {
    crate::wire::ErrorModel { kind: ErrorKind::Config, message: config_error_text(e) }
}

impl From<ConfigError> for AppError {
    fn from(e: ConfigError) -> (r: Self)
        ensures
            r@ == config_app_error(e),
    {
        AppError::new(ErrorKind::Config, e.to_string())
    }
}

impl vstd::std_specs::convert::FromSpecImpl<ConfigError> for AppError {
    open spec fn obeys_from_spec() -> bool {
        false
    }

    open spec fn from_spec(e: ConfigError) -> AppError {
        arbitrary()
    }
}

/// Errors of the database.
#[derive(Debug)]
pub enum DbError {
    Store { message: String },
    Migration { message: String },
}

/// A database error in words.
pub open spec fn db_error_text(e: DbError) -> Seq<char> {
    match e {
        DbError::Store { message } => "Database error: "@ + message@,
        DbError::Migration { message } => "Database migration failed: "@ + message@,
    }
}

impl DbError {
    /// The error as it is shown.
    pub fn to_string(&self) -> (r: String)
        ensures
            r@ == db_error_text(*self),
    {
        match self {
            DbError::Store { message } => prefixed("Database error: ", message),
            DbError::Migration { message } => prefixed("Database migration failed: ", message),
        }
    }
}

/// The application error for a database error.
pub open spec fn db_app_error(e: DbError) -> crate::wire::ErrorModel {
    crate::wire::ErrorModel { kind: ErrorKind::Database, message: db_error_text(e) }
}

impl From<DbError> for AppError {
    fn from(e: DbError) -> (r: Self)
        ensures
            r@ == db_app_error(e),
    {
        AppError::new(ErrorKind::Database, e.to_string())
    }
}

impl vstd::std_specs::convert::FromSpecImpl<DbError> for AppError {
    open spec fn obeys_from_spec() -> bool {
        false
    }

    open spec fn from_spec(e: DbError) -> AppError {
        arbitrary()
    }
}

impl From<StoreError> for DbError {
    fn from(e: StoreError) -> (r: Self)
        ensures
            r matches DbError::Store { message } && message@ == e.0@,
    {
        DbError::Store { message: e.to_string() }
    }
}

impl vstd::std_specs::convert::FromSpecImpl<StoreError> for DbError {
    open spec fn obeys_from_spec() -> bool {
        false
    }

    open spec fn from_spec(e: StoreError) -> DbError {
        arbitrary()
    }
}

/// A GitHub error becomes one of that kind. Its words end in the message, or in the time at which
/// the limit is lifted, and begin with what went wrong.
pub proof fn github_errors_keep_their_message(e: GitHubError)
    ensures
        github_app_error(e).kind is GitHub,
        e matches GitHubError::Api { message } ==> github_app_error(e).message
            == "GitHub API error: "@ + message@,
        e matches GitHubError::RateLimit { reset_at } ==> github_app_error(e).message
            == "GitHub rate limit exceeded, resets at "@ + reset_at@,
        e matches GitHubError::Auth { message } ==> github_app_error(e).message
            == "GitHub authentication failed: "@ + message@,
{
}

/// A configuration error becomes one of that kind. Its words begin with what was tried, name the
/// path where there is one, in quotes, and end in the cause.
pub proof fn config_errors_name_path_and_cause(e: ConfigError)
    ensures
        config_app_error(e).kind is Config,
        e matches ConfigError::ReadFile { path, source } ==> config_app_error(e).message
            == "Failed to read config from "@ + (seq!['\''] + path@ + seq!['\'', ':', ' '])
            + source@,
        e matches ConfigError::CreateDir { path, source } ==> config_app_error(e).message
            == "Failed to create config directory "@ + (seq!['\''] + path@ + seq![
            '\'',
            ':',
            ' ',
        ]) + source@,
        e matches ConfigError::WriteFile { path, source } ==> config_app_error(e).message
            == "Failed to write config to "@ + (seq!['\''] + path@ + seq!['\'', ':', ' '])
            + source@,
        e matches ConfigError::Parse { source } ==> config_app_error(e).message
            == "Failed to parse config: "@ + source@,
        e is NoToken ==> config_app_error(e).message
            == "No GitHub token configured. Set 'token' in config.toml or GITHUB_TOKEN env var."@,
{
    reveal_strlit("Failed to read config from '");
    reveal_strlit("Failed to read config from ");
    reveal_strlit("Failed to create config directory '");
    reveal_strlit("Failed to create config directory ");
    reveal_strlit("Failed to write config to '");
    reveal_strlit("Failed to write config to ");
    reveal_strlit("': ");
    assert("': "@ =~= seq!['\'', ':', ' ']);
    assert("Failed to read config from '"@ =~= "Failed to read config from "@ + seq!['\'']);
    assert("Failed to create config directory '"@ =~= "Failed to create config directory "@ + seq![
        '\'',
    ]);
    assert("Failed to write config to '"@ =~= "Failed to write config to "@ + seq!['\'']);
    match e {
        ConfigError::ReadFile { path, source } => {
            assert(config_error_text(e) =~= "Failed to read config from "@ + (seq!['\''] + path@
                + seq!['\'', ':', ' ']) + source@);
        },
        ConfigError::CreateDir { path, source } => {
            assert(config_error_text(e) =~= "Failed to create config directory "@ + (seq!['\'']
                + path@ + seq!['\'', ':', ' ']) + source@);
        },
        ConfigError::WriteFile { path, source } => {
            assert(config_error_text(e) =~= "Failed to write config to "@ + (seq!['\''] + path@
                + seq!['\'', ':', ' ']) + source@);
        },
        _ => {},
    }
}

/// A database error becomes one of that kind, and its words end in the message.
pub proof fn db_errors_keep_their_message(e: DbError)
    ensures
        db_app_error(e).kind is Database,
        e matches DbError::Store { message } ==> db_app_error(e).message == "Database error: "@
            + message@,
        e matches DbError::Migration { message } ==> db_app_error(e).message
            == "Database migration failed: "@ + message@,
{
}

/// Errors become application errors of their own kind, with the words that they are shown with, and
/// an error of the store becomes one of the database with the same message.
pub proof fn errors_keep_their_words(
    github: GitHubError,
    config: ConfigError,
    db: DbError,
    store: StoreError,
    a: AppError,
    b: AppError,
    c: AppError,
    d: DbError,
)
    requires
        call_ensures(<AppError as From<GitHubError>>::from, (github,), a),
        call_ensures(<AppError as From<ConfigError>>::from, (config,), b),
        call_ensures(<AppError as From<DbError>>::from, (db,), c),
        call_ensures(<DbError as From<StoreError>>::from, (store,), d),
    ensures
        a.kind is GitHub,
        a.message@ == github_error_text(github),
        b.kind is Config,
        b.message@ == config_error_text(config),
        c.kind is Database,
        c.message@ == db_error_text(db),
        db_error_text(d) == "Database error: "@ + store.0@,
{
    github_errors_keep_their_message(github);
    config_errors_name_path_and_cause(config);
    db_errors_keep_their_message(db);
}

} // verus!
