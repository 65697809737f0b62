use liase::error::{ConfigError, DbError, GitHubError};
use liase::store::StoreError;
use liase::wire::{AppError, ErrorKind};

fn text(s: &str) -> String {
    s.to_string()
}

#[test]
fn github_errors() {
    let cases = [
        (GitHubError::Api { message: text("m") }, "GitHub API error: m"),
        (
            GitHubError::RateLimit { reset_at: text("noon") },
            "GitHub rate limit exceeded, resets at noon",
        ),
        (GitHubError::Auth { message: text("m") }, "GitHub authentication failed: m"),
    ];
    for (e, message) in cases {
        assert_eq!(e.to_string(), message);
        assert_eq!(AppError::from(e), AppError::new(ErrorKind::GitHub, text(message)));
    }
}

#[test]
fn config_errors() {
    let cases = [
        (
            ConfigError::ReadFile { path: text("/c"), source: text("s") },
            "Failed to read config from '/c': s",
        ),
        (ConfigError::Parse { source: text("s") }, "Failed to parse config: s"),
        (
            ConfigError::CreateDir { path: text("/d"), source: text("s") },
            "Failed to create config directory '/d': s",
        ),
        (
            ConfigError::WriteFile { path: text("/c"), source: text("s") },
            "Failed to write config to '/c': s",
        ),
        (
            ConfigError::NoToken,
            "No GitHub token configured. Set 'token' in config.toml or GITHUB_TOKEN env var.",
        ),
    ];
    for (e, message) in cases {
        assert_eq!(e.to_string(), message);
        assert_eq!(AppError::from(e), AppError::new(ErrorKind::Config, text(message)));
    }
}

#[test]
fn database_errors() {
    let cases = [
        (DbError::Store { message: text("m") }, "Database error: m"),
        (DbError::Migration { message: text("m") }, "Database migration failed: m"),
    ];
    for (e, message) in cases {
        assert_eq!(e.to_string(), message);
        assert_eq!(AppError::from(e), AppError::new(ErrorKind::Database, text(message)));
    }
    assert_eq!(
        AppError::from(DbError::from(StoreError(text("locked")))),
        AppError::new(ErrorKind::Database, text("Database error: locked"))
    );
}
