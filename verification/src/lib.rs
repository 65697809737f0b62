//! Verified core of liase, a desktop monitor for GitHub organisations and repositories.

pub mod backend;
pub mod bridge;
pub mod config;
pub mod error;
pub mod github;
pub mod groups;
pub mod order;
pub mod poll;
pub mod rows;
pub mod settings;
pub mod shell;
pub mod store;
pub mod text;
pub mod time;
pub mod timeline;
pub mod view;
pub mod wire;
