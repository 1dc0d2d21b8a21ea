//! Core logic of a multi-account credential helper for a hosting service:
//! the line-oriented credential protocol, the account-resolution policy,
//! the device-authorization polling state machine, and the secret-store
//! interface, all with verified contracts.

pub mod clock;
pub mod commands;
pub mod database;
pub mod git_helper;
pub mod github_auth;
pub mod ids;
pub mod keychain;
pub mod ssh;
pub mod strings;
