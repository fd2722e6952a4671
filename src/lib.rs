//! Templated commit messages and layered configuration for a small git helper.
//!
//! The library holds the decisions; reading files, talking to the repository
//! and printing stay with the caller, which hands plain values in.
pub mod cli;
pub mod config;
pub mod error;
pub mod git;
pub mod paths;
pub mod template;
