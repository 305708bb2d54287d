//! Path-safety validation and cleanup planning for a Linux disk-cleaning tool.
//!
//! The library decides; it never touches the disk. Paths are strings, what
//! is on disk is handed in by the caller, and each result is pinned down by
//! a contract over the character sequences involved. The only things asked
//! of the outside world are the user's home and configuration directories
//! and the wording of byte counts.

pub mod cli;
pub mod commands;
pub mod config;
pub mod distro;
mod environment;
pub mod errors;
pub mod filesystem;
pub mod filesystem_proofs;
pub mod pathname;
pub mod paths;
pub mod security;
pub mod security_proofs;
pub mod sorting;
pub mod system;
pub mod text;
pub mod tui;
