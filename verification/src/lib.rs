//! The decision logic of a tool that operates a Git-backed mise dotfiles
//! repository: configuration validation, remote comparison, profile and
//! environment selection, the exact argv of every command it runs, and the
//! order in which an update runs them.
use vstd::prelude::*;

pub mod commands;
pub mod config;
pub mod error;
pub mod git;
pub mod hooks;
pub mod init;
pub mod locator;
pub mod mise;
pub mod platform;
pub mod process;
pub mod shell;
pub mod strmap;
pub mod text;
pub mod version;

verus! {

/// Version of the configuration schema this library understands.
pub const SCHEMA_VERSION: u32 = 1;

/// Version of this tool, checked against `minimum_dotflow_version`.
pub const VERSION: &'static str = "0.1.0";

} // verus!
