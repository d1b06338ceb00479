//! qork — shorten URLs from your terminal.
//!
//! The library holds what the `qork` binary decides and computes: command
//! resolution ([`command`]), runtime [`config`], the pre-shorten
//! [`check`], what a shorten request sends and what its reply means
//! ([`api`]), the [`error`] type, release-version comparison ([`version`])
//! and the self-update and uninstall decisions ([`update`]). The binary
//! parses the arguments and performs the requests, processes and printing.
use vstd::prelude::*;

pub mod api;
pub mod check;
pub mod cli;
pub mod command;
pub mod config;
pub mod error;
pub mod prerelease;
pub mod report;
pub mod text;
pub mod update;
pub mod version;

pub use api::ShortLink;
pub use cli::Cli;
pub use command::Command;
pub use config::{Config, OutputFormat};
pub use error::{AppError, Result};

verus! {

/// The crate version, reused for `--version`, the `User-Agent`, and the
/// self-update check.
pub const VERSION: &'static str = "1.1.1";

} // verus!
