//! The command-line surface of qork: the values the argument parser
//! produces. (The parser itself, with its flags, help text and
//! `QORK_API_BASE` fallback, is declared by the binary around this library.)
use vstd::prelude::*;

verus! {

/// qork — shorten URLs from your terminal.
#[derive(Debug, Clone, Default)]
pub struct Cli {
    /// The URL to shorten (wrap in quotes if it has spaces or special
    /// characters). The bare words `update`, `uninstall`, and `help` run those
    /// commands instead.
    pub url: Option<String>,
    /// Request a custom short code (alias) instead of a generated one
    pub alias: Option<String>,
    /// Print the raw JSON response (for scripts and agents)
    pub json: bool,
    /// Disable colored output
    pub no_color: bool,
    /// API base URL to call (default: https://qork.me)
    pub api_base: Option<String>,
    /// Skip the pre-shorten check (don't verify the URL is a real, live link)
    pub no_check: bool,
    /// Check for a newer release and update qork in place
    pub update: bool,
    /// Remove qork from this machine
    pub uninstall: bool,
    /// Skip the interactive confirmation prompt (for `uninstall`). Required
    /// when stdin isn't a terminal (scripts/CI) so removal is always explicit.
    pub yes: bool,
}

} // verus!
