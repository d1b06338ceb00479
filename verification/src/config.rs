//! Runtime configuration for qork.
use vstd::prelude::*;

use crate::text::{trim_end_char, trim_str, trimmed, without_trailing};

verus! {

/// Default API base. Overridable with `--api-base` or the `QORK_API_BASE`
/// environment variable (for self-hosting or local testing against a dev
/// server). The CLI appends `/api/shorten` to this.
pub const DEFAULT_API_BASE: &'static str = "https://qork.me";

/// Output format for a successful shorten.
#[derive(Debug, Clone, Copy, PartialEq, Eq, Structural)]
pub enum OutputFormat {
    /// Print just the short URL (pipeable).
    Plain,
    /// Print the raw JSON envelope from the API.
    Json,
}

#[derive(Debug, Clone)]
pub struct Config {
    /// Whether to use ANSI color (status lines + errors). Plain shortens
    /// always print the bare URL to stdout regardless, so output stays
    /// pipeable.
    pub use_colors: bool,
    /// Output format for a successful shorten.
    pub format: OutputFormat,
    /// API base URL, already trimmed of a trailing slash.
    pub api_base: String,
}

/// What `with_api_base` keeps of a given base: trimmed, then stripped of
/// every trailing `/`.
pub open spec fn cleaned_api_base(base: Seq<char>) -> Seq<char> {
    without_trailing(trimmed(base), '/')
}

impl Config {
    /// The documented shape of every configuration the builders hand out:
    /// the API base is non-empty and carries no trailing slash, so
    /// `{base}/api/shorten` never doubles up.
    pub open spec fn wf(&self) -> bool {
        &&& self.api_base@.len() > 0
        &&& self.api_base@.last() != '/'
    }

    pub fn new() -> (c: Self)
        ensures
            c.use_colors,
            c.format == OutputFormat::Plain,
            c.api_base@ == DEFAULT_API_BASE@,
            c.wf(),
    {
        proof {
            reveal_strlit("https://qork.me");
        }
        Self::default()
    }

    pub fn with_colors(self, colors: bool) -> (c: Self)
        ensures
            c.use_colors == colors,
            c.format == self.format,
            c.api_base == self.api_base,
            self.wf() ==> c.wf(),
    {
        let mut s = self;
        s.use_colors = colors;
        s
    }

    pub fn with_json(self, json: bool) -> (c: Self)
        ensures
            c.use_colors == self.use_colors,
            c.format == (if json {
                OutputFormat::Json
            } else {
                self.format
            }),
            c.api_base == self.api_base,
            self.wf() ==> c.wf(),
    {
        let mut s = self;
        if json {
            s.format = OutputFormat::Json;
        }
        s
    }

    /// Override the API base. An empty / whitespace value is ignored (keeps
    /// the default). A trailing slash is stripped so `{base}/api/shorten`
    /// never doubles up.
    pub fn with_api_base(self, base: Option<String>) -> (c: Self)
        ensures
            c.use_colors == self.use_colors,
            c.format == self.format,
            match base {
                Some(b) => if cleaned_api_base(b@).len() > 0 {
                    c.api_base@ == cleaned_api_base(b@)
                } else {
                    c.api_base == self.api_base
                },
                None => c.api_base == self.api_base,
            },
            self.wf() ==> c.wf(),
    {
        let mut s = self;
        if let Some(base) = base {
            let trimmed = trim_end_char(trim_str(base.as_str()), '/');
            if trimmed.unicode_len() != 0 {
                proof {
                    lemma_cleaned_api_base_has_no_trailing_slash(base@);
                }
                s.api_base = String::from_str(trimmed);
            }
        }
        s
    }

    pub fn is_json(&self) -> (b: bool)
        ensures
            b == (self.format == OutputFormat::Json),
    {
        self.format == OutputFormat::Json
    }
}

impl Default for Config {
    fn default() -> (c: Self)
        ensures
            c.use_colors,
            c.format == OutputFormat::Plain,
            c.api_base@ == DEFAULT_API_BASE@,
    {
        Config {
            use_colors: true,
            format: OutputFormat::Plain,
            api_base: String::from_str(DEFAULT_API_BASE),
        }
    }
}

/// A trimmed, slash-stripped base never ends in `/`.
proof fn lemma_cleaned_api_base_has_no_trailing_slash(base: Seq<char>)
    requires
        cleaned_api_base(base).len() > 0,
    ensures
        cleaned_api_base(base).last() != '/',
{
    let t = trimmed(base);
    crate::text::lemma_char_suffix_len_bound(t, '/');
    lemma_trailing_run_is_maximal(t, '/');
}

/// Stripping every trailing `c` leaves a sequence that does not end in `c`.
proof fn lemma_trailing_run_is_maximal(s: Seq<char>, c: char)
    ensures
        without_trailing(s, c).len() > 0 ==> without_trailing(s, c).last() != c,
    decreases s.len(),
{
    if s.len() > 0 && s.last() == c {
        lemma_trailing_run_is_maximal(s.drop_last(), c);
        crate::text::lemma_char_suffix_len_bound(s.drop_last(), c);
        assert(without_trailing(s, c) =~= without_trailing(s.drop_last(), c));
    }
}

} // verus!
