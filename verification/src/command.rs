//! Command resolution — turning parsed [`Cli`] flags into one action.
use vstd::prelude::*;

use crate::cli::Cli;

verus! {

/// What the parsed CLI resolves to. Centralizes the `qork update` (positional)
/// vs `qork --update` (flag) duality so `main` dispatches on one value.
#[derive(Debug, Clone, PartialEq, Eq)]
pub enum Command {
    /// Shorten the given URL.
    Shorten(String),
    /// Self-update from GitHub Releases.
    Update,
    /// Remove qork from the machine.
    Uninstall,
    /// Explicit help request (`qork help`) — print full help, exit 0.
    Help,
    /// A flag was given but no URL to shorten — usage error, exit 2.
    MissingUrl,
}

/// ASCII lower-casing of one character (`char::to_ascii_lowercase`).
pub open spec fn ascii_lower(c: char) -> char {
    if 'A' as u32 <= c as u32 && c as u32 <= 'Z' as u32 {
        ((c as u32) + 32) as char
    } else {
        c
    }
}

/// `str::eq_ignore_ascii_case`: equal once ASCII letters are lower-cased.
pub open spec fn eq_ignore_ascii_case(a: Seq<char>, b: Seq<char>) -> bool {
    &&& a.len() == b.len()
    &&& forall|i: int| 0 <= i < a.len() ==> ascii_lower(#[trigger] a[i]) == ascii_lower(b[i])
}

fn lower_char(c: char) -> (r: u32)
    ensures
        r == ascii_lower(c) as u32,
{
    let u = c as u32;
    if 65 <= u && u <= 90 {
        u + 32
    } else {
        u
    }
}

pub(crate) fn str_eq_ignore_ascii_case(a: &str, b: &str) -> (r: bool)
    ensures
        r == eq_ignore_ascii_case(a@, b@),
{
    let n = a.unicode_len();
    if n != b.unicode_len() {
        return false;
    }
    let mut i: usize = 0;
    while i < n
        invariant
            n == a@.len(),
            n == b@.len(),
            i <= n,
            forall|j: int| 0 <= j < i ==> ascii_lower(#[trigger] a@[j]) == ascii_lower(b@[j]),
        decreases n - i,
    {
        let x = lower_char(a.get_char(i));
        let y = lower_char(b.get_char(i));
        if x != y {
            proof {
                let ca = ascii_lower(a@[i as int]);
                let cb = ascii_lower(b@[i as int]);
                assert(ca as u32 != cb as u32);
            }
            return false;
        }
        proof {
            let ca = ascii_lower(a@[i as int]);
            let cb = ascii_lower(b@[i as int]);
            assert(ca as u32 == cb as u32);
            assert(ca == cb);
        }
        i = i + 1;
    }
    true
}

impl Cli {
    /// The positional argument is `keyword`, compared case-insensitively.
    pub open spec fn is_bare(&self, keyword: Seq<char>) -> bool {
        self.url matches Some(u) && eq_ignore_ascii_case(u@, keyword)
    }

    /// Resolve the parsed flags + positional into a single command.
    ///
    /// `qork update` / `qork uninstall` (bare positional) are treated as the
    /// matching command — those words aren't shortenable URLs. The `--update`
    /// / `--uninstall` flags do the same thing explicitly.
    pub fn resolve(&self) -> (c: Command)
        ensures
            (self.update || self.is_bare("update"@)) ==> c == Command::Update,
            !(self.update || self.is_bare("update"@)) && (self.uninstall || self.is_bare(
                "uninstall"@,
            )) ==> c == Command::Uninstall,
            !(self.update || self.is_bare("update"@)) && !(self.uninstall || self.is_bare(
                "uninstall"@,
            )) && self.is_bare("help"@) ==> c == Command::Help,
            !(self.update || self.is_bare("update"@)) && !(self.uninstall || self.is_bare(
                "uninstall"@,
            )) && !self.is_bare("help"@) ==> match self.url {
                Some(u) => c matches Command::Shorten(s) && s@ == u@,
                None => c == Command::MissingUrl,
            },
    {
        if self.update || self.is_bare_keyword("update") {
            return Command::Update;
        }
        if self.uninstall || self.is_bare_keyword("uninstall") {
            return Command::Uninstall;
        }
        if self.is_bare_keyword("help") {
            return Command::Help;
        }
        match &self.url {
            Some(url) => Command::Shorten(String::from_str(url.as_str())),
            None => Command::MissingUrl,
        }
    }

    fn is_bare_keyword(&self, keyword: &str) -> (b: bool)
        ensures
            b == self.is_bare(keyword@),
    {
        match &self.url {
            Some(u) => str_eq_ignore_ascii_case(u.as_str(), keyword),
            None => false,
        }
    }
}

} // verus!
