//! Pre-shorten URL sanity check.
//!
//! The goal is narrow and specific: don't shorten something that was never a
//! real link — a random word or sentence pasted by mistake, or a URL that was
//! invalid from the start. It is deliberately NOT a strict uptime gate: auth
//! walls (401/403), 5xx hiccups, slow sites, and transient connection blips
//! all still shorten. Two layers, both skipped by `--no-check`:
//!
//!   1. **structural** (offline, instant): the input must parse as an
//!      http/https URL whose host looks like a real domain (has a dot) or an IP.
//!      A bare word like `help` or `asdf` becomes `https://help` → no dot →
//!      rejected here, with no network call.
//!   2. **ping** (online, a single HEAD request): refuse on a live 404/410, or
//!      if the host doesn't resolve (DNS failure — "invalid from the
//!      beginning"). Every other outcome proceeds. The request itself is made
//!      by the caller; [`ping_verdict`] decides what its outcome means.
use vstd::prelude::*;

use crate::text::{
    contains_char, is_trimmed, is_ws, join2, join3, lemma_trim_fixed, lemma_trim_idempotent,
    lemma_trimmed_is_trimmed, str_eq, trim_str, trimmed,
};

verus! {

/// The verdict for a candidate URL.
#[derive(Debug, PartialEq, Eq)]
pub enum Verdict {
    /// Looks like a real link — go ahead and shorten.
    Pass,
    /// Doesn't look like a URL at all (offline check). Carries a user message.
    NotUrl(String),
    /// The server responded that the page is gone (404 / 410 Gone).
    Dead(u16),
    /// The host doesn't resolve — the link was never valid.
    NoSuchHost,
}

/// The mathematical value of a [`Verdict`].
pub enum VerdictView {
    Pass,
    NotUrl(Seq<char>),
    Dead(u16),
    NoSuchHost,
}

impl View for Verdict {
    type V = VerdictView;

    open spec fn view(&self) -> VerdictView {
        match self {
            Verdict::Pass => VerdictView::Pass,
            Verdict::NotUrl(m) => VerdictView::NotUrl(m@),
            Verdict::Dead(c) => VerdictView::Dead(*c),
            Verdict::NoSuchHost => VerdictView::NoSuchHost,
        }
    }
}

// ── Normalization ─────────────────────────────────────────────────────

pub open spec fn https_prefix() -> Seq<char> {
    seq!['h', 't', 't', 'p', 's', ':', '/', '/']
}

pub open spec fn is_ascii_alpha(c: char) -> bool {
    ('a' as u32 <= c as u32 && c as u32 <= 'z' as u32) || ('A' as u32 <= c as u32 && c as u32
        <= 'Z' as u32)
}

pub open spec fn all_ascii_alpha(s: Seq<char>) -> bool {
    forall|j: int| 0 <= j < s.len() ==> is_ascii_alpha(#[trigger] s[j])
}

/// `"://"` starts at index `i` of `s`.
pub open spec fn sep_at(s: Seq<char>, i: int) -> bool {
    &&& 0 <= i
    &&& i + 3 <= s.len()
    &&& s[i] == ':'
    &&& s[i + 1] == '/'
    &&& s[i + 2] == '/'
}

/// The first index at or after `k` where `"://"` starts (`str::find`).
pub open spec fn first_sep_from(s: Seq<char>, k: int) -> Option<int>
    decreases s.len() - k,
{
    if k < 0 || k + 3 > s.len() {
        None
    } else if sep_at(s, k) {
        Some(k)
    } else {
        first_sep_from(s, k + 1)
    }
}

/// `s` starts with a scheme: a non-empty run of ASCII letters before its
/// first `"://"`.
pub open spec fn has_scheme(s: Seq<char>) -> bool {
    match first_sep_from(s, 0) {
        Some(p) => p > 0 && all_ascii_alpha(s.take(p)),
        None => false,
    }
}

/// What [`normalize_url`] returns: the trimmed input, with `https://`
/// prepended unless it already starts with a scheme.
pub open spec fn normalized(input: Seq<char>) -> Seq<char> {
    let s = trimmed(input);
    if has_scheme(s) {
        s
    } else {
        https_prefix() + s
    }
}

fn find_scheme_sep(s: &str) -> (r: Option<usize>)
    ensures
        match r {
            Some(p) => first_sep_from(s@, 0) == Some(p as int) && p + 3 <= s@.len(),
            None => first_sep_from(s@, 0) is None,
        },
{
    let n = s.unicode_len();
    let mut i: usize = 0;
    while i < n && n - i >= 3
        invariant
            n == s@.len(),
            i <= n,
            first_sep_from(s@, 0) == first_sep_from(s@, i as int),
        decreases n - i,
    {
        if s.get_char(i) == ':' && s.get_char(i + 1) == '/' && s.get_char(i + 2) == '/' {
            return Some(i);
        }
        i = i + 1;
    }
    None
}

fn all_alpha_prefix(s: &str, p: usize) -> (b: bool)
    requires
        p <= s@.len(),
    ensures
        b == all_ascii_alpha(s@.take(p as int)),
{
    let mut i: usize = 0;
    while i < p
        invariant
            p <= s@.len(),
            i <= p,
            forall|j: int| 0 <= j < i ==> is_ascii_alpha(#[trigger] s@[j]),
        decreases p - i,
    {
        let c = s.get_char(i);
        if !(('a' <= c && c <= 'z') || ('A' <= c && c <= 'Z')) {
            assert(!is_ascii_alpha(s@.take(p as int)[i as int]));
            return false;
        }
        i = i + 1;
    }
    assert forall|j: int| 0 <= j < p implies is_ascii_alpha(#[trigger] s@.take(p as int)[j]) by {
        assert(s@.take(p as int)[j] == s@[j]);
    }
    true
}

/// Prepend `https://` when the input has no scheme (mirrors the API's behavior
/// so the structural check + ping see what will actually be shortened).
pub fn normalize_url(input: &str) -> (r: String)
    ensures
        r@ == normalized(input@),
{
    let s = trim_str(input);
    if let Some(pos) = find_scheme_sep(s) {
        // A real scheme is a non-empty run of ASCII letters before "://".
        if pos > 0 && all_alpha_prefix(s, pos) {
            return String::from_str(s);
        }
    }
    proof {
        reveal_strlit("https://");
    }
    join2("https://", s)
}

/// `https://` followed by anything has a scheme: its first `"://"` is the
/// one right after `https`.
proof fn lemma_https_prefixed_has_scheme(s: Seq<char>)
    ensures
        has_scheme(https_prefix() + s),
{
    let r = https_prefix() + s;
    assert(r.take(8) =~= https_prefix());
    assert(!sep_at(r, 0) && !sep_at(r, 1) && !sep_at(r, 2) && !sep_at(r, 3) && !sep_at(r, 4));
    assert(sep_at(r, 5));
    assert(first_sep_from(r, 5) == Some(5int));
    assert(first_sep_from(r, 4) == Some(5int));
    assert(first_sep_from(r, 3) == Some(5int));
    assert(first_sep_from(r, 2) == Some(5int));
    assert(first_sep_from(r, 1) == Some(5int));
    assert(first_sep_from(r, 0) == Some(5int));
    assert(all_ascii_alpha(r.take(5)));
}

/// Normalizing always yields a URL that starts with a scheme, and
/// normalizing a normalized URL changes nothing.
pub proof fn lemma_normalize_url_idempotent(input: Seq<char>)
    ensures
        has_scheme(normalized(input)),
        normalized(normalized(input)) == normalized(input),
{
    let s = trimmed(input);
    lemma_trimmed_is_trimmed(input);
    lemma_trim_idempotent(input);
    if has_scheme(s) {
        lemma_trim_fixed(s);
    } else {
        let r = https_prefix() + s;
        lemma_https_prefixed_has_scheme(s);
        assert(r[0] == 'h');
        assert(!is_ws(r[0]));
        if s.len() > 0 {
            assert(r.last() == s.last());
        } else {
            assert(r.last() == '/');
        }
        assert(is_trimmed(r));
        lemma_trim_fixed(r);
    }
}

// ── Structural check ──────────────────────────────────────────────────

/// A domain has a dot (`example.com`); IPv4 has dots; IPv6 host strings carry
/// a colon. A bare single label (`help`, `asdf`) has none → not a real
/// website. (Every textual IP address has a dot or a colon, so testing for
/// those two characters also covers hosts that parse as an IP address.)
pub open spec fn host_looks_real_spec(host: Seq<char>) -> bool {
    host.contains('.') || host.contains(':')
}

fn host_looks_real(host: &str) -> (b: bool)
    ensures
        b == host_looks_real_spec(host@),
{
    contains_char(host, '.') || contains_char(host, ':')
}

/// The scheme and host of a parsed URL (`Url::scheme`, `Url::host_str`).
pub struct UrlParts {
    pub scheme: String,
    pub host: Option<String>,
}

/// The plain value of an optional [`UrlParts`].
pub open spec fn parts_view(p: Option<UrlParts>) -> Option<(Seq<char>, Option<Seq<char>>)> {
    match p {
        Some(u) => Some(
            (
                u.scheme@,
                match u.host {
                    Some(h) => Some(h@),
                    None => None,
                },
            ),
        ),
        None => None,
    }
}

/// What `url::Url::parse` makes of a string: `None` when it refuses the
/// input, otherwise the parsed URL's scheme and host string.
pub uninterp spec fn url_parse_parts(input: Seq<char>) -> Option<(Seq<char>, Option<Seq<char>>)>;

/// Parses `input` with `url::Url::parse` and reads back `scheme()` and
/// `host_str()`. Claims that the result is a function of the input alone
/// (`url_parse_parts`), which the WHATWG URL parser is; nothing else of the
/// parser is stated.
#[verifier::external_body]
fn parse_url(input: &str) -> (r: Option<UrlParts>)
    ensures
        parts_view(r) == url_parse_parts(input@),
{
    match url::Url::parse(input) {
        Ok(u) => Some(
            UrlParts {
                scheme: u.scheme().to_string(),
                host: match u.host_str() {
                    Some(h) => Some(h.to_string()),
                    None => None,
                },
            },
        ),
        Err(_) => None,
    }
}

/// The verdict of the structural check for a parse result.
pub open spec fn parsed_verdict(p: Option<(Seq<char>, Option<Seq<char>>)>) -> VerdictView {
    match p {
        None => VerdictView::NotUrl("that doesn't look like a URL"@),
        Some((scheme, host)) => {
            if scheme != "http"@ && scheme != "https"@ {
                VerdictView::NotUrl(
                    "only http and https links can be shortened (got scheme '"@ + scheme + "')"@,
                )
            } else {
                match host {
                    Some(h) => if host_looks_real_spec(h) {
                        VerdictView::Pass
                    } else {
                        VerdictView::NotUrl(
                            "'"@ + h
                                + "' doesn't look like a website — did you mean to paste a full URL?"@,
                        )
                    },
                    None => VerdictView::NotUrl(
                        "that doesn't look like a URL (it has no host)"@,
                    ),
                }
            }
        },
    }
}

/// The structural check lets a URL through exactly when it parsed, its
/// scheme is `http` or `https`, and it has a host holding a dot (a domain,
/// an IPv4 address) or a colon (an IPv6 address). A bare single label such as
/// `hello`, however long, never passes.
pub proof fn lemma_structure_passes_only_real_hosts(p: Option<(Seq<char>, Option<Seq<char>>)>)
    ensures
        parsed_verdict(p) is Pass <==> (p matches Some((scheme, Some(h))) && (scheme == "http"@
            || scheme == "https"@) && (h.contains('.') || h.contains(':'))),
        p matches Some((scheme, Some(h))) ==> (!h.contains('.') && !h.contains(':') && (scheme
            == "http"@ || scheme == "https"@) ==> parsed_verdict(p) == VerdictView::NotUrl(
            "'"@ + h + "' doesn't look like a website — did you mean to paste a full URL?"@,
        )),
        p matches Some((_, Some(h))) ==> (!h.contains('.') && !h.contains(':') ==> parsed_verdict(
            p,
        ) is NotUrl),
{
}

/// The structural verdict for an already-parsed URL.
pub fn verdict_for_parts(parts: Option<UrlParts>) -> (v: Verdict)
    ensures
        v@ == parsed_verdict(parts_view(parts)),
{
    match parts {
        None => Verdict::NotUrl(String::from_str("that doesn't look like a URL")),
        Some(u) => {
            let scheme = u.scheme.as_str();
            if !str_eq(scheme, "http") && !str_eq(scheme, "https") {
                return Verdict::NotUrl(
                    join3("only http and https links can be shortened (got scheme '", scheme, "')"),
                );
            }
            match u.host {
                Some(h) => {
                    if host_looks_real(h.as_str()) {
                        Verdict::Pass
                    } else {
                        Verdict::NotUrl(
                            join3(
                                "'",
                                h.as_str(),
                                "' doesn't look like a website — did you mean to paste a full URL?",
                            ),
                        )
                    }
                },
                None => Verdict::NotUrl(
                    String::from_str("that doesn't look like a URL (it has no host)"),
                ),
            }
        },
    }
}

/// Offline structural check on an already-normalized URL.
pub fn structural_verdict(normalized: &str) -> (v: Verdict)
    ensures
        v@ == parsed_verdict(url_parse_parts(normalized@)),
{
    verdict_for_parts(parse_url(normalized))
}

// ── Ping ──────────────────────────────────────────────────────────────

/// How the single HEAD request of the online ping ended.
#[derive(Debug, Clone, Copy, PartialEq, Eq)]
pub enum PingOutcome {
    /// The server answered with a success (after following redirects).
    Reachable,
    /// The server answered with this error status (4xx/5xx).
    HttpStatus(u16),
    /// The host name did not resolve.
    DnsFailure,
    /// Any other transport failure: refused, timed out, TLS, ….
    OtherTransport,
}

pub open spec fn ping_verdict_spec(o: PingOutcome) -> VerdictView {
    match o {
        PingOutcome::HttpStatus(code) => if code == 404 || code == 410 {
            VerdictView::Dead(code)
        } else {
            VerdictView::Pass
        },
        PingOutcome::DnsFailure => VerdictView::NoSuchHost,
        _ => VerdictView::Pass,
    }
}

/// The ping refuses a link only as dead or as an unknown host: it is dead
/// exactly when the server answered 404 or 410 (any other status, such as
/// 401/403 behind a login wall, 405, 429 or 5xx, lets it through), and an
/// unknown host exactly when the name did not resolve. A reachable server
/// or any other transport failure lets it through.
pub proof fn lemma_ping_refuses_only_gone_links(o: PingOutcome)
    ensures
        ping_verdict_spec(o) is Pass || ping_verdict_spec(o) is Dead || ping_verdict_spec(o) is NoSuchHost,
        forall|code: u16|
            ping_verdict_spec(o) == VerdictView::Dead(code) <==> (o == PingOutcome::HttpStatus(code)
                && (code == 404 || code == 410)),
        ping_verdict_spec(o) is NoSuchHost <==> o is DnsFailure,
        o matches PingOutcome::HttpStatus(code) ==> (ping_verdict_spec(o) is Pass <==> (code != 404
            && code != 410)),
        o is Reachable || o is OtherTransport ==> ping_verdict_spec(o) is Pass,
{
}

/// Online liveness verdict. Only ever blocks on a live 404/410 or a
/// DNS-resolution failure; everything else (auth, 5xx, timeouts, connection
/// refused, TLS quirks) is `Pass`.
pub fn ping_verdict(outcome: PingOutcome) -> (v: Verdict)
    ensures
        v@ == ping_verdict_spec(outcome),
{
    match outcome {
        PingOutcome::Reachable => Verdict::Pass,
        PingOutcome::HttpStatus(code) => {
            if code == 404 || code == 410 {
                Verdict::Dead(code)
            } else {
                // 401/403 (auth), 405, 429, 5xx, … — the link exists.
                Verdict::Pass
            }
        },
        PingOutcome::DnsFailure => Verdict::NoSuchHost,
        // Connection refused / timeout / TLS / etc. — a transient blip, not
        // proof the link is bad. Shorten anyway.
        PingOutcome::OtherTransport => Verdict::Pass,
    }
}

/// Full pre-shorten check. When `enabled` is false (`--no-check`), skips
/// everything and returns `Pass`. Otherwise runs the offline structural check,
/// then the online ping (`ping`, handed the normalized URL) only if the
/// structure is sound. The `requires` admits a `ping` that may be called for
/// nothing else: no ping is made when the check is off or the structure is
/// refused. `ping` can be called once at most, so a sound URL gets a single
/// HEAD request.
pub fn check<F: FnOnce(String) -> PingOutcome>(input: &str, enabled: bool, ping: F) -> (v: Verdict)
    requires
        forall|s: String|
            enabled && s@ == normalized(input@) && parsed_verdict(url_parse_parts(s@))
                == VerdictView::Pass ==> call_requires(ping, (s,)),
    ensures
        !enabled ==> v@ == VerdictView::Pass,
        enabled && parsed_verdict(url_parse_parts(normalized(input@))) != VerdictView::Pass ==> v@
            == parsed_verdict(url_parse_parts(normalized(input@))),
        enabled && parsed_verdict(url_parse_parts(normalized(input@))) == VerdictView::Pass ==> exists|
            s: String,
            o: PingOutcome,
        |
            s@ == normalized(input@) && call_ensures(ping, (s,), o) && v@ == ping_verdict_spec(o),
{
    if !enabled {
        return Verdict::Pass;
    }
    let url = normalize_url(input);
    let structural = structural_verdict(url.as_str());
    match structural {
        Verdict::Pass => {
            let ghost s = url;
            let outcome = ping(url);
            let v = ping_verdict(outcome);
            assert(s@ == normalized(input@) && call_ensures(ping, (s,), outcome) && v@
                == ping_verdict_spec(outcome));
            v
        },
        other => other,
    }
}

} // verus!
