//! What the command line reports to its user: the refusal messages of the
//! pre-shorten check and the shape of an error line.
use vstd::prelude::*;

use crate::api::{
    link_from, quick_url_check, quick_url_problem, reply_error, request_matches, shorten_outcome,
    shorten_request, ShortLink, ShortenReply, ShortenRequest,
};
use crate::check::{
    check, normalized, parsed_verdict, ping_verdict_spec, url_parse_parts, PingOutcome, Verdict,
    VerdictView,
};
use crate::config::Config;
use crate::text::{decimal, join2, join3, u64_decimal};

verus! {

/// Process exit code for success.
pub const EXIT_OK: i32 = 0;

/// Process exit code for every error (invalid URL, alias taken,
/// network/API failure, usage error).
pub const EXIT_ERROR: i32 = 2;

/// What `qork` prints when a flag was given but no URL to shorten.
pub const MISSING_URL_USAGE: &'static str =
    "error: a URL is required.\n\nUsage: qork <URL>\nRun 'qork help' for more information.";

/// The message that refuses a link, for every verdict but `Pass`.
pub open spec fn refusal(v: VerdictView) -> Option<Seq<char>> {
    match v {
        VerdictView::Pass => None,
        VerdictView::NotUrl(m) => Some(m),
        VerdictView::Dead(status) => Some(
            "that link looks dead — it returned HTTP "@ + decimal(status as nat)
                + ". Re-run with --no-check to shorten it anyway."@,
        ),
        VerdictView::NoSuchHost => Some(
            "couldn't resolve that host — the URL looks mistyped or was never valid. Re-run with --no-check to shorten it anyway."@,
        ),
    }
}

/// The exit code of `qork <url>`: 0 once the link is printed, 2 for every
/// error.
pub fn shorten_exit_code(r: &Result<ShortLink, String>) -> (c: i32)
    ensures
        c == (if r is Ok {
            EXIT_OK
        } else {
            EXIT_ERROR
        }),
{
    match r {
        Ok(_) => EXIT_OK,
        Err(_) => EXIT_ERROR,
    }
}

/// The message to refuse a link with, or `None` when the check passed.
pub fn verdict_message(v: &Verdict) -> (r: Option<String>)
    ensures
        match r {
            Some(m) => refusal(v@) == Some(m@),
            None => refusal(v@) is None,
        },
{
    match v {
        Verdict::Pass => None,
        Verdict::NotUrl(m) => Some(String::from_str(m.as_str())),
        Verdict::Dead(status) => {
            let digits = u64_decimal(*status as u64);
            Some(
                join3(
                    "that link looks dead — it returned HTTP ",
                    digits.as_str(),
                    ". Re-run with --no-check to shorten it anyway.",
                ),
            )
        },
        Verdict::NoSuchHost => Some(
            String::from_str(
                "couldn't resolve that host — the URL looks mistyped or was never valid. Re-run with --no-check to shorten it anyway.",
            ),
        ),
    }
}

/// An error as printed on stderr: `error:` (in red when colors are on),
/// a space, and the message.
pub fn error_line(message: &str, use_colors: bool) -> (r: String)
    ensures
        r@ == (if use_colors {
            "\x1b[31merror:\x1b[0m"@
        } else {
            "error:"@
        }) + " "@ + message@,
{
    let prefix = if use_colors {
        "\x1b[31merror:\x1b[0m"
    } else {
        "error:"
    };
    join3(prefix, " ", message)
}

/// The `User-Agent` of qork's own API requests: `qork/<version>`.
pub fn user_agent() -> (r: String)
    ensures
        r@ == "qork/"@ + crate::VERSION@,
{
    join2("qork/", crate::VERSION)
}

/// The browser-ish `User-Agent` of the reachability probe: some servers
/// 404/403 unknown agents.
pub fn probe_user_agent() -> (r: String)
    ensures
        r@ == "Mozilla/5.0 (compatible; qork/"@ + crate::VERSION@ + "; +https://qork.me)"@,
{
    join3("Mozilla/5.0 (compatible; qork/", crate::VERSION, "; +https://qork.me)")
}

/// The verdict of the structural check on what `url` normalizes to.
pub open spec fn structural_of(url: Seq<char>) -> VerdictView {
    parsed_verdict(url_parse_parts(normalized(url)))
}

/// What `send` made of one shorten request: some request for `url` (with
/// `alias`, against `config`'s API base) went out, and `r` is what its reply
/// means — the link it describes, or the API error's message.
pub open spec fn sent<S: FnOnce(ShortenRequest) -> ShortenReply>(
    r: Result<ShortLink, String>,
    send: S,
    url: Seq<char>,
    alias: Option<&str>,
    config: Config,
) -> bool {
    exists|q: ShortenRequest, reply: ShortenReply|
        {
            &&& call_ensures(send, (q,), reply)
            &&& request_matches(q, url, alias, config.api_base@)
            &&& match r {
                Ok(l) => reply_error(reply, config.api_base@) is None && (
                reply matches ShortenReply::Body(v) && link_from(l, v)),
                Err(e) => reply_error(reply, config.api_base@) == Some(e@),
            }
        }
}

/// The ping of `url` came back with an outcome that passes.
pub open spec fn ping_passed<P: FnOnce(String) -> PingOutcome>(ping: P, url: Seq<char>) -> bool {
    exists|s: String, o: PingOutcome|
        s@ == normalized(url) && call_ensures(ping, (s,), o) && ping_verdict_spec(o)
            == VerdictView::Pass
}

/// One `qork <url>`: the offline guard, then the pre-shorten check (when
/// enabled; `ping` makes its HEAD request), then the shorten request
/// (`send` makes the POST). The result is the link, or the message to fail
/// with. The `requires` admits closures that may be called for nothing
/// else: `ping` only on the normalized URL of an argument that passed the
/// offline guard and the structural check, with checking on; `send` only
/// with this argument's request, once the argument passed the guard and, with
/// checking on, the structural check and the ping. Each closure can be
/// called once at most: one HEAD request, one POST.
pub fn run_shorten<P: FnOnce(String) -> PingOutcome, S: FnOnce(ShortenRequest) -> ShortenReply>(
    url: &str,
    alias: Option<&str>,
    check_enabled: bool,
    config: &Config,
    ping: P,
    send: S,
) -> (r: Result<ShortLink, String>)
    requires
        forall|s: String|
            quick_url_problem(url@) is None && check_enabled && s@ == normalized(url@)
                && structural_of(url@) == VerdictView::Pass ==> call_requires(ping, (s,)),
        forall|q: ShortenRequest|
            request_matches(q, url@, alias, config.api_base@) && quick_url_problem(url@) is None
                && (check_enabled ==> structural_of(url@) == VerdictView::Pass && ping_passed(
                ping,
                url@,
            )) ==> call_requires(send, (q,)),
    ensures
        quick_url_problem(url@) matches Some(m) ==> (r matches Err(e) && e@ == "invalid URL: "@
            + m),
        quick_url_problem(url@) is None && check_enabled && structural_of(url@)
            != VerdictView::Pass ==> (r matches Err(e) && Some(e@) == refusal(
            structural_of(url@),
        )),
        quick_url_problem(url@) is None && check_enabled && structural_of(url@)
            == VerdictView::Pass ==> exists|s: String, o: PingOutcome|
            {
                &&& s@ == normalized(url@)
                &&& call_ensures(ping, (s,), o)
                &&& ping_verdict_spec(o) != VerdictView::Pass ==> (r matches Err(e) && Some(e@)
                    == refusal(ping_verdict_spec(o)))
                &&& ping_verdict_spec(o) == VerdictView::Pass ==> sent(r, send, url@, alias, *config)
            },
        quick_url_problem(url@) is None && !check_enabled ==> sent(r, send, url@, alias, *config),
{
    if let Some(e) = quick_url_check(url) {
        return Err(e.message());
    }
    let verdict = check(url, check_enabled, ping);
    if let Some(m) = verdict_message(&verdict) {
        return Err(m);
    }
    let request = match shorten_request(url, alias, config) {
        Ok(q) => q,
        Err(e) => {
            return Err(e.message());
        },
    };
    let ghost q = request;
    let reply = send(request);
    let ghost rep = reply;
    let r = match shorten_outcome(reply, config.api_base.as_str()) {
        Ok(link) => Ok(link),
        Err(e) => Err(e.message()),
    };
    assert(call_ensures(send, (q,), rep) && request_matches(q, url@, alias, config.api_base@));
    r
}

} // verus!