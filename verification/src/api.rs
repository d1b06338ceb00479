//! The qork.me shorten API: what goes into a request and what a reply
//! becomes.
//!
//! One blocking round trip: POST `{api_base}/api/shorten` with
//! `{"url", "customAlias"?, "source": "cli"}` and read back the JSON envelope
//! `{ shortCode, shortUrl, href, longUrl, isNew, ... }`. The `source` field
//! lets the qork.me admin console tell CLI shortens apart from website ones.
//! The round trip itself is made by the caller: [`shorten_request`] says what
//! to send, [`shorten_outcome`] what the reply means.
use vstd::prelude::*;

use serde_json::Value;

use crate::config::Config;
use crate::error::AppError;
use crate::text::{contains_ws, has_ws, join2, join3, starts_with, trim_str, trimmed, u64_decimal, decimal};

verus! {

/// `serde_json::Value`, the parsed JSON envelope kept for `--json` output.
#[verifier::external_type_specification]
#[verifier::external_body]
pub struct ExJsonValue(serde_json::Value);

/// The string-valued members of a JSON value, by key: those of an object
/// whose value is a JSON string (no members for any other JSON value).
pub uninterp spec fn json_string_members(v: Value) -> Map<Seq<char>, Seq<char>>;

/// The boolean-valued members of a JSON value, by key: those of an object
/// whose value is `true` or `false` (no members for any other JSON value).
pub uninterp spec fn json_bool_members(v: Value) -> Map<Seq<char>, bool>;

/// The string member `key` of a JSON object: `Value::get(key)` followed by
/// `Value::as_str`, copied into a `String`. Claims that the result is the
/// member's text when `key` names a string member of an object, and `None`
/// otherwise (`get` finds nothing in a non-object or for a missing key,
/// `as_str` is `None` for a non-string).
#[verifier::external_body]
pub(crate) fn json_member_str(v: &Value, key: &str) -> (r: Option<String>)
    ensures
        opt_view(r) == (if json_string_members(*v).dom().contains(key@) {
            Some(json_string_members(*v)[key@])
        } else {
            None
        }),
{
    match v.get(key) {
        Some(m) => match m.as_str() {
            Some(s) => Some(s.to_string()),
            None => None,
        },
        None => None,
    }
}

/// The boolean member `key` of a JSON object: `Value::get(key)` followed by
/// `Value::as_bool`. Claims that the result is the member's value when `key`
/// names a boolean member of an object, and `None` otherwise.
#[verifier::external_body]
fn json_member_bool(v: &Value, key: &str) -> (r: Option<bool>)
    ensures
        r == (if json_bool_members(*v).dom().contains(key@) {
            Some(json_bool_members(*v)[key@])
        } else {
            None
        }),
{
    match v.get(key) {
        Some(m) => m.as_bool(),
        None => None,
    }
}

/// The member `key` of `members`, when present.
pub open spec fn member<T>(members: Map<Seq<char>, T>, key: Seq<char>) -> Option<T> {
    if members.dom().contains(key) {
        Some(members[key])
    } else {
        None
    }
}

/// A created (or pre-existing) short link, plus the raw JSON for `--json`.
#[derive(Debug)]
pub struct ShortLink {
    pub short_code: String,
    /// Scheme-less short URL as the API returns it, e.g. `qork.me/ka9m`.
    pub short_url: String,
    /// Fully-qualified URL (`https://qork.me/ka9m`) when the API provides it.
    pub href: Option<String>,
    /// False when the URL was already shortened and the existing link came back.
    pub is_new: bool,
    /// The verbatim JSON envelope, preserved for `--json` fidelity.
    pub raw: Value,
}

/// The text of an optional string, empty when absent.
pub open spec fn text_or_empty(s: Option<String>) -> Seq<char> {
    match s {
        Some(t) => t@,
        None => Seq::empty(),
    }
}

/// An optional text, empty when absent.
pub open spec fn seq_or_empty(s: Option<Seq<char>>) -> Seq<char> {
    match s {
        Some(t) => t,
        None => Seq::empty(),
    }
}

/// The text of an optional string.
pub open spec fn opt_view(s: Option<String>) -> Option<Seq<char>> {
    match s {
        Some(t) => Some(t@),
        None => None,
    }
}

/// The URL to print for a link: the fully-qualified `href` when it is
/// non-empty; otherwise the trimmed `shortUrl`, with `https://` prefixed
/// unless it already carries an http(s) scheme.
pub open spec fn display_url_of(href: Option<Seq<char>>, short_url: Seq<char>) -> Seq<char> {
    if href is Some && href->0.len() > 0 {
        href->0
    } else {
        let s = trimmed(short_url);
        if "http://"@.is_prefix_of(s) || "https://"@.is_prefix_of(s) {
            s
        } else {
            "https://"@ + s
        }
    }
}

/// The link printed is the envelope's `href` whenever that is present and
/// non-empty, whatever `shortUrl` holds; otherwise it is the trimmed
/// `shortUrl`, with `https://` put in front unless it already names
/// `http://` or `https://`.
pub proof fn lemma_display_prefers_href(href: Option<Seq<char>>, short_url: Seq<char>)
    ensures
        href matches Some(h) ==> (h.len() > 0 ==> display_url_of(href, short_url) == h),
        !(href matches Some(h) && h.len() > 0) ==> {
            let s = trimmed(short_url);
            let r = display_url_of(href, short_url);
            &&& "http://"@.is_prefix_of(r) || "https://"@.is_prefix_of(r)
            &&& r == s || r == "https://"@ + s
            &&& r == s <==> ("http://"@.is_prefix_of(s) || "https://"@.is_prefix_of(s))
        },
{
    let s = trimmed(short_url);
    if !(href matches Some(h) && h.len() > 0) && !("http://"@.is_prefix_of(s) || "https://"@.is_prefix_of(s)) {
        let r = "https://"@ + s;
        assert("https://"@.is_prefix_of(r)) by {
            assert(r.subrange(0, "https://"@.len() as int) =~= "https://"@);
        }
        if r == s {
            assert(false) by {
                assert(r.len() > s.len()) by {
                    reveal_strlit("https://");
                }
            }
        }
    }
}

/// The envelope names a link: a non-empty `shortCode` or `shortUrl`, or
/// an `href`.
pub open spec fn envelope_names_link(v: Value) -> bool {
    let strs = json_string_members(v);
    !(seq_or_empty(member(strs, "shortCode"@)).len() == 0 && seq_or_empty(
        member(strs, "shortUrl"@),
    ).len() == 0 && member(strs, "href"@) is None)
}

/// `l` is the link the envelope `v` describes: absent strings read as
/// empty, an absent or non-boolean `isNew` as `false`, and `raw` is `v`.
pub open spec fn link_from(l: ShortLink, v: Value) -> bool {
    let strs = json_string_members(v);
    &&& l.short_code@ == seq_or_empty(member(strs, "shortCode"@))
    &&& l.short_url@ == seq_or_empty(member(strs, "shortUrl"@))
    &&& opt_view(l.href) == member(strs, "href"@)
    &&& l.is_new == (member(json_bool_members(v), "isNew"@) == Some(true))
    &&& l.raw == v
}

impl ShortLink {
    /// Builds a link from the members read out of the server's envelope.
    /// Absent strings count as empty, an absent `isNew` as `false`. An
    /// envelope that names no link at all (no code, no short URL, no href)
    /// is an API error.
    pub fn from_fields(
        short_code: Option<String>,
        short_url: Option<String>,
        href: Option<String>,
        is_new: Option<bool>,
        raw: Value,
    ) -> (r: Result<ShortLink, AppError>)
        ensures
            r is Err <==> (text_or_empty(short_code).len() == 0 && text_or_empty(short_url).len()
                == 0 && href is None),
            r matches Err(e) ==> e matches AppError::Api(m) && m@
                == "the server returned no short link in its response"@,
            r matches Ok(l) ==> {
                &&& l.short_code@ == text_or_empty(short_code)
                &&& l.short_url@ == text_or_empty(short_url)
                &&& opt_view(l.href) == opt_view(href)
                &&& l.is_new == (is_new == Some(true))
                &&& l.raw == raw
            },
    {
        let short_code = match short_code {
            Some(s) => s,
            None => String::new(),
        };
        let short_url = match short_url {
            Some(s) => s,
            None => String::new(),
        };
        let is_new = match is_new {
            Some(b) => b,
            None => false,
        };
        if short_code.as_str().unicode_len() == 0 && short_url.as_str().unicode_len() == 0
            && href.is_none() {
            return Err(AppError::api("the server returned no short link in its response"));
        }
        Ok(ShortLink { short_code, short_url, href, is_new, raw })
    }

    /// Reads the link out of the server's JSON envelope (`shortCode`,
    /// `shortUrl`, `href` as strings, `isNew` as a boolean) and builds it
    /// with [`ShortLink::from_fields`].
    pub fn from_value(raw: Value) -> (r: Result<ShortLink, AppError>)
        ensures
            r is Ok <==> envelope_names_link(raw),
            r matches Err(e) ==> e matches AppError::Api(m) && m@
                == "the server returned no short link in its response"@,
            r matches Ok(l) ==> link_from(l, raw),
    {
        let short_code = json_member_str(&raw, "shortCode");
        let short_url = json_member_str(&raw, "shortUrl");
        let href = json_member_str(&raw, "href");
        let is_new = json_member_bool(&raw, "isNew");
        Self::from_fields(short_code, short_url, href, is_new, raw)
    }

    /// The URL to print: prefer the fully-qualified `href`; otherwise prefix
    /// `https://` onto the scheme-less `shortUrl` (e.g. `qork.me/ka9m`).
    pub fn display_url(&self) -> (r: String)
        ensures
            r@ == display_url_of(opt_view(self.href), self.short_url@),
            !(self.href is Some && self.href->0@.len() > 0) ==> ("http://"@.is_prefix_of(r@)
                || "https://"@.is_prefix_of(r@)),
    {
        if let Some(href) = &self.href {
            if href.as_str().unicode_len() != 0 {
                return String::from_str(href.as_str());
            }
        }
        let s = trim_str(self.short_url.as_str());
        if starts_with(s, "http://") || starts_with(s, "https://") {
            String::from_str(s)
        } else {
            let r = join2("https://", s);
            assert("https://"@ =~= r@.subrange(0, "https://"@.len() as int));
            r
        }
    }
}

// ── Request ───────────────────────────────────────────────────────────

/// The message for a URL that is empty once trimmed.
pub open spec fn missing_url_message() -> Seq<char> {
    "a URL is required"@
}

/// The message for a URL that still holds whitespace once trimmed.
pub open spec fn spaces_message() -> Seq<char> {
    "the URL contains spaces — wrap it in quotes, e.g. qork \"https://example.com/a b\""@
}

/// The offline verdict on a URL argument: `Some(message)` for an argument
/// that is empty once trimmed, or that still holds whitespace (the single
/// most common mistake: an unquoted URL with a space).
pub open spec fn quick_url_problem(url: Seq<char>) -> Option<Seq<char>> {
    let t = trimmed(url);
    if t.len() == 0 {
        Some(missing_url_message())
    } else if has_ws(t) {
        Some(spaces_message())
    } else {
        None
    }
}

/// Fast, offline guard that runs before anything touches the network. The
/// server is still the source of truth for real validation (scheme, host,
/// reserved words); this just fails obvious cases instantly, with an
/// `InvalidUrl` error.
pub fn quick_url_check(url: &str) -> (r: Option<AppError>)
    ensures
        r is None <==> quick_url_problem(url@) is None,
        r matches Some(e) ==> e matches AppError::InvalidUrl(m) && m@ == quick_url_problem(
            url@,
        )->0,
{
    let t = trim_str(url);
    if t.unicode_len() == 0 {
        return Some(AppError::invalid_url("a URL is required"));
    }
    if contains_ws(t) {
        return Some(
            AppError::invalid_url(
                "the URL contains spaces — wrap it in quotes, e.g. qork \"https://example.com/a b\"",
            ),
        );
    }
    None
}

/// What to POST for one shorten.
#[derive(Debug)]
pub struct ShortenRequest {
    /// `{api_base}/api/shorten`.
    pub endpoint: String,
    /// The (trimmed) URL to shorten — the `url` member of the body.
    pub url: String,
    /// The requested custom code — the `customAlias` member, when present.
    pub custom_alias: Option<String>,
    /// The `source` member: always `cli`.
    pub source: String,
    /// The `User-Agent` header: `qork/<version>`, the header-level signal of
    /// a CLI shorten.
    pub user_agent: String,
    /// The `Accept` header: `application/json`.
    pub accept: String,
}

/// `q` is the request for shortening `url` (with `alias`) against
/// `api_base`.
pub open spec fn request_matches(
    q: ShortenRequest,
    url: Seq<char>,
    alias: Option<&str>,
    api_base: Seq<char>,
) -> bool {
    &&& q.endpoint@ == api_base + "/api/shorten"@
    &&& q.url@ == trimmed(url)
    &&& opt_view(q.custom_alias) == requested_alias(alias)
    &&& q.source@ == "cli"@
    &&& q.user_agent@ == "qork/"@ + crate::VERSION@
    &&& q.accept@ == "application/json"@
}

/// The `customAlias` that a given alias argument asks for: the trimmed
/// alias, when that is not empty.
pub open spec fn requested_alias(alias: Option<&str>) -> Option<Seq<char>> {
    match alias {
        Some(a) => if trimmed(a@).len() > 0 {
            Some(trimmed(a@))
        } else {
            None
        },
        None => None,
    }
}

/// Shorten `url` against `{api_base}/api/shorten`: the request to send, or
/// the offline error when the URL is obviously malformed. `alias`, when
/// non-empty, requests a custom short code.
pub fn shorten_request(url: &str, alias: Option<&str>, config: &Config) -> (r: Result<
    ShortenRequest,
    AppError,
>)
    ensures
        r is Err <==> quick_url_problem(url@) is Some,
        r matches Err(e) ==> e matches AppError::InvalidUrl(m) && m@ == quick_url_problem(
            url@,
        )->0,
        r matches Ok(req) ==> request_matches(req, url@, alias, config.api_base@),
{
    if let Some(e) = quick_url_check(url) {
        return Err(e);
    }
    let trimmed_url = trim_str(url);
    let endpoint = join2(config.api_base.as_str(), "/api/shorten");
    let custom_alias = match alias {
        Some(a) => {
            let a = trim_str(a);
            if a.unicode_len() != 0 {
                Some(String::from_str(a))
            } else {
                None
            }
        },
        None => None,
    };
    Ok(
        ShortenRequest {
            endpoint,
            url: String::from_str(trimmed_url),
            custom_alias,
            source: String::from_str("cli"),
            user_agent: crate::report::user_agent(),
            accept: String::from_str("application/json"),
        },
    )
}

// ── Reply ─────────────────────────────────────────────────────────────

/// How the shorten round trip ended.
#[derive(Debug)]
pub enum ShortenReply {
    /// A success status with this JSON body.
    Body(Value),
    /// A success status whose body was not JSON; the parser's complaint.
    Unparseable(String),
    /// An error status (4xx/5xx), with the body when it was JSON.
    Status(u16, Option<Value>),
    /// The server could not be reached; the transport's complaint.
    Transport(String),
}

/// The API error for an error status: the server's own `error` message
/// when it sent one, else a generic one naming the status.
pub open spec fn status_message(code: u16, server_error: Option<Seq<char>>) -> Seq<char> {
    match server_error {
        Some(m) => m,
        None => "the server returned HTTP "@ + decimal(code as nat),
    }
}

/// The API error message for an error status (4xx/5xx).
pub fn status_error_message(code: u16, server_error: Option<String>) -> (m: String)
    ensures
        m@ == status_message(code, opt_view(server_error)),
{
    match server_error {
        Some(m) => m,
        None => {
            let digits = u64_decimal(code as u64);
            join2("the server returned HTTP ", digits.as_str())
        },
    }
}

/// The API error a reply to a shorten request amounts to, or `None` when
/// it is an envelope that names a link. 4xx/5xx surface the server's own
/// `error` message when present.
pub open spec fn reply_error(reply: ShortenReply, api_base: Seq<char>) -> Option<Seq<char>> {
    match reply {
        ShortenReply::Body(v) => if envelope_names_link(v) {
            None
        } else {
            Some("the server returned no short link in its response"@)
        },
        ShortenReply::Unparseable(t) => Some("could not parse the server response: "@ + t@),
        ShortenReply::Status(code, body) => Some(
            status_message(
                code,
                match body {
                    Some(v) => member(json_string_members(v), "error"@),
                    None => None,
                },
            ),
        ),
        ShortenReply::Transport(t) => Some("could not reach "@ + api_base + " ("@ + t@ + ")"@),
    }
}

/// What the reply to a shorten request means: the link, or the API error
/// to show. 4xx/5xx surface the server's own `error` message when present.
pub fn shorten_outcome(reply: ShortenReply, api_base: &str) -> (r: Result<ShortLink, AppError>)
    ensures
        r is Ok <==> reply_error(reply, api_base@) is None,
        r matches Err(e) ==> e matches AppError::Api(m) && Some(m@) == reply_error(
            reply,
            api_base@,
        ),
        r matches Ok(l) ==> reply matches ShortenReply::Body(v) && link_from(l, v),
{
    match reply {
        ShortenReply::Body(raw) => ShortLink::from_value(raw),
        ShortenReply::Unparseable(t) => Err(
            AppError::Api(join2("could not parse the server response: ", t.as_str())),
        ),
        ShortenReply::Status(code, body) => {
            let server_error = match body {
                Some(v) => json_member_str(&v, "error"),
                None => None,
            };
            Err(AppError::Api(status_error_message(code, server_error)))
        },
        ShortenReply::Transport(t) => {
            let head = join3("could not reach ", api_base, " (");
            Err(AppError::Api(join3(head.as_str(), t.as_str(), ")")))
        },
    }
}

} // verus!
