use qork::api::{
    quick_url_check, shorten_outcome, shorten_request, status_error_message, ShortLink,
    ShortenReply,
};
use qork::{AppError, Config};

fn json(text: &str) -> serde_json::Value {
    serde_json::from_str(text).unwrap()
}

#[test]
fn display_url_prefers_href() {
    let link = ShortLink::from_value(json(
        r#"{"shortCode": "ka9m", "shortUrl": "qork.me/ka9m", "href": "https://qork.me/ka9m", "isNew": true}"#,
    ))
    .unwrap();
    assert_eq!(link.display_url(), "https://qork.me/ka9m");
    assert!(link.is_new);
}

#[test]
fn display_url_falls_back_to_scheme_prefix() {
    let link = ShortLink::from_value(json(
        r#"{"shortCode": "ka9m", "shortUrl": "qork.me/ka9m", "isNew": false}"#,
    ))
    .unwrap();
    assert_eq!(link.display_url(), "https://qork.me/ka9m");
    assert!(!link.is_new);
}

#[test]
fn empty_envelope_is_an_error() {
    assert!(ShortLink::from_value(json("{}")).is_err());
}

#[test]
fn envelope_fields_are_read() {
    let link = ShortLink::from_value(json(
        r#"{"shortCode": "ab", "shortUrl": " http://q.me/ab ", "isNew": "yes"}"#,
    ))
    .unwrap();
    assert_eq!(link.short_code, "ab");
    assert_eq!(link.short_url, " http://q.me/ab ");
    assert_eq!(link.href, None);
    // Not a boolean: counts as false.
    assert!(!link.is_new);
    assert_eq!(link.display_url(), "http://q.me/ab");
    // Empty href falls back too.
    let link = ShortLink::from_value(json(r#"{"shortUrl": "q.me/x", "href": ""}"#)).unwrap();
    assert_eq!(link.display_url(), "https://q.me/x");
    // A non-object envelope names no link.
    let e = ShortLink::from_value(json("[1, 2]")).unwrap_err();
    assert_eq!(
        e.message(),
        "the server returned no short link in its response"
    );
}

#[test]
fn quick_check_rejects_empty_and_spaces() {
    let e = quick_url_check("   ").unwrap();
    assert_eq!(e.message(), "invalid URL: a URL is required");
    let e = quick_url_check("https://example.com/a b").unwrap();
    assert!(matches!(e, AppError::InvalidUrl(_)));
    assert!(e.message().contains("quotes"));
    assert!(quick_url_check("  https://example.com  ").is_none());
}

#[test]
fn request_carries_trimmed_url_and_alias() {
    let config = Config::new();
    let req = shorten_request(" https://example.com ", Some(" my-link "), &config).unwrap();
    assert_eq!(req.endpoint, "https://qork.me/api/shorten");
    assert_eq!(req.url, "https://example.com");
    assert_eq!(req.custom_alias.as_deref(), Some("my-link"));
    assert_eq!(req.source, "cli");
    assert_eq!(req.user_agent, format!("qork/{}", qork::VERSION));
    assert_eq!(req.user_agent, "qork/1.1.1");
    assert_eq!(req.accept, "application/json");
    let req = shorten_request("x.com", Some("   "), &config).unwrap();
    assert_eq!(req.custom_alias, None);
    assert!(shorten_request("a b", None, &config).is_err());
}

#[test]
fn replies_become_links_or_api_errors() {
    let ok = shorten_outcome(
        ShortenReply::Body(json(r#"{"shortCode": "k", "href": "https://qork.me/k"}"#)),
        "https://qork.me",
    )
    .unwrap();
    assert_eq!(ok.display_url(), "https://qork.me/k");
    let e = shorten_outcome(
        ShortenReply::Status(409, Some(json(r#"{"error": "alias taken"}"#))),
        "https://qork.me",
    )
    .unwrap_err();
    assert_eq!(e.message(), "alias taken");
    let e = shorten_outcome(ShortenReply::Status(502, None), "https://qork.me").unwrap_err();
    assert_eq!(e.message(), "the server returned HTTP 502");
    let e = shorten_outcome(
        ShortenReply::Transport("dns error".to_string()),
        "http://localhost:3000",
    )
    .unwrap_err();
    assert_eq!(e.message(), "could not reach http://localhost:3000 (dns error)");
    let e = shorten_outcome(ShortenReply::Unparseable("eof".to_string()), "x").unwrap_err();
    assert_eq!(e.message(), "could not parse the server response: eof");
}

#[test]
fn status_message_formats_code() {
    assert_eq!(status_error_message(0, None), "the server returned HTTP 0");
    assert_eq!(status_error_message(65535, None), "the server returned HTTP 65535");
    assert_eq!(status_error_message(400, Some("bad".to_string())), "bad");
}
