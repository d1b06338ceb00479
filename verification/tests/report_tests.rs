use qork::api::{ShortenReply, ShortenRequest};
use qork::check::{PingOutcome, Verdict};
use qork::report::{error_line, user_agent, verdict_message};

#[test]
fn verdict_messages() {
    assert_eq!(verdict_message(&Verdict::Pass), None);
    assert_eq!(
        verdict_message(&Verdict::Dead(404)).unwrap(),
        "that link looks dead — it returned HTTP 404. Re-run with --no-check to shorten it anyway."
    );
    assert!(verdict_message(&Verdict::NoSuchHost).unwrap().starts_with("couldn't resolve"));
    assert_eq!(
        verdict_message(&Verdict::NotUrl("nope".to_string())).unwrap(),
        "nope"
    );
}

#[test]
fn error_lines() {
    assert_eq!(error_line("bad", false), "error: bad");
    assert_eq!(error_line("bad", true), "\x1b[31merror:\x1b[0m bad");
    assert_eq!(user_agent(), format!("qork/{}", qork::VERSION));
}

#[test]
fn run_shorten_refuses_offline_before_any_request() {
    let config = qork::Config::new();
    let no_ping = |_: String| -> PingOutcome { panic!("no ping expected") };
    let no_send = |_: ShortenRequest| -> ShortenReply { panic!("no request expected") };
    let e = qork::report::run_shorten("https://example.com/a b", None, true, &config, no_ping, no_send)
        .unwrap_err();
    assert!(e.contains("quotes"));
    let e = qork::report::run_shorten("asdf", None, true, &config, no_ping, no_send).unwrap_err();
    assert!(e.contains("doesn't look like"));
}

#[test]
fn run_shorten_reports_dead_links_and_returns_links() {
    let config = qork::Config::new().with_api_base(Some("http://localhost:3000/".to_string()));
    let no_send = |_: ShortenRequest| -> ShortenReply { panic!("no request expected") };
    let e = qork::report::run_shorten(
        "example.com/gone",
        None,
        true,
        &config,
        |_| PingOutcome::HttpStatus(404),
        no_send,
    )
    .unwrap_err();
    assert!(e.contains("HTTP 404"));
    let link = qork::report::run_shorten(
        "example.com",
        Some("launch"),
        false,
        &config,
        |_| panic!("check disabled"),
        |q: ShortenRequest| {
            assert_eq!(q.endpoint, "http://localhost:3000/api/shorten");
            assert_eq!(q.url, "example.com");
            assert_eq!(q.custom_alias.as_deref(), Some("launch"));
            ShortenReply::Body(
                serde_json::from_str(r#"{"shortCode": "launch", "shortUrl": "qork.me/launch"}"#)
                    .unwrap(),
            )
        },
    )
    .unwrap();
    assert_eq!(link.display_url(), "https://qork.me/launch");
}

#[test]
fn shorten_exit_codes() {
    let e: Result<qork::ShortLink, String> = Err("nope".to_string());
    assert_eq!(qork::report::shorten_exit_code(&e), 2);
    let config = qork::Config::new();
    let r = qork::report::run_shorten(
        "example.com",
        None,
        false,
        &config,
        |_| panic!("check disabled"),
        |_: ShortenRequest| {
            ShortenReply::Body(serde_json::from_str(r#"{"shortCode": "k"}"#).unwrap())
        },
    );
    assert_eq!(qork::report::shorten_exit_code(&r), 0);
}
