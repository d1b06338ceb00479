use qork::check::{check, normalize_url, ping_verdict, structural_verdict, PingOutcome, Verdict};

fn no_ping(_: String) -> PingOutcome {
    panic!("the ping must not run")
}

#[test]
fn normalize_adds_https_when_missing() {
    assert_eq!(normalize_url("example.com"), "https://example.com");
    assert_eq!(normalize_url("https://x.com"), "https://x.com");
    assert_eq!(normalize_url("http://x.com/a"), "http://x.com/a");
    assert_eq!(normalize_url("  example.com  "), "https://example.com");
}

#[test]
fn structural_accepts_real_domains_and_ips() {
    assert_eq!(structural_verdict("https://example.com"), Verdict::Pass);
    assert_eq!(
        structural_verdict("https://sub.example.co.uk/a?b=1"),
        Verdict::Pass
    );
    assert_eq!(structural_verdict("http://93.184.216.34"), Verdict::Pass);
}

#[test]
fn structural_rejects_bare_words() {
    // The exact bug: `qork help` / a pasted word becomes https://<word>.
    assert!(matches!(
        structural_verdict("https://help"),
        Verdict::NotUrl(_)
    ));
    assert!(matches!(
        structural_verdict("https://asdf"),
        Verdict::NotUrl(_)
    ));
}

#[test]
fn structural_rejects_non_http_schemes() {
    assert!(matches!(
        structural_verdict("ftp://files.example.com"),
        Verdict::NotUrl(_)
    ));
}

#[test]
fn disabled_check_always_ok() {
    // --no-check forces everything through, even a bare word.
    assert_eq!(check("help", false, no_ping), Verdict::Pass);
    assert_eq!(check("literally anything", false, no_ping), Verdict::Pass);
}

#[test]
fn normalize_keeps_other_schemes_and_rejects_fake_ones() {
    assert_eq!(normalize_url("ftp://x.com"), "ftp://x.com");
    // Not a run of letters before "://": treated as scheme-less.
    assert_eq!(normalize_url("1a://x.com"), "https://1a://x.com");
    assert_eq!(normalize_url("://x.com"), "https://://x.com");
    assert_eq!(normalize_url(""), "https://");
    assert_eq!(normalize_url("\t\n x.com\u{3000}"), "https://x.com");
}

#[test]
fn normalize_is_idempotent_on_examples() {
    for s in ["example.com", " http://a.b ", "", "1a://x", "asdf"] {
        let once = normalize_url(s);
        assert_eq!(normalize_url(&once), once);
    }
}

#[test]
fn structural_messages_name_the_problem() {
    assert_eq!(
        structural_verdict("https://help"),
        Verdict::NotUrl(
            "'help' doesn't look like a website — did you mean to paste a full URL?".to_string()
        )
    );
    assert_eq!(
        structural_verdict("ftp://files.example.com"),
        Verdict::NotUrl(
            "only http and https links can be shortened (got scheme 'ftp')".to_string()
        )
    );
    assert_eq!(
        structural_verdict("not a url"),
        Verdict::NotUrl("that doesn't look like a URL".to_string())
    );
    // IPv6 hosts carry a colon.
    assert_eq!(structural_verdict("http://[::1]/"), Verdict::Pass);
}

#[test]
fn ping_outcomes() {
    assert_eq!(ping_verdict(PingOutcome::Reachable), Verdict::Pass);
    assert_eq!(ping_verdict(PingOutcome::HttpStatus(404)), Verdict::Dead(404));
    assert_eq!(ping_verdict(PingOutcome::HttpStatus(410)), Verdict::Dead(410));
    assert_eq!(ping_verdict(PingOutcome::HttpStatus(403)), Verdict::Pass);
    assert_eq!(ping_verdict(PingOutcome::HttpStatus(500)), Verdict::Pass);
    assert_eq!(ping_verdict(PingOutcome::DnsFailure), Verdict::NoSuchHost);
    assert_eq!(ping_verdict(PingOutcome::OtherTransport), Verdict::Pass);
}

#[test]
fn enabled_check_rejects_bare_word_without_pinging() {
    assert!(matches!(check("asdf", true, no_ping), Verdict::NotUrl(_)));
}

#[test]
fn enabled_check_pings_the_normalized_url() {
    let v = check(" example.com ", true, |u: String| {
        assert_eq!(u, "https://example.com");
        PingOutcome::HttpStatus(410)
    });
    assert_eq!(v, Verdict::Dead(410));
    let v = check("https://nope.example", true, |_| PingOutcome::DnsFailure);
    assert_eq!(v, Verdict::NoSuchHost);
}

#[test]
fn enabled_check_refuses_on_structure_without_pinging() {
    let v = check("asdf", true, |_: String| -> PingOutcome { panic!("no request may be made") });
    assert_eq!(
        v,
        Verdict::NotUrl(
            "'asdf' doesn't look like a website — did you mean to paste a full URL?".to_string()
        )
    );
    let v = check("help", true, |_: String| -> PingOutcome { panic!("no request may be made") });
    assert!(matches!(v, Verdict::NotUrl(m) if m.contains("doesn't look like")));
    let v = check("asdf", false, |_: String| -> PingOutcome { panic!("no request may be made") });
    assert_eq!(v, Verdict::Pass);
}
