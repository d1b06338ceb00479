use qork::config::DEFAULT_API_BASE;
use qork::{Config, OutputFormat};

#[test]
fn default_base_is_qork_me() {
    assert_eq!(Config::new().api_base, "https://qork.me");
}

#[test]
fn api_base_strips_trailing_slash() {
    let c = Config::new().with_api_base(Some("https://qork.me/".to_string()));
    assert_eq!(c.api_base, "https://qork.me");
}

#[test]
fn blank_api_base_keeps_default() {
    let c = Config::new().with_api_base(Some("   ".to_string()));
    assert_eq!(c.api_base, "https://qork.me");
}

#[test]
fn with_json_sets_format() {
    assert!(Config::new().with_json(true).is_json());
    assert!(!Config::new().with_json(false).is_json());
}

#[test]
fn api_base_edge_cases() {
    let c = Config::new().with_api_base(Some("  http://localhost:3000//  ".to_string()));
    assert_eq!(c.api_base, "http://localhost:3000");
    // Only slashes: nothing left, keeps the previous base.
    let c = Config::new().with_api_base(Some("///".to_string()));
    assert_eq!(c.api_base, DEFAULT_API_BASE);
    let c = Config::new().with_api_base(None);
    assert_eq!(c.api_base, DEFAULT_API_BASE);
    // The base never ends in a slash, whichever builder ran last.
    let c = Config::new()
        .with_api_base(Some("https://x.dev/".to_string()))
        .with_colors(false)
        .with_json(true);
    assert!(!c.api_base.ends_with('/'));
    assert!(!c.use_colors);
    assert_eq!(c.format, OutputFormat::Json);
}

#[test]
fn defaults_and_json_is_sticky() {
    let c = Config::new();
    assert!(c.use_colors);
    assert_eq!(c.format, OutputFormat::Plain);
    assert!(c.with_json(true).with_json(false).is_json());
}
