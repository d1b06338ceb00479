use qork::{Cli, Command};

fn url(u: &str) -> Cli {
    Cli {
        url: Some(u.to_string()),
        ..Cli::default()
    }
}

#[test]
fn url_resolves_to_shorten() {
    assert_eq!(
        url("https://example.com").resolve(),
        Command::Shorten("https://example.com".into())
    );
}

#[test]
fn bare_update_and_uninstall_resolve_to_commands() {
    assert_eq!(url("update").resolve(), Command::Update);
    assert_eq!(url("uninstall").resolve(), Command::Uninstall);
    // Case-insensitive.
    assert_eq!(url("UPDATE").resolve(), Command::Update);
}

#[test]
fn update_flag_resolves_to_update() {
    let cli = Cli {
        update: true,
        ..Cli::default()
    };
    assert_eq!(cli.resolve(), Command::Update);
}

#[test]
fn bare_help_resolves_to_help() {
    assert_eq!(url("help").resolve(), Command::Help);
    assert_eq!(url("HELP").resolve(), Command::Help);
}

#[test]
fn flag_without_url_resolves_to_missing_url() {
    let cli = Cli {
        json: true,
        ..Cli::default()
    };
    assert_eq!(cli.resolve(), Command::MissingUrl);
}

#[test]
fn keywords_are_whole_words_and_flags_win() {
    assert_eq!(
        url("helpme").resolve(),
        Command::Shorten("helpme".into())
    );
    assert_eq!(url("Uninstall").resolve(), Command::Uninstall);
    // Non-ASCII letters are not folded.
    assert_eq!(url("hÉlp").resolve(), Command::Shorten("hÉlp".into()));
    let cli = Cli {
        url: Some("help".into()),
        uninstall: true,
        ..Cli::default()
    };
    assert_eq!(cli.resolve(), Command::Uninstall);
    let cli = Cli {
        url: Some("uninstall".into()),
        update: false,
        ..Cli::default()
    };
    assert_eq!(cli.resolve(), Command::Uninstall);
}
