use qork::update::{
    attempt_line, classify_fetch_error, confirmation_accepted, fetch_latest_version,
    http_status_message, installed_version_from_output, order_strategies, record_attempt,
    run_command_status, try_strategy, uninstall_gate, update_announcement, update_exit_code,
    update_report, update_start, update_step, update_summary, verify_cargo_post_install,
    AttemptKind, CommandOutcome, FetchFailure, FetchReply, PlanStage, StrategyError, TargetOs,
    UninstallGate, UpdateAction, UpdateEvent, UpdateOutcome, UpdateState, UpdateStrategy,
};
use qork::version::{is_newer, post_install_version_ok, strip_prerelease_metadata};
use qork::{Config, VERSION};

#[test]
fn is_newer_basic() {
    assert!(is_newer("1.0.0", "2.0.0"));
    assert!(is_newer("1.0.0", "1.1.0"));
    assert!(is_newer("1.0.0", "1.0.1"));
    assert!(!is_newer("2.0.0", "1.0.0"));
    assert!(!is_newer("1.0.0", "1.0.0"));
}

#[test]
fn is_newer_different_lengths() {
    assert!(is_newer("1.0", "1.0.1"));
    assert!(!is_newer("1.0.1", "1.0"));
}

#[test]
fn strip_prerelease_metadata_cases() {
    assert_eq!(strip_prerelease_metadata("1.2.3-rc.1"), "1.2.3");
    assert_eq!(strip_prerelease_metadata("1.2.3+sha.abc"), "1.2.3");
    assert_eq!(strip_prerelease_metadata("1.2.3"), "1.2.3");
    assert_eq!(strip_prerelease_metadata(""), "");
}

#[test]
fn is_newer_handles_prerelease_and_metadata() {
    assert!(is_newer("1.2.0", "1.2.1-rc.1"));
    assert!(is_newer("1.2.1-rc.1", "1.2.1"));
    assert!(!is_newer("1.2.1", "1.2.1+build.7"));
}

#[test]
fn post_install_version_ok_cases() {
    assert!(post_install_version_ok("1.0.0", "1.0.0"));
    assert!(post_install_version_ok("1.0.0+sha.abc", "1.0.0"));
    assert!(!post_install_version_ok("1.0.0", "1.1.0"));
    assert!(!post_install_version_ok("", "1.0.0"));
}

#[test]
fn http_status_message_explains_rate_limit() {
    assert!(http_status_message(403, Some("0")).contains("rate limit"));
    assert!(http_status_message(403, None).contains("HTTP 403"));
    assert!(http_status_message(500, None).contains("HTTP 500"));
}

#[test]
fn unix_orders_cargo_first() {
    assert_eq!(
        order_strategies(true, TargetOs::Unix),
        vec![
            UpdateStrategy::Cargo,
            UpdateStrategy::InstallerCurl,
            UpdateStrategy::InstallerWget
        ]
    );
}

#[test]
fn windows_without_cargo_prunes_cargo() {
    assert_eq!(
        order_strategies(false, TargetOs::Windows),
        vec![
            UpdateStrategy::InstallerPowerShell,
            UpdateStrategy::InstallerPwsh
        ]
    );
}

#[test]
fn is_newer_edge_cases() {
    // Overflowing and empty pieces are skipped, missing pieces count as 0.
    assert!(!is_newer("1.0.0", "1..0"));
    assert!(!is_newer("1", "1.0.0"));
    assert!(is_newer("1.99999999999999999999", "1.0.1"));
    assert!(is_newer("v1.0.0", "1.0.0"));
    assert!(!is_newer("1.0.0", "v1.0.0"));
    assert!(is_newer("1.0.0-beta", "1.0.0"));
    assert!(is_newer("1.0.0-beta", "1.0.0-rc"));
    assert!(!is_newer("1.0.0-rc", "1.0.0-beta"));
    assert!(is_newer("0.9.12", "0.10.0"));
    assert!(is_newer("18446744073709551614", "18446744073709551615"));
}

#[test]
fn newer_is_irreflexive_asymmetric_transitive_on_examples() {
    let vs = ["1.0", "1.0.0-rc.1", "1.0.0-rc.2", "1.0.0-1", "1.0.0", "1.0.1", "1.1", "2.0.0+b", "2.0.0"];
    for a in vs {
        assert!(!is_newer(a, a));
        for b in vs {
            if is_newer(a, b) {
                assert!(!is_newer(b, a));
            }
            for c in vs {
                if is_newer(a, b) && is_newer(b, c) {
                    assert!(is_newer(a, c));
                }
            }
        }
    }
}

#[test]
fn status_and_transport_messages() {
    assert_eq!(
        http_status_message(404, Some("0")),
        "GitHub API returned HTTP 404 when checking for updates"
    );
    assert_eq!(
        http_status_message(403, Some("7")),
        "GitHub API returned HTTP 403 when checking for updates"
    );
    assert_eq!(
        classify_fetch_error(FetchFailure::Transport("timed out".to_string())),
        "Network error reaching GitHub: timed out"
    );
    assert!(
        classify_fetch_error(FetchFailure::Status(403, Some("0".to_string())))
            .contains("rate limit")
    );
}

#[test]
fn latest_version_comes_from_tag_name() {
    let body = serde_json::from_str(r#"{"tag_name": "v1.2.3"}"#).unwrap();
    assert_eq!(fetch_latest_version(FetchReply::Body(body)).unwrap(), "1.2.3");
    let body = serde_json::from_str(r#"{"tag_name": "1.2.3"}"#).unwrap();
    assert_eq!(fetch_latest_version(FetchReply::Body(body)).unwrap(), "1.2.3");
    let body = serde_json::from_str(r#"{"name": "v1"}"#).unwrap();
    assert_eq!(
        fetch_latest_version(FetchReply::Body(body)).unwrap_err(),
        "Missing tag_name in response"
    );
    assert_eq!(
        fetch_latest_version(FetchReply::Unparseable("bad".to_string())).unwrap_err(),
        "Failed to parse response: bad"
    );
}

#[test]
fn strategy_plans() {
    let p = try_strategy(UpdateStrategy::Cargo, TargetOs::Unix).unwrap();
    assert_eq!(p.launcher, "cargo");
    assert_eq!(p.args, vec!["install", "qork", "--force"]);
    assert!(p.verify_installed);
    let p = try_strategy(UpdateStrategy::InstallerCurl, TargetOs::Unix).unwrap();
    assert_eq!(p.preflight_tool.as_deref(), Some("curl"));
    assert_eq!(p.launcher, "sh");
    assert_eq!(
        p.args[1],
        "set -eu; curl --proto '=https' --tlsv1.2 -LsSf https://github.com/QubeTX/qork/releases/latest/download/qork-installer.sh | sh"
    );
    match try_strategy(UpdateStrategy::InstallerPowerShell, TargetOs::Unix) {
        Err(StrategyError::Preflight(m)) => assert_eq!(m, "PowerShell installer is Windows-only"),
        _ => panic!("expected a preflight refusal"),
    }
    match try_strategy(UpdateStrategy::InstallerWget, TargetOs::Windows) {
        Err(StrategyError::Preflight(m)) => assert_eq!(m, "wget installer is Unix-only"),
        _ => panic!("expected a preflight refusal"),
    }
    let p = try_strategy(UpdateStrategy::InstallerPwsh, TargetOs::Windows).unwrap();
    assert_eq!(p.launcher, "pwsh");
    assert_eq!(p.args.len(), 6);
}

#[test]
fn command_outcomes() {
    assert!(run_command_status("sh", CommandOutcome::Exited { success: true, code: Some(0) }).is_ok());
    match run_command_status("cargo", CommandOutcome::NotFound) {
        Err(StrategyError::Preflight(m)) => assert_eq!(m, "cargo not on PATH"),
        _ => panic!(),
    }
    match run_command_status("sh", CommandOutcome::Exited { success: false, code: None }) {
        Err(StrategyError::Runtime(m)) => assert_eq!(m, "sh exited with code -1"),
        _ => panic!(),
    }
    match run_command_status("sh", CommandOutcome::Exited { success: false, code: Some(127) }) {
        Err(StrategyError::Runtime(m)) => assert_eq!(m, "sh exited with code 127"),
        _ => panic!(),
    }
    match run_command_status("x", CommandOutcome::SpawnFailed("denied".to_string())) {
        Err(StrategyError::Preflight(m)) => assert_eq!(m, "Failed to spawn x: denied"),
        _ => panic!(),
    }
}

#[test]
fn post_install_checks() {
    assert_eq!(
        installed_version_from_output(true, "qork 1.2.3\n").as_deref(),
        Some("1.2.3")
    );
    assert_eq!(installed_version_from_output(true, "  \n"), None);
    assert_eq!(installed_version_from_output(false, "qork 1.2.3"), None);
    assert!(verify_cargo_post_install("1.2.3", Some("1.2.3".to_string())).is_ok());
    match verify_cargo_post_install("1.2.3", Some("1.2.2".to_string())) {
        Err(StrategyError::Runtime(m)) => assert!(m.contains("still reports v1.2.2 (expected v1.2.3)")),
        _ => panic!(),
    }
    assert!(verify_cargo_post_install("1.2.3", None).is_err());
}

#[test]
fn attempts_are_recorded_and_described() {
    let r = record_attempt(
        UpdateStrategy::InstallerCurl,
        StrategyError::Preflight("curl not on PATH".to_string()),
    );
    assert_eq!(r.kind, AttemptKind::Skipped);
    assert_eq!(attempt_line(&r), "  - skipped curl shell installer: curl not on PATH");
    let r = record_attempt(UpdateStrategy::Cargo, StrategyError::Runtime("boom".to_string()));
    assert_eq!(r.kind, AttemptKind::Failed);
    assert_eq!(attempt_line(&r), "  - cargo install failed: boom");
    assert_eq!(UpdateStrategy::InstallerPwsh.json_id(), "installer_pwsh");
}

#[test]
fn uninstall_needs_explicit_consent() {
    assert_eq!(uninstall_gate(true, false), UninstallGate::Proceed);
    assert_eq!(uninstall_gate(false, true), UninstallGate::Confirm);
    assert_eq!(uninstall_gate(false, false), UninstallGate::Refuse);
    assert!(confirmation_accepted(" Yes\n"));
    assert!(confirmation_accepted("y"));
    assert!(!confirmation_accepted("no"));
    assert!(!confirmation_accepted(""));
}

#[test]
fn colors_wrap_only_when_enabled() {
    let on = Config::new();
    let off = Config::new().with_colors(false);
    assert_eq!(qork::update::green("ok", &on), "\x1b[32mok\x1b[0m");
    assert_eq!(qork::update::red("x", &off), "x");
    assert_eq!(qork::update::cyan("*", &on), "\x1b[36m*\x1b[0m");
    assert!(!VERSION.is_empty());
}

#[test]
fn is_newer_follows_semver_precedence() {
    // Build metadata does not count.
    assert!(!is_newer("1.2.1+build.7", "1.2.1"));
    assert!(!is_newer("1.2.1", "1.2.1+build.7"));
    assert!(!is_newer("1.2.1-rc.1+a", "1.2.1-rc.1+b"));
    // Prerelease identifiers are compared.
    assert!(is_newer("1.2.1-rc.1", "1.2.1-rc.2"));
    assert!(is_newer("1.2.1-rc.2", "1.2.1-rc.10"));
    assert!(!is_newer("1.2.1-rc.10", "1.2.1-rc.2"));
    assert!(is_newer("1.0.0-alpha", "1.0.0-alpha.1"));
    assert!(is_newer("1.0.0-alpha.1", "1.0.0-alpha.beta"));
    assert!(is_newer("1.0.0-beta.11", "1.0.0-rc.1"));
    assert!(is_newer("1.0.0-rc.1", "1.0.0+build"));
    assert!(is_newer("1.0.0-1", "1.0.0-a"));
    assert!(is_newer("1.0.0-rc.99999999999999999999", "1.0.0-rc.100000000000000000000"));
    assert!(!is_newer("1.0.0-rc.007", "1.0.0-rc.7"));
}

#[test]
fn every_strategy_has_its_own_plan() {
    let curl = try_strategy(UpdateStrategy::InstallerCurl, TargetOs::Unix).unwrap();
    assert_eq!(curl.preflight_tool.as_deref(), Some("curl"));
    assert_eq!(curl.args[0], "-c");
    assert!(!curl.verify_installed);
    let wget = try_strategy(UpdateStrategy::InstallerWget, TargetOs::Unix).unwrap();
    assert_eq!(wget.preflight_tool.as_deref(), Some("wget"));
    assert_eq!(wget.launcher, "sh");
    assert_eq!(
        wget.args,
        vec![
            "-c".to_string(),
            "set -eu; wget -qO- https://github.com/QubeTX/qork/releases/latest/download/qork-installer.sh | sh".to_string()
        ]
    );
    let ps = try_strategy(UpdateStrategy::InstallerPowerShell, TargetOs::Windows).unwrap();
    assert_eq!(ps.launcher, "powershell");
    assert_eq!(ps.preflight_tool, None);
    assert_eq!(
        ps.args,
        vec![
            "-NoProfile",
            "-NonInteractive",
            "-ExecutionPolicy",
            "Bypass",
            "-Command",
            "$ErrorActionPreference='Stop'; irm https://github.com/QubeTX/qork/releases/latest/download/qork-installer.ps1 | iex"
        ]
    );
    match try_strategy(UpdateStrategy::InstallerCurl, TargetOs::Windows) {
        Err(StrategyError::Preflight(m)) => assert_eq!(m, "curl installer is Unix-only"),
        _ => panic!("expected a preflight refusal"),
    }
    match try_strategy(UpdateStrategy::InstallerPwsh, TargetOs::Unix) {
        Err(StrategyError::Preflight(m)) => assert_eq!(m, "PowerShell installer is Windows-only"),
        _ => panic!("expected a preflight refusal"),
    }
}

/// What a run of the update steps did, driven with canned answers.
struct Driven {
    outcome: UpdateOutcome,
    announced: Vec<Option<UpdateStrategy>>,
    log: Vec<String>,
    actions: Vec<String>,
}

fn drive(
    fetched: Result<String, String>,
    cargo: bool,
    os: TargetOs,
    tools: &[&str],
    ended: &dyn Fn(&str) -> CommandOutcome,
    reported: Option<&str>,
) -> Driven {
    let mut announced = Vec::new();
    let mut log = Vec::new();
    let mut actions = Vec::new();
    let mut state = update_start("1.1.1", os);
    let mut event = UpdateEvent::Fetched(fetched);
    let outcome = loop {
        let step = update_step(state, event);
        if let Some(first) = step.announce {
            announced.push(first);
        }
        log.extend(step.log);
        state = step.state;
        event = match step.action {
            UpdateAction::ProbeCargo => {
                actions.push("probe cargo".to_string());
                UpdateEvent::CargoProbed(cargo)
            }
            UpdateAction::CheckTool(tool) => {
                actions.push(format!("check {tool}"));
                UpdateEvent::ToolChecked(tools.contains(&tool.as_str()))
            }
            UpdateAction::Launch(launcher, args) => {
                actions.push(format!("launch {launcher} {}", args.len()));
                UpdateEvent::Ended(ended(&launcher))
            }
            UpdateAction::ReadInstalledVersion => {
                actions.push("read version".to_string());
                UpdateEvent::Reported(reported.map(|v| v.to_string()))
            }
            UpdateAction::Finish(outcome) => break outcome,
        };
    };
    Driven { outcome, announced, log, actions }
}

fn exits(success: bool, code: i32) -> CommandOutcome {
    CommandOutcome::Exited { success, code: Some(code) }
}

#[test]
fn update_reports_a_failed_check() {
    let d = drive(
        Err("Network error reaching GitHub: timeout".to_string()),
        true,
        TargetOs::Unix,
        &[],
        &|_| panic!("nothing may run"),
        None,
    );
    assert!(d.actions.is_empty());
    assert!(d.announced.is_empty());
    let o = d.outcome;
    match &o {
        UpdateOutcome::CheckFailed { current, message } => {
            assert_eq!(current, "1.1.1");
            assert_eq!(message, "Failed to check for updates: Network error reaching GitHub: timeout");
        }
        _ => panic!("expected a failed check"),
    }
    assert_eq!(update_exit_code(&o), 2);
    let rep = update_report(&o);
    assert_eq!(rep.action, "update");
    assert!(!rep.success);
    assert_eq!(rep.current_version, "1.1.1");
    assert_eq!(rep.latest_version, None);
    assert_eq!(rep.update_available, None);
    let lines = update_summary(&o, &Config::new().with_colors(false));
    assert_eq!(
        lines,
        vec!["  x Failed to check for updates: Network error reaching GitHub: timeout".to_string()]
    );
}

#[test]
fn update_runs_nothing_when_up_to_date() {
    for latest in ["1.1.1", "1.1.0", "1.0.9", "1.1.1+build.3"] {
        let d = drive(
            Ok(latest.to_string()),
            true,
            TargetOs::Unix,
            &["curl"],
            &|_| panic!("nothing may run"),
            None,
        );
        assert!(d.actions.is_empty(), "not even the cargo probe");
        assert!(d.log.is_empty());
        let o = d.outcome;
        assert!(matches!(o, UpdateOutcome::UpToDate { .. }));
        assert_eq!(update_exit_code(&o), 0);
        let rep = update_report(&o);
        assert!(rep.success);
        assert_eq!(rep.message, "Already on the latest version");
        assert_eq!(rep.latest_version.as_deref(), Some(latest));
        assert_eq!(rep.update_available, Some(false));
        assert_eq!(rep.strategy, None);
    }
    let o = drive(Ok("1.1.1".to_string()), false, TargetOs::Windows, &[], &|_| panic!(), None).outcome;
    assert_eq!(
        update_summary(&o, &Config::new().with_colors(false)),
        vec!["  ok Already on the latest version (v1.1.1)".to_string()]
    );
    assert_eq!(
        update_summary(&o, &Config::new()),
        vec!["  \x1b[32mok\x1b[0m \x1b[32mAlready on the latest version (v1.1.1)\x1b[0m".to_string()]
    );
}

#[test]
fn update_stops_at_the_first_success() {
    let d = drive(
        Ok("1.2.0".to_string()),
        true,
        TargetOs::Unix,
        &["curl", "wget"],
        &|launcher| if launcher == "cargo" { exits(false, 101) } else { exits(true, 0) },
        None,
    );
    // cargo fails, curl's installer succeeds, and wget's is never tried.
    assert_eq!(
        d.actions,
        vec!["probe cargo", "launch cargo 3", "check curl", "launch sh 2"]
    );
    assert_eq!(d.announced, vec![Some(UpdateStrategy::Cargo)]);
    assert_eq!(d.log, vec!["  - cargo install failed: cargo exited with code 101".to_string()]);
    let o = d.outcome;
    match &o {
        UpdateOutcome::Updated { current, latest, strategy } => {
            assert_eq!(current, "1.1.1");
            assert_eq!(latest, "1.2.0");
            assert_eq!(*strategy, UpdateStrategy::InstallerCurl);
        }
        _ => panic!("expected an update"),
    }
    assert_eq!(update_exit_code(&o), 0);
    let rep = update_report(&o);
    assert!(rep.success);
    assert_eq!(rep.message, "Updated from v1.1.1 to v1.2.0");
    assert_eq!(rep.update_available, Some(true));
    assert_eq!(rep.strategy.as_deref(), Some("installer_curl"));
    assert!(rep.attempts.is_none());
    assert_eq!(
        update_summary(&o, &Config::new().with_colors(false)),
        vec!["".to_string(), "  ok Updated to v1.2.0 via curl shell installer".to_string()]
    );
}

#[test]
fn cargo_success_is_confirmed_by_the_installed_version() {
    let d = drive(
        Ok("1.2.0".to_string()),
        true,
        TargetOs::Unix,
        &["curl"],
        &|_| exits(true, 0),
        Some("1.2.0"),
    );
    assert_eq!(d.actions, vec!["probe cargo", "launch cargo 3", "read version"]);
    assert!(matches!(d.outcome, UpdateOutcome::Updated { strategy: UpdateStrategy::Cargo, .. }));

    // crates.io still serves the old version: fall through to the installer.
    let d = drive(
        Ok("1.2.0".to_string()),
        true,
        TargetOs::Unix,
        &["curl"],
        &|_| exits(true, 0),
        Some("1.1.1"),
    );
    assert_eq!(
        d.actions,
        vec!["probe cargo", "launch cargo 3", "read version", "check curl", "launch sh 2"]
    );
    assert_eq!(d.log.len(), 1);
    assert!(d.log[0].starts_with("  - cargo install failed: cargo install reported success but"));
    assert!(matches!(
        d.outcome,
        UpdateOutcome::Updated { strategy: UpdateStrategy::InstallerCurl, .. }
    ));
}

#[test]
fn update_lists_every_failed_strategy() {
    let d = drive(
        Ok("2.0.0".to_string()),
        false,
        TargetOs::Unix,
        &["wget"],
        &|_| exits(false, 1),
        None,
    );
    assert_eq!(d.actions, vec!["probe cargo", "check curl", "check wget", "launch sh 2"]);
    assert_eq!(
        d.log,
        vec![
            "  - skipped curl shell installer: curl not on PATH".to_string(),
            "  - wget shell installer failed: sh exited with code 1".to_string(),
        ]
    );
    let o = d.outcome;
    let attempts = match &o {
        UpdateOutcome::UpdateFailed { latest, attempts, .. } => {
            assert_eq!(latest, "2.0.0");
            attempts
        }
        _ => panic!("expected a failed update"),
    };
    assert_eq!(attempts.len(), 2);
    assert_eq!(attempts[0].kind, AttemptKind::Skipped);
    assert_eq!(attempts[1].kind, AttemptKind::Failed);
    assert_eq!(update_exit_code(&o), 2);
    let rep = update_report(&o);
    assert!(!rep.success);
    assert_eq!(rep.message, "Update failed; see attempts");
    let listed = rep.attempts.unwrap();
    assert_eq!(listed.len(), 2);
    assert_eq!(listed[0].strategy, "installer_curl");
    assert_eq!(listed[0].result, "skipped");
    assert_eq!(listed[0].message, "curl not on PATH");
    assert_eq!(listed[1].strategy, "installer_wget");
    assert_eq!(listed[1].result, "failed");
    assert_eq!(
        update_summary(&o, &Config::new().with_colors(false)),
        vec![
            "".to_string(),
            "  x Update failed. Strategies attempted:".to_string(),
            "      - curl shell installer (skipped): curl not on PATH".to_string(),
            "      - wget shell installer (failed): sh exited with code 1".to_string(),
            "".to_string(),
            "  To update manually, see: https://qork.me/install".to_string(),
        ]
    );
}

#[test]
fn strategies_foreign_to_the_platform_are_skipped_without_running() {
    let plan = try_strategy(UpdateStrategy::InstallerPowerShell, TargetOs::Windows).unwrap();
    let state = UpdateState::Trying {
        current: "1.1.1".to_string(),
        os: TargetOs::Windows,
        latest: "1.2.0".to_string(),
        strategies: vec![UpdateStrategy::InstallerPowerShell, UpdateStrategy::InstallerCurl],
        next: 0,
        attempts: Vec::new(),
        stage: PlanStage::Running(plan),
    };
    let step = update_step(state, UpdateEvent::Ended(CommandOutcome::NotFound));
    assert_eq!(
        step.log,
        vec![
            "  - skipped PowerShell installer: powershell not on PATH".to_string(),
            "  - skipped curl shell installer: curl installer is Unix-only".to_string(),
        ]
    );
    match step.action {
        UpdateAction::Finish(UpdateOutcome::UpdateFailed { attempts, .. }) => {
            assert_eq!(attempts.len(), 2);
            assert!(attempts.iter().all(|a| a.kind == AttemptKind::Skipped));
            assert_eq!(attempts[1].strategy, UpdateStrategy::InstallerCurl);
        }
        _ => panic!("expected the run to end"),
    }
    assert!(matches!(step.state, UpdateState::Over));
}

#[test]
fn update_announcement_names_versions_and_first_strategy() {
    let off = Config::new().with_colors(false);
    assert_eq!(
        update_announcement("1.1.1", "1.2.0", Some(UpdateStrategy::Cargo), &off),
        vec![
            "  * Update available: v1.1.1 -> v1.2.0".to_string(),
            "  * Updating via cargo install...".to_string(),
            "".to_string(),
        ]
    );
    assert_eq!(
        update_announcement("1.1.1", "1.2.0", None, &off),
        vec!["  * Update available: v1.1.1 -> v1.2.0".to_string(), "".to_string()]
    );
}
