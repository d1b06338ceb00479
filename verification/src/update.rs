//! Self-update and uninstall for qork: the decisions.
//!
//! `qork update` checks the GitHub Releases API for a newer tag and, if found,
//! re-runs the matching install path: `cargo install` when cargo is present,
//! otherwise the cargo-dist shell (Unix) / PowerShell (Windows) installer.
//! This module decides what to ask, what to run, in which order, and what
//! each outcome means, one step at a time (`update_step`); the requests and
//! processes themselves are the caller's.
use vstd::prelude::*;

use serde_json::Value;

use crate::api::{json_member_str, json_string_members, member, opt_view};
use crate::config::Config;
use crate::text::{
    decimal, i32_decimal, is_ws, join2, join3, non_ws_suffix_len, signed_decimal, str_eq,
    trimmed, trimmed_end, trim_str, u64_decimal, lemma_non_ws_suffix_len_is, lemma_ws_suffix_len_is,
};
use crate::version::{is_newer, newer, post_install_version_ok, version_core};

verus! {

/// GitHub API endpoint for the latest release.
pub const RELEASES_URL: &'static str = "https://api.github.com/repos/QubeTX/qork/releases/latest";

/// Shell installer URL (macOS/Linux).
pub const SHELL_INSTALLER: &'static str =
    "https://github.com/QubeTX/qork/releases/latest/download/qork-installer.sh";

/// PowerShell installer URL (Windows).
pub const PS_INSTALLER: &'static str =
    "https://github.com/QubeTX/qork/releases/latest/download/qork-installer.ps1";

pub const CRATE_NAME: &'static str = "qork";

pub const MANUAL_INSTALL_URL: &'static str = "https://qork.me/install";

// ── Strategy types ─────────────────────────────────────────────────

#[derive(Debug, Clone, Copy, PartialEq, Eq, Structural)]
pub enum UpdateStrategy {
    Cargo,
    InstallerCurl,
    InstallerWget,
    InstallerPowerShell,
    InstallerPwsh,
}

pub open spec fn label_text(s: UpdateStrategy) -> Seq<char> {
    match s {
        UpdateStrategy::Cargo => "cargo install"@,
        UpdateStrategy::InstallerCurl => "curl shell installer"@,
        UpdateStrategy::InstallerWget => "wget shell installer"@,
        UpdateStrategy::InstallerPowerShell => "PowerShell installer"@,
        UpdateStrategy::InstallerPwsh => "pwsh installer"@,
    }
}

pub open spec fn json_id_text(s: UpdateStrategy) -> Seq<char> {
    match s {
        UpdateStrategy::Cargo => "cargo"@,
        UpdateStrategy::InstallerCurl => "installer_curl"@,
        UpdateStrategy::InstallerWget => "installer_wget"@,
        UpdateStrategy::InstallerPowerShell => "installer_powershell"@,
        UpdateStrategy::InstallerPwsh => "installer_pwsh"@,
    }
}

impl UpdateStrategy {
    pub fn label(self) -> (r: &'static str)
        ensures
            r@ == label_text(self),
    {
        match self {
            UpdateStrategy::Cargo => "cargo install",
            UpdateStrategy::InstallerCurl => "curl shell installer",
            UpdateStrategy::InstallerWget => "wget shell installer",
            UpdateStrategy::InstallerPowerShell => "PowerShell installer",
            UpdateStrategy::InstallerPwsh => "pwsh installer",
        }
    }

    pub fn json_id(self) -> (r: &'static str)
        ensures
            r@ == json_id_text(self),
    {
        match self {
            UpdateStrategy::Cargo => "cargo",
            UpdateStrategy::InstallerCurl => "installer_curl",
            UpdateStrategy::InstallerWget => "installer_wget",
            UpdateStrategy::InstallerPowerShell => "installer_powershell",
            UpdateStrategy::InstallerPwsh => "installer_pwsh",
        }
    }
}

#[derive(Debug, Clone, Copy, PartialEq, Eq, Structural)]
pub enum TargetOs {
    Unix,
    Windows,
}

#[derive(Debug)]
pub enum StrategyError {
    /// Required tool unavailable / could not be spawned.
    Preflight(String),
    /// Strategy launched and exited non-zero.
    Runtime(String),
}

#[derive(Debug, Clone, Copy, PartialEq, Eq, Structural)]
pub enum AttemptKind {
    Skipped,
    Failed,
}

#[derive(Debug)]
pub struct AttemptRecord {
    pub strategy: UpdateStrategy,
    pub kind: AttemptKind,
    pub message: String,
}

// ── Color helpers ──────────────────────────────────────────────────

/// `text` between the ANSI escape `open` and the reset, when colors are on.
pub open spec fn painted(open: Seq<char>, text: Seq<char>, colors: bool) -> Seq<char> {
    if colors {
        open + text + "\x1b[0m"@
    } else {
        text
    }
}

fn paint(open: &str, text: &str, colors: bool) -> (r: String)
    ensures
        r@ == painted(open@, text@, colors),
{
    if colors {
        join3(open, text, "\x1b[0m")
    } else {
        String::from_str(text)
    }
}

pub fn green(text: &str, config: &Config) -> (r: String)
    ensures
        r@ == painted("\x1b[32m"@, text@, config.use_colors),
{
    paint("\x1b[32m", text, config.use_colors)
}

pub fn red(text: &str, config: &Config) -> (r: String)
    ensures
        r@ == painted("\x1b[31m"@, text@, config.use_colors),
{
    paint("\x1b[31m", text, config.use_colors)
}

pub fn cyan(text: &str, config: &Config) -> (r: String)
    ensures
        r@ == painted("\x1b[36m"@, text@, config.use_colors),
{
    paint("\x1b[36m", text, config.use_colors)
}

// ── Version check ──────────────────────────────────────────────────

pub open spec fn rate_limit_message() -> Seq<char> {
    "GitHub API rate limit exceeded (unauthenticated requests are capped at 60/hour per IP). Wait for the reset and try again, or update manually."@
}

/// User-facing message for an HTTP error from the releases API.
pub open spec fn http_status_text(code: u16, ratelimit_remaining: Option<Seq<char>>) -> Seq<char> {
    if code == 403 && ratelimit_remaining == Some("0"@) {
        rate_limit_message()
    } else {
        "GitHub API returned HTTP "@ + decimal(code as nat) + " when checking for updates"@
    }
}

/// User-facing message for an HTTP error from the releases API.
pub fn http_status_message(code: u16, ratelimit_remaining: Option<&str>) -> (r: String)
    ensures
        r@ == http_status_text(
            code,
            match ratelimit_remaining {
                Some(s) => Some(s@),
                None => None,
            },
        ),
{
    let exhausted = match ratelimit_remaining {
        Some(s) => str_eq(s, "0"),
        None => false,
    };
    if code == 403 && exhausted {
        String::from_str(
            "GitHub API rate limit exceeded (unauthenticated requests are capped at 60/hour per IP). Wait for the reset and try again, or update manually.",
        )
    } else {
        let digits = u64_decimal(code as u64);
        join3("GitHub API returned HTTP ", digits.as_str(), " when checking for updates")
    }
}

/// How the request for the latest release failed.
#[derive(Debug)]
pub enum FetchFailure {
    /// An error status, with the `x-ratelimit-remaining` header when sent.
    Status(u16, Option<String>),
    /// The network failed; the transport's complaint.
    Transport(String),
}

/// The user-facing message for a failed release check.
pub fn classify_fetch_error(e: FetchFailure) -> (r: String)
    ensures
        e matches FetchFailure::Status(code, h) ==> r@ == http_status_text(code, opt_view(h)),
        e matches FetchFailure::Transport(t) ==> r@ == "Network error reaching GitHub: "@ + t@,
{
    match e {
        FetchFailure::Status(code, header) => match header {
            Some(h) => http_status_message(code, Some(h.as_str())),
            None => http_status_message(code, None),
        },
        FetchFailure::Transport(t) => join2("Network error reaching GitHub: ", t.as_str()),
    }
}

/// How the request for the latest release ended.
#[derive(Debug)]
pub enum FetchReply {
    /// A success status with this JSON body.
    Body(Value),
    /// A success status whose body was not JSON; the parser's complaint.
    Unparseable(String),
    /// The request failed.
    Failed(FetchFailure),
}

/// A release tag without its leading `v` (`v1.2.3` → `1.2.3`).
pub open spec fn tag_version(tag: Seq<char>) -> Seq<char> {
    if tag.len() > 0 && tag[0] == 'v' {
        tag.drop_first()
    } else {
        tag
    }
}

/// The latest version named by a release's `tag_name`, or the error when
/// the release carried none.
pub fn latest_version_from_tag(tag: Option<String>) -> (r: Result<String, String>)
    ensures
        match tag {
            Some(t) => r matches Ok(v) && v@ == tag_version(t@),
            None => r matches Err(m) && m@ == "Missing tag_name in response"@,
        },
{
    match tag {
        Some(t) => {
            let s = t.as_str();
            let n = s.unicode_len();
            if n > 0 && s.get_char(0) == 'v' {
                proof {
                    assert(s@.subrange(1, n as int) =~= s@.drop_first());
                }
                Ok(String::from_str(s.substring_char(1, n)))
            } else {
                Ok(t)
            }
        },
        None => Err(String::from_str("Missing tag_name in response")),
    }
}

/// What the reply to the release check means: the latest version, or the
/// message to show. The version is the release's `tag_name` without its
/// leading `v`.
pub fn fetch_latest_version(reply: FetchReply) -> (r: Result<String, String>)
    ensures
        reply matches FetchReply::Body(b) ==> match member(json_string_members(b), "tag_name"@) {
            Some(t) => r matches Ok(v) && v@ == tag_version(t),
            None => r matches Err(m) && m@ == "Missing tag_name in response"@,
        },
        reply matches FetchReply::Unparseable(t) ==> (r matches Err(m) && m@
            == "Failed to parse response: "@ + t@),
        reply matches FetchReply::Failed(FetchFailure::Transport(t)) ==> (r matches Err(m) && m@
            == "Network error reaching GitHub: "@ + t@),
        reply matches FetchReply::Failed(FetchFailure::Status(code, h)) ==> (r matches Err(m) && m@
            == http_status_text(code, opt_view(h))),
{
    match reply {
        FetchReply::Body(body) => latest_version_from_tag(json_member_str(&body, "tag_name")),
        FetchReply::Unparseable(t) => Err(join2("Failed to parse response: ", t.as_str())),
        FetchReply::Failed(e) => Err(classify_fetch_error(e)),
    }
}

// ── Strategy ordering & execution ──────────────────────────────────

/// The strategies to try, in order: `cargo install` first when cargo can be
/// invoked, then the platform's installers.
pub open spec fn strategy_order(cargo_invokable: bool, os: TargetOs) -> Seq<UpdateStrategy> {
    (if cargo_invokable {
        seq![UpdateStrategy::Cargo]
    } else {
        Seq::empty()
    }) + match os {
        TargetOs::Unix => seq![UpdateStrategy::InstallerCurl, UpdateStrategy::InstallerWget],
        TargetOs::Windows => seq![
            UpdateStrategy::InstallerPowerShell,
            UpdateStrategy::InstallerPwsh,
        ],
    }
}

/// When cargo can be invoked, `cargo install` is tried first, on every
/// platform, followed by the same list as without cargo: the platform's two
/// installers (curl before wget on Unix, PowerShell before pwsh on
/// Windows), each of which can run there, and no `cargo install`.
pub proof fn lemma_cargo_first_when_invokable(os: TargetOs)
    ensures
        strategy_order(true, os) == seq![UpdateStrategy::Cargo] + strategy_order(false, os),
        strategy_order(true, os)[0] == UpdateStrategy::Cargo,
        strategy_order(false, os).len() == 2,
        !strategy_order(false, os).contains(UpdateStrategy::Cargo),
        os == TargetOs::Unix ==> strategy_order(false, os) == seq![
            UpdateStrategy::InstallerCurl,
            UpdateStrategy::InstallerWget,
        ],
        os == TargetOs::Windows ==> strategy_order(false, os) == seq![
            UpdateStrategy::InstallerPowerShell,
            UpdateStrategy::InstallerPwsh,
        ],
        forall|i: int|
            0 <= i < strategy_order(false, os).len() ==> strategy_plan(
                #[trigger] strategy_order(false, os)[i],
                os,
            ) is Ok,
{
    let w = strategy_order(false, os);
    assert(seq![UpdateStrategy::Cargo] + w =~= strategy_order(true, os));
    assert(w.len() == 2);
    if w.contains(UpdateStrategy::Cargo) {
        let i = choose|i: int| 0 <= i < w.len() && w[i] == UpdateStrategy::Cargo;
        assert(w[i] != UpdateStrategy::Cargo);
    }
}

pub fn order_strategies(cargo_invokable: bool, os: TargetOs) -> (r: Vec<UpdateStrategy>)
    ensures
        r@ == strategy_order(cargo_invokable, os),
{
    let mut strategies = Vec::new();
    if cargo_invokable {
        strategies.push(UpdateStrategy::Cargo);
    }
    match os {
        TargetOs::Unix => {
            strategies.push(UpdateStrategy::InstallerCurl);
            strategies.push(UpdateStrategy::InstallerWget);
        },
        TargetOs::Windows => {
            strategies.push(UpdateStrategy::InstallerPowerShell);
            strategies.push(UpdateStrategy::InstallerPwsh);
        },
    }
    assert(strategies@ =~= strategy_order(cargo_invokable, os));
    strategies
}

/// A process to run for one strategy.
#[derive(Debug)]
pub struct CommandPlan {
    /// A tool that must answer `--version` before anything runs.
    pub preflight_tool: Option<String>,
    /// The program to launch.
    pub launcher: String,
    /// Its arguments.
    pub args: Vec<String>,
    /// After success, re-run the installed binary and compare its version.
    pub verify_installed: bool,
}

/// The texts of a list of strings.
pub open spec fn texts(v: Seq<String>) -> Seq<Seq<char>> {
    v.map_values(|s: String| s@)
}

/// A plan as plain values.
pub struct PlanView {
    pub preflight_tool: Option<Seq<char>>,
    pub launcher: Seq<char>,
    pub args: Seq<Seq<char>>,
    pub verify_installed: bool,
}

impl View for CommandPlan {
    type V = PlanView;

    open spec fn view(&self) -> PlanView {
        PlanView {
            preflight_tool: opt_view(self.preflight_tool),
            launcher: self.launcher@,
            args: texts(self.args@),
            verify_installed: self.verify_installed,
        }
    }
}

/// An installer that runs a shell script fetched by `tool`.
pub open spec fn shell_plan(tool: Seq<char>, script: Seq<char>) -> PlanView {
    PlanView {
        preflight_tool: Some(tool),
        launcher: "sh"@,
        args: seq!["-c"@, script],
        verify_installed: false,
    }
}

/// The PowerShell installer run by `launcher`.
pub open spec fn powershell_plan(launcher: Seq<char>) -> PlanView {
    PlanView {
        preflight_tool: None,
        launcher,
        args: seq![
            "-NoProfile"@,
            "-NonInteractive"@,
            "-ExecutionPolicy"@,
            "Bypass"@,
            "-Command"@,
            powershell_script(),
        ],
        verify_installed: false,
    }
}

/// What runs for `strategy` on `os`, or the reason it is skipped there.
pub open spec fn strategy_plan(strategy: UpdateStrategy, os: TargetOs) -> Result<PlanView, Seq<char>> {
    match strategy {
        UpdateStrategy::Cargo => Ok(
            PlanView {
                preflight_tool: None,
                launcher: "cargo"@,
                args: seq!["install"@, CRATE_NAME@, "--force"@],
                verify_installed: true,
            },
        ),
        UpdateStrategy::InstallerCurl => match os {
            TargetOs::Unix => Ok(shell_plan("curl"@, curl_script())),
            TargetOs::Windows => Err("curl installer is Unix-only"@),
        },
        UpdateStrategy::InstallerWget => match os {
            TargetOs::Unix => Ok(shell_plan("wget"@, wget_script())),
            TargetOs::Windows => Err("wget installer is Unix-only"@),
        },
        UpdateStrategy::InstallerPowerShell => match os {
            TargetOs::Windows => Ok(powershell_plan("powershell"@)),
            TargetOs::Unix => Err("PowerShell installer is Windows-only"@),
        },
        UpdateStrategy::InstallerPwsh => match os {
            TargetOs::Windows => Ok(powershell_plan("pwsh"@)),
            TargetOs::Unix => Err("PowerShell installer is Windows-only"@),
        },
    }
}

pub open spec fn curl_script() -> Seq<char> {
    "set -eu; curl --proto '=https' --tlsv1.2 -LsSf "@ + SHELL_INSTALLER@ + " | sh"@
}

pub open spec fn wget_script() -> Seq<char> {
    "set -eu; wget -qO- "@ + SHELL_INSTALLER@ + " | sh"@
}

pub open spec fn powershell_script() -> Seq<char> {
    "$ErrorActionPreference='Stop'; irm "@ + PS_INSTALLER@ + " | iex"@
}

fn strings2(a: &str, b: &str) -> (r: Vec<String>)
    ensures
        texts(r@) == seq![a@, b@],
{
    let mut v = Vec::new();
    v.push(String::from_str(a));
    v.push(String::from_str(b));
    assert(texts(v@) =~= seq![a@, b@]);
    v
}

/// The error for a tool that is not installed (or not on `PATH`).
pub fn not_on_path(tool: &str) -> (e: StrategyError)
    ensures
        e matches StrategyError::Preflight(m) && m@ == tool@ + " not on PATH"@,
{
    StrategyError::Preflight(join2(tool, " not on PATH"))
}

pub fn try_installer_curl(os: TargetOs) -> (r: Result<CommandPlan, StrategyError>)
    ensures
        os == TargetOs::Unix ==> (r matches Ok(p) && opt_view(p.preflight_tool) == Some("curl"@)
            && p.launcher@ == "sh"@ && texts(p.args@) == seq!["-c"@, curl_script()]
            && !p.verify_installed),
        os == TargetOs::Windows ==> (r matches Err(StrategyError::Preflight(m)) && m@
            == "curl installer is Unix-only"@),
{
    match os {
        TargetOs::Unix => {
            let script = join3(
                "set -eu; curl --proto '=https' --tlsv1.2 -LsSf ",
                SHELL_INSTALLER,
                " | sh",
            );
            Ok(
                CommandPlan {
                    preflight_tool: Some(String::from_str("curl")),
                    launcher: String::from_str("sh"),
                    args: strings2("-c", script.as_str()),
                    verify_installed: false,
                },
            )
        },
        TargetOs::Windows => Err(
            StrategyError::Preflight(String::from_str("curl installer is Unix-only")),
        ),
    }
}

pub fn try_installer_wget(os: TargetOs) -> (r: Result<CommandPlan, StrategyError>)
    ensures
        os == TargetOs::Unix ==> (r matches Ok(p) && opt_view(p.preflight_tool) == Some("wget"@)
            && p.launcher@ == "sh"@ && texts(p.args@) == seq!["-c"@, wget_script()]
            && !p.verify_installed),
        os == TargetOs::Windows ==> (r matches Err(StrategyError::Preflight(m)) && m@
            == "wget installer is Unix-only"@),
{
    match os {
        TargetOs::Unix => {
            let script = join3("set -eu; wget -qO- ", SHELL_INSTALLER, " | sh");
            Ok(
                CommandPlan {
                    preflight_tool: Some(String::from_str("wget")),
                    launcher: String::from_str("sh"),
                    args: strings2("-c", script.as_str()),
                    verify_installed: false,
                },
            )
        },
        TargetOs::Windows => Err(
            StrategyError::Preflight(String::from_str("wget installer is Unix-only")),
        ),
    }
}

pub fn try_installer_powershell(launcher: &str, os: TargetOs) -> (r: Result<
    CommandPlan,
    StrategyError,
>)
    ensures
        os == TargetOs::Windows ==> (r matches Ok(p) && p.preflight_tool is None && p.launcher@
            == launcher@ && texts(p.args@) == seq![
            "-NoProfile"@,
            "-NonInteractive"@,
            "-ExecutionPolicy"@,
            "Bypass"@,
            "-Command"@,
            powershell_script(),
        ] && !p.verify_installed),
        os == TargetOs::Unix ==> (r matches Err(StrategyError::Preflight(m)) && m@
            == "PowerShell installer is Windows-only"@),
{
    match os {
        TargetOs::Windows => {
            let script = join3("$ErrorActionPreference='Stop'; irm ", PS_INSTALLER, " | iex");
            let mut args = Vec::new();
            args.push(String::from_str("-NoProfile"));
            args.push(String::from_str("-NonInteractive"));
            args.push(String::from_str("-ExecutionPolicy"));
            args.push(String::from_str("Bypass"));
            args.push(String::from_str("-Command"));
            args.push(script);
            assert(texts(args@) =~= seq![
                "-NoProfile"@,
                "-NonInteractive"@,
                "-ExecutionPolicy"@,
                "Bypass"@,
                "-Command"@,
                powershell_script(),
            ]);
            Ok(
                CommandPlan {
                    preflight_tool: None,
                    launcher: String::from_str(launcher),
                    args,
                    verify_installed: false,
                },
            )
        },
        TargetOs::Unix => Err(
            StrategyError::Preflight(String::from_str("PowerShell installer is Windows-only")),
        ),
    }
}

/// What to run for one strategy on this platform, or why it is skipped.
/// `cargo install qork --force` is confirmed afterwards by re-running the
/// installed binary, since cargo's exit 0 doesn't guarantee the running
/// binary changed (crates.io publish lag, or another qork earlier on PATH).
pub fn try_strategy(strategy: UpdateStrategy, os: TargetOs) -> (r: Result<
    CommandPlan,
    StrategyError,
>)
    ensures
        match r {
            Ok(p) => strategy_plan(strategy, os) == Ok::<PlanView, Seq<char>>(p@),
            Err(e) => e matches StrategyError::Preflight(m) && strategy_plan(strategy, os)
                == Err::<PlanView, Seq<char>>(m@),
        },
{
    match strategy {
        UpdateStrategy::Cargo => {
            let mut args = Vec::new();
            args.push(String::from_str("install"));
            args.push(String::from_str(CRATE_NAME));
            args.push(String::from_str("--force"));
            assert(texts(args@) =~= seq!["install"@, CRATE_NAME@, "--force"@]);
            Ok(
                CommandPlan {
                    preflight_tool: None,
                    launcher: String::from_str("cargo"),
                    args,
                    verify_installed: true,
                },
            )
        },
        UpdateStrategy::InstallerCurl => try_installer_curl(os),
        UpdateStrategy::InstallerWget => try_installer_wget(os),
        UpdateStrategy::InstallerPowerShell => try_installer_powershell("powershell", os),
        UpdateStrategy::InstallerPwsh => try_installer_powershell("pwsh", os),
    }
}

/// How a launched process ended.
#[derive(Debug)]
pub enum CommandOutcome {
    /// The program was not found.
    NotFound,
    /// The program could not be spawned; the system's complaint.
    SpawnFailed(String),
    /// The program ran and exited, successfully or with this code (none
    /// when it was killed by a signal).
    Exited { success: bool, code: Option<i32> },
}

/// `r` is what the ending `outcome` of the launched `launcher` means for its
/// strategy.
pub open spec fn command_status(
    launcher: Seq<char>,
    outcome: CommandOutcome,
    r: Result<(), StrategyError>,
) -> bool {
    match outcome {
        CommandOutcome::NotFound => r matches Err(StrategyError::Preflight(m)) && m@ == launcher
            + " not on PATH"@,
        CommandOutcome::SpawnFailed(e) => r matches Err(StrategyError::Preflight(m)) && m@
            == "Failed to spawn "@ + launcher + ": "@ + e@,
        CommandOutcome::Exited { success, code } => if success {
            r is Ok
        } else {
            r matches Err(StrategyError::Runtime(m)) && m@ == launcher + " exited with code "@
                + signed_decimal(
                match code {
                    Some(c) => c as int,
                    None => -1,
                },
            )
        },
    }
}

/// What a launched process's ending means for its strategy.
pub fn run_command_status(launcher: &str, outcome: CommandOutcome) -> (r: Result<(), StrategyError>)
    ensures
        command_status(launcher@, outcome, r),
{
    match outcome {
        CommandOutcome::NotFound => Err(not_on_path(launcher)),
        CommandOutcome::SpawnFailed(e) => {
            let head = join3("Failed to spawn ", launcher, ": ");
            Err(StrategyError::Preflight(join2(head.as_str(), e.as_str())))
        },
        CommandOutcome::Exited { success, code } => {
            if success {
                Ok(())
            } else {
                let c: i32 = match code {
                    Some(c) => c,
                    None => -1,
                };
                let digits = i32_decimal(c);
                Err(
                    StrategyError::Runtime(
                        join3(launcher, " exited with code ", digits.as_str()),
                    ),
                )
            }
        },
    }
}

/// The last whitespace-separated word of `s` (empty when there is none).
pub open spec fn last_word(s: Seq<char>) -> Seq<char> {
    let t = trimmed_end(s);
    t.skip(t.len() - non_ws_suffix_len(t))
}

/// The version a re-executed `qork --version` reports: the last word of its
/// output (`qork X.Y.Z`), when it exited successfully and printed one.
pub fn installed_version_from_output(success: bool, stdout: &str) -> (r: Option<String>)
    ensures
        !success ==> r is None,
        success ==> (r is None <==> last_word(stdout@).len() == 0),
        r matches Some(v) ==> v@ == last_word(stdout@),
{
    if !success {
        return None;
    }
    let n = stdout.unicode_len();
    let mut end: usize = n;
    while end > 0 && crate::text::char_is_ws(stdout.get_char(end - 1))
        invariant
            n == stdout@.len(),
            end <= n,
            forall|k: int| end <= k < n ==> is_ws(#[trigger] stdout@[k]),
        decreases end,
    {
        end = end - 1;
    }
    let mut start: usize = end;
    while start > 0 && !crate::text::char_is_ws(stdout.get_char(start - 1))
        invariant
            n == stdout@.len(),
            start <= end <= n,
            forall|k: int| start <= k < end ==> !is_ws(#[trigger] stdout@[k]),
        decreases start,
    {
        start = start - 1;
    }
    proof {
        lemma_ws_suffix_len_is(stdout@, end as int);
        let t = trimmed_end(stdout@);
        assert(t =~= stdout@.subrange(0, end as int));
        assert forall|k: int| start <= k < t.len() implies !is_ws(#[trigger] t[k]) by {
            assert(t[k] == stdout@[k]);
        }
        if start > 0 {
            assert(t[start - 1] == stdout@[start - 1]);
        }
        lemma_non_ws_suffix_len_is(t, start as int);
        assert(last_word(stdout@) =~= stdout@.subrange(start as int, end as int));
    }
    if start == end {
        None
    } else {
        Some(String::from_str(stdout.substring_char(start, end)))
    }
}

/// `r` is what the version the re-executed binary reports (`installed`;
/// none when it could not be run) means after `cargo install` reported
/// success for `expected`.
pub open spec fn confirmation(
    expected: Seq<char>,
    installed: Option<String>,
    r: Result<(), StrategyError>,
) -> bool {
    match installed {
        None => r matches Err(StrategyError::Runtime(m)) && m@
            == "cargo install reported success but `qork --version` could not be run to confirm — falling through to the prebuilt installer."@,
        Some(i) => if version_core(i@).len() > 0 && version_core(i@) == version_core(expected) {
            r is Ok
        } else {
            r matches Err(StrategyError::Runtime(m)) && m@
                == "cargo install reported success but `qork --version` still reports v"@ + i@
                + " (expected v"@ + expected + "); crates.io may not have v"@ + expected
                + " yet — falling through to the prebuilt installer."@
        },
    }
}

/// Confirm `cargo install qork --force` actually landed `expected`, given the
/// version the re-executed binary reports (none when it could not be run).
/// cargo reports success even when crates.io still serves the old version
/// (publish lag); on mismatch, fall through to the prebuilt installer.
pub fn verify_cargo_post_install(expected: &str, installed: Option<String>) -> (r: Result<
    (),
    StrategyError,
>)
    ensures
        confirmation(expected@, installed, r),
{
    match installed {
        Some(installed) => {
            if post_install_version_ok(installed.as_str(), expected) {
                Ok(())
            } else {
                let a = join3(
                    "cargo install reported success but `qork --version` still reports v",
                    installed.as_str(),
                    " (expected v",
                );
                let b = join3(a.as_str(), expected, "); crates.io may not have v");
                Err(
                    StrategyError::Runtime(
                        join3(
                            b.as_str(),
                            expected,
                            " yet — falling through to the prebuilt installer.",
                        ),
                    ),
                )
            }
        },
        None => Err(
            StrategyError::Runtime(
                String::from_str(
                    "cargo install reported success but `qork --version` could not be run to confirm — falling through to the prebuilt installer.",
                ),
            ),
        ),
    }
}

/// The record of a strategy that did not succeed.
pub fn record_attempt(strategy: UpdateStrategy, e: StrategyError) -> (r: AttemptRecord)
    ensures
        r.strategy == strategy,
        e matches StrategyError::Preflight(m) ==> r.kind == AttemptKind::Skipped && r.message == m,
        e matches StrategyError::Runtime(m) ==> r.kind == AttemptKind::Failed && r.message == m,
{
    match e {
        StrategyError::Preflight(message) => AttemptRecord {
            strategy,
            kind: AttemptKind::Skipped,
            message,
        },
        StrategyError::Runtime(message) => AttemptRecord {
            strategy,
            kind: AttemptKind::Failed,
            message,
        },
    }
}

impl AttemptKind {
    pub fn as_str(self) -> (r: &'static str)
        ensures
            r@ == (match self {
                AttemptKind::Skipped => "skipped"@,
                AttemptKind::Failed => "failed"@,
            }),
    {
        match self {
            AttemptKind::Skipped => "skipped",
            AttemptKind::Failed => "failed",
        }
    }
}

/// The progress line printed when a strategy does not succeed.
pub open spec fn attempt_line_text(record: AttemptRecord) -> Seq<char> {
    match record.kind {
        AttemptKind::Skipped => "  - skipped "@ + label_text(record.strategy) + ": "@
            + record.message@,
        AttemptKind::Failed => "  - "@ + label_text(record.strategy) + " failed: "@
            + record.message@,
    }
}

/// The progress line printed when a strategy does not succeed.
pub fn attempt_line(record: &AttemptRecord) -> (r: String)
    ensures
        r@ == attempt_line_text(*record),
{
    match record.kind {
        AttemptKind::Skipped => {
            let head = join3("  - skipped ", record.strategy.label(), ": ");
            join2(head.as_str(), record.message.as_str())
        },
        AttemptKind::Failed => {
            let head = join3("  - ", record.strategy.label(), " failed: ");
            join2(head.as_str(), record.message.as_str())
        },
    }
}

/// `record` is what trying `strategy` records when it comes out as `e`.
pub open spec fn records(record: AttemptRecord, strategy: UpdateStrategy, e: StrategyError) -> bool {
    &&& record.strategy == strategy
    &&& match e {
        StrategyError::Preflight(m) => record.kind == AttemptKind::Skipped && record.message == m,
        StrategyError::Runtime(m) => record.kind == AttemptKind::Failed && record.message == m,
    }
}

// ── The update flow ─────────────────────────────────────────────────

/// How `qork update` ended.
#[derive(Debug)]
pub enum UpdateOutcome {
    /// The latest release could not be learned.
    CheckFailed { current: String, message: String },
    /// The running version is not older than the latest release.
    UpToDate { current: String, latest: String },
    /// A strategy installed the latest release.
    Updated { current: String, latest: String, strategy: UpdateStrategy },
    /// Every strategy was tried and none succeeded.
    UpdateFailed { current: String, latest: String, attempts: Vec<AttemptRecord> },
}

/// How far the plan of the strategy being tried has got.
#[derive(Debug)]
pub enum PlanStage {
    /// Waiting to learn whether the plan's preflight tool answers.
    CheckingTool(CommandPlan),
    /// The plan's program is running.
    Running(CommandPlan),
    /// The program succeeded; waiting for the version the installed binary
    /// reports.
    Confirming,
}

/// Where a run of `qork update` stands between two steps.
#[derive(Debug)]
pub enum UpdateState {
    /// Waiting for the latest release's version.
    Checking { current: String, os: TargetOs },
    /// An update to `latest` is available; waiting to learn whether cargo
    /// can be invoked.
    Probing { current: String, os: TargetOs, latest: String },
    /// `strategies[next]` is being tried, at `stage`; `attempts` records every
    /// strategy before it, none of which succeeded.
    Trying {
        current: String,
        os: TargetOs,
        latest: String,
        strategies: Vec<UpdateStrategy>,
        next: usize,
        attempts: Vec<AttemptRecord>,
        stage: PlanStage,
    },
    /// The run is over.
    Over,
}

/// What the caller learned by doing the last action.
#[derive(Debug)]
pub enum UpdateEvent {
    /// The latest release's version, or why it could not be learned.
    Fetched(Result<String, String>),
    /// Whether cargo can be invoked.
    CargoProbed(bool),
    /// Whether the preflight tool answered `--version`.
    ToolChecked(bool),
    /// How the launched program ended.
    Ended(CommandOutcome),
    /// The version the re-executed installed binary reports, when it could
    /// be run.
    Reported(Option<String>),
}

/// What the caller does next.
#[derive(Debug)]
pub enum UpdateAction {
    /// Find out whether cargo can be invoked; answer `CargoProbed`.
    ProbeCargo,
    /// Find out whether this tool answers `--version`; answer `ToolChecked`.
    CheckTool(String),
    /// Launch this program with these arguments; answer `Ended`.
    Launch(String, Vec<String>),
    /// Re-run the installed binary with `--version`; answer `Reported`.
    ReadInstalledVersion,
    /// Nothing more: the run ended so.
    Finish(UpdateOutcome),
}

/// One step of a run: the state to keep, the action to take, and what to
/// print first. `announce` is `Some(first)` on the one step where the
/// available update is announced, `first` being the strategy tried first;
/// `log` holds the progress lines of the attempts that ended in this step.
#[derive(Debug)]
pub struct UpdateStep {
    pub state: UpdateState,
    pub action: UpdateAction,
    pub announce: Option<Option<UpdateStrategy>>,
    pub log: Vec<String>,
}

/// The event that `state` waits for.
pub open spec fn awaits(state: UpdateState, event: UpdateEvent) -> bool {
    match state {
        UpdateState::Checking { .. } => event is Fetched,
        UpdateState::Probing { .. } => event is CargoProbed,
        UpdateState::Trying { stage, .. } => match stage {
            PlanStage::CheckingTool(_) => event is ToolChecked,
            PlanStage::Running(_) => event is Ended,
            PlanStage::Confirming => event is Reported,
        },
        UpdateState::Over => false,
    }
}

/// The strategy being tried is one of the list and can run on the
/// platform, and its stage belongs to its plan.
pub open spec fn state_wf(state: UpdateState) -> bool {
    match state {
        UpdateState::Trying { os, strategies, next, stage, .. } => {
            &&& next < strategies@.len()
            &&& strategy_plan(strategies@[next as int], os) matches Ok(plan) && match stage {
                PlanStage::CheckingTool(p) => p@ == plan && plan.preflight_tool is Some,
                PlanStage::Running(p) => p@ == plan,
                PlanStage::Confirming => plan.verify_installed,
            }
        },
        _ => true,
    }
}

/// The first position from `i` on whose strategy can run on `os`, or the
/// length of the list when none can.
pub open spec fn next_runnable(strategies: Seq<UpdateStrategy>, os: TargetOs, i: nat) -> nat
    decreases strategies.len() - i,
{
    if i >= strategies.len() {
        strategies.len()
    } else if strategy_plan(strategies[i as int], os) is Ok {
        i
    } else {
        next_runnable(strategies, os, i + 1)
    }
}

/// `record` says that `strategy` was skipped, for the reason it cannot run
/// on `os`.
pub open spec fn skip_record(record: AttemptRecord, strategy: UpdateStrategy, os: TargetOs) -> bool {
    &&& record.strategy == strategy
    &&& record.kind == AttemptKind::Skipped
    &&& strategy_plan(strategy, os) == Err::<PlanView, Seq<char>>(record.message@)
}

/// `after` is `before` followed by a skip record for each strategy of
/// `strategies` from position `from` up to `to`.
pub open spec fn skips_recorded(
    before: Seq<AttemptRecord>,
    after: Seq<AttemptRecord>,
    strategies: Seq<UpdateStrategy>,
    os: TargetOs,
    from: int,
    to: int,
) -> bool {
    &&& after.len() == before.len() + (to - from)
    &&& after.take(before.len() as int) == before
    &&& forall|k: int|
        from <= k < to ==> skip_record(#[trigger] after[before.len() + k - from], strategies[k], os)
}

/// The progress lines of `records`, in order.
pub open spec fn lines_of(records: Seq<AttemptRecord>) -> Seq<Seq<char>> {
    records.map_values(|r: AttemptRecord| attempt_line_text(r))
}

/// The first thing a plan needs: its preflight tool checked, or else its
/// program launched.
pub open spec fn begins(stage: PlanStage, action: UpdateAction, plan: PlanView) -> bool {
    match plan.preflight_tool {
        Some(t) => (stage matches PlanStage::CheckingTool(p) && p@ == plan) && (
        action matches UpdateAction::CheckTool(x) && x@ == t),
        None => stage matches PlanStage::Running(p) && p@ == plan && launches(action, plan),
    }
}

/// `action` launches the program of `plan`, with its arguments.
pub open spec fn launches(action: UpdateAction, plan: PlanView) -> bool {
    action matches UpdateAction::Launch(l, a) && l@ == plan.launcher && texts(a@) == plan.args
}

/// `s` is a run that is trying `strategies[next]`, with everything else as
/// given.
pub open spec fn trying(
    s: UpdateState,
    current: Seq<char>,
    os: TargetOs,
    latest: Seq<char>,
    strategies: Seq<UpdateStrategy>,
    next: int,
    attempts: Seq<AttemptRecord>,
) -> bool {
    &&& s matches UpdateState::Trying {
        current: c,
        os: o,
        latest: x,
        strategies: ss,
        next: n,
        attempts: a,
        ..
    }
    &&& c@ == current && o == os && x@ == latest && ss@ == strategies && n == next && a@
        == attempts
}

/// `step` goes on from position `from` of `strategies`, with `before` already
/// recorded: the strategies that cannot run on `os` are skipped and recorded,
/// up to the first that can, whose plan begins; when none is left the run
/// ends as failed, with every attempt. The lines of the records after the
/// first `logged` are the step's log.
pub open spec fn goes_on(
    step: UpdateStep,
    current: Seq<char>,
    os: TargetOs,
    latest: Seq<char>,
    strategies: Seq<UpdateStrategy>,
    from: nat,
    before: Seq<AttemptRecord>,
    logged: int,
) -> bool {
    let j = next_runnable(strategies, os, from);
    if j < strategies.len() {
        &&& step.state matches UpdateState::Trying { attempts, stage, .. }
        &&& trying(step.state, current, os, latest, strategies, j as int, attempts@)
        &&& skips_recorded(before, attempts@, strategies, os, from as int, j as int)
        &&& texts(step.log@) == lines_of(attempts@.skip(logged))
        &&& strategy_plan(strategies[j as int], os) matches Ok(plan) && begins(
            stage,
            step.action,
            plan,
        )
    } else {
        &&& step.state is Over
        &&& step.action matches UpdateAction::Finish(
            UpdateOutcome::UpdateFailed { current: c, latest: x, attempts },
        )
        &&& c@ == current && x@ == latest
        &&& skips_recorded(before, attempts@, strategies, os, from as int, strategies.len() as int)
        &&& texts(step.log@) == lines_of(attempts@.skip(logged))
    }
}

/// `step` is what trying `strategies[next]` coming out as `r` leads to: a
/// success ends the run with that strategy, and nothing else runs; a
/// failure is recorded and logged, and the run goes on with the next
/// strategy.
pub open spec fn concludes(
    step: UpdateStep,
    current: Seq<char>,
    os: TargetOs,
    latest: Seq<char>,
    strategies: Seq<UpdateStrategy>,
    next: int,
    attempts: Seq<AttemptRecord>,
    r: Result<(), StrategyError>,
) -> bool {
    &&& step.announce is None
    &&& match r {
        Ok(_) => {
            &&& step.state is Over
            &&& step.action matches UpdateAction::Finish(
                UpdateOutcome::Updated { current: c, latest: x, strategy: s },
            )
            &&& c@ == current && x@ == latest && s == strategies[next]
            &&& step.log@.len() == 0
        },
        Err(e) => exists|record: AttemptRecord|
            #[trigger] records(record, strategies[next], e) && goes_on(
                step,
                current,
                os,
                latest,
                strategies,
                (next + 1) as nat,
                attempts.push(record),
                attempts.len() as int,
            ),
    }
}

/// The state a run of `qork update` starts in, for the version running and
/// the platform.
pub fn update_start(current: &str, os: TargetOs) -> (s: UpdateState)
    ensures
        s matches UpdateState::Checking { current: c, os: o } && c@ == current@ && o == os,
{
    UpdateState::Checking { current: String::from_str(current), os }
}

fn copy_strings(v: &Vec<String>) -> (r: Vec<String>)
    ensures
        texts(r@) == texts(v@),
{
    let mut r: Vec<String> = Vec::new();
    let mut i: usize = 0;
    while i < v.len()
        invariant
            i <= v@.len(),
            texts(r@) == texts(v@.take(i as int)),
        decreases v@.len() - i,
    {
        let ghost before = texts(r@);
        let copy = String::from_str(v[i].as_str());
        assert(copy@ == v@[i as int]@);
        r.push(copy);
        proof {
            assert(texts(r@) =~= before.push(v@[i as int]@));
            assert(v@.take(i as int + 1) =~= v@.take(i as int).push(v@[i as int]));
            assert(texts(r@) =~= texts(v@.take(i as int + 1)));
        }
        i = i + 1;
    }
    assert(v@.take(v@.len() as int) =~= v@);
    r
}

/// The action that launches `plan`'s program.
fn launch_of(plan: &CommandPlan) -> (a: UpdateAction)
    ensures
        launches(a, plan@),
{
    UpdateAction::Launch(String::from_str(plan.launcher.as_str()), copy_strings(&plan.args))
}

/// Where a plan starts, and the action that starts it.
fn begin(plan: CommandPlan) -> (r: (PlanStage, UpdateAction))
    ensures
        begins(r.0, r.1, plan@),
{
    match &plan.preflight_tool {
        Some(tool) => {
            let action = UpdateAction::CheckTool(String::from_str(tool.as_str()));
            (PlanStage::CheckingTool(plan), action)
        },
        None => {
            let action = launch_of(&plan);
            (PlanStage::Running(plan), action)
        },
    }
}

/// Skip, from position `from` on, the strategies that cannot run on `os`,
/// up to the first that can, and begin its plan.
fn go_on(
    current: String,
    os: TargetOs,
    latest: String,
    strategies: Vec<UpdateStrategy>,
    from: usize,
    recorded: Vec<AttemptRecord>,
    logged: usize,
    announce: Option<Option<UpdateStrategy>>,
    log: Vec<String>,
) -> (step: UpdateStep)
    requires
        from <= strategies@.len(),
        logged <= recorded@.len(),
        texts(log@) == lines_of(recorded@.skip(logged as int)),
    ensures
        goes_on(step, current@, os, latest@, strategies@, from as nat, recorded@, logged as int),
        step.announce == announce,
        state_wf(step.state),
{
    let ghost before = recorded@;
    let mut attempts = recorded;
    let mut log = log;
    let mut i: usize = from;
    assert(attempts@.take(before.len() as int) =~= before);
    while i < strategies.len()
        invariant
            from <= i <= strategies@.len(),
            before == recorded@,
            logged <= before.len(),
            next_runnable(strategies@, os, from as nat) == next_runnable(strategies@, os, i as nat),
            skips_recorded(before, attempts@, strategies@, os, from as int, i as int),
            texts(log@) == lines_of(attempts@.skip(logged as int)),
        decreases strategies@.len() - i,
    {
        match try_strategy(strategies[i], os) {
            Ok(plan) => {
                assert(next_runnable(strategies@, os, i as nat) == i);
                let (stage, action) = begin(plan);
                return UpdateStep {
                    state: UpdateState::Trying {
                        current,
                        os,
                        latest,
                        strategies,
                        next: i,
                        attempts,
                        stage,
                    },
                    action,
                    announce,
                    log,
                };
            },
            Err(e) => {
                let record = record_attempt(strategies[i], e);
                let line = attempt_line(&record);
                let ghost old_attempts = attempts@;
                let ghost old_log = texts(log@);
                let ghost said = line@;
                log.push(line);
                attempts.push(record);
                proof {
                    assert(texts(log@) =~= old_log.push(said));
                    assert(attempts@.skip(logged as int) =~= old_attempts.skip(logged as int).push(
                        attempts@.last(),
                    ));
                    assert(lines_of(attempts@.skip(logged as int)) =~= lines_of(
                        old_attempts.skip(logged as int),
                    ).push(said));
                    assert(attempts@.take(before.len() as int) =~= old_attempts.take(
                        before.len() as int,
                    ));
                    assert forall|k: int| from <= k < i + 1 implies skip_record(
                        #[trigger] attempts@[before.len() + k - from],
                        strategies@[k],
                        os,
                    ) by {
                        if k < i {
                            assert(attempts@[before.len() + k - from] == old_attempts[before.len()
                                + k - from]);
                        }
                    }
                }
                i = i + 1;
            },
        }
    }
    UpdateStep {
        state: UpdateState::Over,
        action: UpdateAction::Finish(UpdateOutcome::UpdateFailed { current, latest, attempts }),
        announce,
        log,
    }
}

/// Where trying `strategies[next]` coming out as `r` leads.
fn conclude(
    current: String,
    os: TargetOs,
    latest: String,
    strategies: Vec<UpdateStrategy>,
    next: usize,
    attempts: Vec<AttemptRecord>,
    r: Result<(), StrategyError>,
) -> (step: UpdateStep)
    requires
        next < strategies@.len(),
    ensures
        concludes(step, current@, os, latest@, strategies@, next as int, attempts@, r),
        state_wf(step.state),
{
    match r {
        Ok(()) => {
            let strategy = strategies[next];
            UpdateStep {
                state: UpdateState::Over,
                action: UpdateAction::Finish(UpdateOutcome::Updated { current, latest, strategy }),
                announce: None,
                log: Vec::new(),
            }
        },
        Err(e) => {
            let ghost ge = e;
            let ghost before = attempts@;
            let count: usize = strategies.len();
            let record = record_attempt(strategies[next], e);
            let ghost rec = record;
            let line = attempt_line(&record);
            let mut attempts = attempts;
            let logged = attempts.len();
            let mut log: Vec<String> = Vec::new();
            log.push(line);
            attempts.push(record);
            proof {
                assert(records(rec, strategies@[next as int], ge));
                assert(attempts@.skip(before.len() as int) =~= seq![rec]);
                assert(texts(log@) =~= lines_of(attempts@.skip(before.len() as int)));
            }
            assert(next < count);
            go_on(current, os, latest, strategies, next + 1, attempts, logged, None, log)
        },
    }
}

/// One step of `qork update`: from the state and what the last action
/// brought, the next state and action.
///
/// - The fetched release: its failure ends the run; a release that is not
///   newer ends it as up to date, having run nothing; a newer one asks for
///   the cargo probe.
/// - The probe: the update is announced with the strategy tried first, and
///   the strategies for the platform are taken in order (`cargo install`
///   first when cargo can be invoked).
/// - A plan runs in turn: its preflight tool is checked (a missing tool
///   skips the strategy), its program launched, and after `cargo install`
///   the installed binary's version confirmed.
/// - A strategy's success ends the run with it: nothing else runs. Its
///   failure is recorded and logged, and the run goes on with the next.
///
/// Throughout, a strategy that cannot run on the platform is recorded and
/// logged as skipped; when none is left, the run ends with every attempt.
pub fn update_step(state: UpdateState, event: UpdateEvent) -> (step: UpdateStep)
    requires
        awaits(state, event),
        state_wf(state),
    ensures
        state_wf(step.state),
        match state {
            UpdateState::Checking { current, os } => match event {
                UpdateEvent::Fetched(Err(e)) => {
                    &&& step.state is Over
                    &&& step.action matches UpdateAction::Finish(
                        UpdateOutcome::CheckFailed { current: c, message: m },
                    )
                    &&& c@ == current@ && m@ == "Failed to check for updates: "@ + e@
                    &&& step.announce is None && step.log@.len() == 0
                },
                UpdateEvent::Fetched(Ok(l)) => {
                    &&& step.announce is None && step.log@.len() == 0
                    &&& if newer(current@, l@) {
                        &&& step.state matches UpdateState::Probing { current: c, os: o, latest: x }
                        &&& c@ == current@ && o == os && x@ == l@
                        &&& step.action is ProbeCargo
                    } else {
                        &&& step.state is Over
                        &&& step.action matches UpdateAction::Finish(
                            UpdateOutcome::UpToDate { current: c, latest: x },
                        )
                        &&& c@ == current@ && x@ == l@
                    }
                },
                _ => true,
            },
            UpdateState::Probing { current, os, latest } => match event {
                UpdateEvent::CargoProbed(cargo) => {
                    &&& step.announce == Some(Some(strategy_order(cargo, os)[0]))
                    &&& goes_on(
                        step,
                        current@,
                        os,
                        latest@,
                        strategy_order(cargo, os),
                        0,
                        Seq::empty(),
                        0,
                    )
                },
                _ => true,
            },
            UpdateState::Trying { current, os, latest, strategies, next, attempts, stage } => match stage {
                PlanStage::CheckingTool(p) => match event {
                    UpdateEvent::ToolChecked(true) => {
                        &&& step.announce is None && step.log@.len() == 0
                        &&& trying(step.state, current@, os, latest@, strategies@, next as int, attempts@)
                        &&& step.state matches UpdateState::Trying { stage: s, .. }
                        &&& s matches PlanStage::Running(q) && q@ == p@
                        &&& launches(step.action, p@)
                    },
                    UpdateEvent::ToolChecked(false) => exists|r: Result<(), StrategyError>|
                        #[trigger] concludes(step, current@, os, latest@, strategies@, next as int, attempts@, r)
                            && (r matches Err(StrategyError::Preflight(m)) && m@
                            == p.preflight_tool->Some_0@ + " not on PATH"@),
                    _ => true,
                },
                PlanStage::Running(p) => match event {
                    UpdateEvent::Ended(o) => exists|r: Result<(), StrategyError>|
                        #[trigger] command_status(p.launcher@, o, r) && if r is Ok && p.verify_installed {
                            &&& step.announce is None && step.log@.len() == 0
                            &&& trying(step.state, current@, os, latest@, strategies@, next as int, attempts@)
                            &&& step.state matches UpdateState::Trying { stage: s, .. }
                            &&& s is Confirming
                            &&& step.action is ReadInstalledVersion
                        } else {
                            concludes(step, current@, os, latest@, strategies@, next as int, attempts@, r)
                        },
                    _ => true,
                },
                PlanStage::Confirming => match event {
                    UpdateEvent::Reported(v) => exists|r: Result<(), StrategyError>|
                        #[trigger] confirmation(latest@, v, r) && concludes(
                            step,
                            current@,
                            os,
                            latest@,
                            strategies@,
                            next as int,
                            attempts@,
                            r,
                        ),
                    _ => true,
                },
            },
            UpdateState::Over => true,
        },
{
    match state {
        UpdateState::Checking { current, os } => match event {
            UpdateEvent::Fetched(Err(e)) => UpdateStep {
                state: UpdateState::Over,
                action: UpdateAction::Finish(
                    UpdateOutcome::CheckFailed {
                        current,
                        message: join2("Failed to check for updates: ", e.as_str()),
                    },
                ),
                announce: None,
                log: Vec::new(),
            },
            UpdateEvent::Fetched(Ok(latest)) => {
                if is_newer(current.as_str(), latest.as_str()) {
                    UpdateStep {
                        state: UpdateState::Probing { current, os, latest },
                        action: UpdateAction::ProbeCargo,
                        announce: None,
                        log: Vec::new(),
                    }
                } else {
                    UpdateStep {
                        state: UpdateState::Over,
                        action: UpdateAction::Finish(UpdateOutcome::UpToDate { current, latest }),
                        announce: None,
                        log: Vec::new(),
                    }
                }
            },
            _ => unexpected(),
        },
        UpdateState::Probing { current, os, latest } => match event {
            UpdateEvent::CargoProbed(cargo) => {
                let strategies = order_strategies(cargo, os);
                let first = strategies[0];
                let log: Vec<String> = Vec::new();
                proof {
                    assert(texts(log@) =~= lines_of(Seq::<AttemptRecord>::empty().skip(0)));
                }
                go_on(current, os, latest, strategies, 0, Vec::new(), 0, Some(Some(first)), log)
            },
            _ => unexpected(),
        },
        UpdateState::Trying { current, os, latest, strategies, next, attempts, stage } => match stage {
            PlanStage::CheckingTool(plan) => match event {
                UpdateEvent::ToolChecked(answered) => {
                    if answered {
                        let action = launch_of(&plan);
                        UpdateStep {
                            state: UpdateState::Trying {
                                current,
                                os,
                                latest,
                                strategies,
                                next,
                                attempts,
                                stage: PlanStage::Running(plan),
                            },
                            action,
                            announce: None,
                            log: Vec::new(),
                        }
                    } else {
                        let e = match &plan.preflight_tool {
                            Some(tool) => not_on_path(tool.as_str()),
                            None => not_on_path(""),
                        };
                        conclude(current, os, latest, strategies, next, attempts, Err(e))
                    }
                },
                _ => unexpected(),
            },
            PlanStage::Running(plan) => match event {
                UpdateEvent::Ended(outcome) => {
                    let r = run_command_status(plan.launcher.as_str(), outcome);
                    if r.is_ok() && plan.verify_installed {
                        UpdateStep {
                            state: UpdateState::Trying {
                                current,
                                os,
                                latest,
                                strategies,
                                next,
                                attempts,
                                stage: PlanStage::Confirming,
                            },
                            action: UpdateAction::ReadInstalledVersion,
                            announce: None,
                            log: Vec::new(),
                        }
                    } else {
                        conclude(current, os, latest, strategies, next, attempts, r)
                    }
                },
                _ => unexpected(),
            },
            PlanStage::Confirming => match event {
                UpdateEvent::Reported(installed) => {
                    let r = verify_cargo_post_install(latest.as_str(), installed);
                    conclude(current, os, latest, strategies, next, attempts, r)
                },
                _ => unexpected(),
            },
        },
        UpdateState::Over => unexpected(),
    }
}

/// The step for an event the state does not wait for, which `update_step`'s
/// `requires` rules out.
fn unexpected() -> (step: UpdateStep) {
    UpdateStep {
        state: UpdateState::Over,
        action: UpdateAction::ReadInstalledVersion,
        announce: None,
        log: Vec::new(),
    }
}

pub open spec fn cyan_code() -> Seq<char> {
    "\x1b[36m"@
}

pub open spec fn green_code() -> Seq<char> {
    "\x1b[32m"@
}

pub open spec fn red_code() -> Seq<char> {
    "\x1b[31m"@
}

/// A status line: two spaces, a mark, a space, then the text.
pub open spec fn status_text(mark: Seq<char>, text: Seq<char>) -> Seq<char> {
    "  "@ + mark + " "@ + text
}

/// The lines printed once an update is known to be available, before any
/// strategy runs.
pub open spec fn announcement_text(
    current: Seq<char>,
    latest: Seq<char>,
    first: Option<UpdateStrategy>,
    colors: bool,
) -> Seq<Seq<char>> {
    seq![
        status_text(
            painted(cyan_code(), "*"@, colors),
            "Update available: v"@ + current + " "@ + painted(cyan_code(), "->"@, colors) + " v"@
                + latest,
        ),
    ] + match first {
        Some(f) => seq![
            status_text(painted(cyan_code(), "*"@, colors), "Updating via "@ + label_text(f) + "..."@),
        ],
        None => Seq::empty(),
    } + seq![""@]
}

fn status_line(mark: &str, text: &str) -> (r: String)
    ensures
        r@ == status_text(mark@, text@),
{
    let head = join3("  ", mark, " ");
    join2(head.as_str(), text)
}

/// The lines that announce an update from `current` to `latest`, and the
/// strategy tried first.
pub fn update_announcement(
    current: &str,
    latest: &str,
    first: Option<UpdateStrategy>,
    config: &Config,
) -> (v: Vec<String>)
    ensures
        texts(v@) == announcement_text(current@, latest@, first, config.use_colors),
{
    let star = cyan("*", config);
    let arrow = cyan("->", config);
    let a = join3("Update available: v", current, " ");
    let b = join3(a.as_str(), arrow.as_str(), " v");
    let c = join2(b.as_str(), latest);
    let mut v: Vec<String> = Vec::new();
    v.push(status_line(star.as_str(), c.as_str()));
    match first {
        Some(f) => {
            let via = join3("Updating via ", f.label(), "...");
            v.push(status_line(star.as_str(), via.as_str()));
        },
        None => {},
    }
    v.push(String::new());
    proof {
        reveal_strlit("");
    }
    assert(texts(v@) =~~= announcement_text(current@, latest@, first, config.use_colors));
    v
}

/// How a failed attempt is listed in the final report.
pub open spec fn attempt_summary(record: AttemptRecord) -> Seq<char> {
    "      - "@ + label_text(record.strategy) + " ("@ + kind_text(record.kind) + "): "@
        + record.message@
}

pub open spec fn attempt_summaries(attempts: Seq<AttemptRecord>) -> Seq<Seq<char>> {
    attempts.map_values(|r: AttemptRecord| attempt_summary(r))
}

/// The lines printed when `qork update` has ended as `o`.
pub open spec fn summary_text(o: UpdateOutcome, colors: bool) -> Seq<Seq<char>> {
    match o {
        UpdateOutcome::CheckFailed { message, .. } => seq![
            status_text(painted(red_code(), "x"@, colors), painted(red_code(), message@, colors)),
        ],
        UpdateOutcome::UpToDate { current, .. } => seq![
            status_text(
                painted(green_code(), "ok"@, colors),
                painted(
                    green_code(),
                    "Already on the latest version (v"@ + current@ + ")"@,
                    colors,
                ),
            ),
        ],
        UpdateOutcome::Updated { latest, strategy, .. } => seq![
            ""@,
            status_text(
                painted(green_code(), "ok"@, colors),
                painted(
                    green_code(),
                    "Updated to v"@ + latest@ + " via "@ + label_text(strategy),
                    colors,
                ),
            ),
        ],
        UpdateOutcome::UpdateFailed { attempts, .. } => seq![
            ""@,
            status_text(
                painted(red_code(), "x"@, colors),
                painted(red_code(), "Update failed. Strategies attempted:"@, colors),
            ),
        ] + attempt_summaries(attempts@) + seq![
            ""@,
            "  To update manually, see: "@ + MANUAL_INSTALL_URL@,
        ],
    }
}

fn attempt_summary_line(record: &AttemptRecord) -> (r: String)
    ensures
        r@ == attempt_summary(*record),
{
    let a = join3("      - ", record.strategy.label(), " (");
    let b = join3(a.as_str(), record.kind.as_str(), "): ");
    join2(b.as_str(), record.message.as_str())
}

/// The lines that close `qork update`, for how it ended.
pub fn update_summary(o: &UpdateOutcome, config: &Config) -> (v: Vec<String>)
    ensures
        texts(v@) == summary_text(*o, config.use_colors),
{
    let mut v: Vec<String> = Vec::new();
    match o {
        UpdateOutcome::CheckFailed { message, .. } => {
            let mark = red("x", config);
            let text = red(message.as_str(), config);
            v.push(status_line(mark.as_str(), text.as_str()));
        },
        UpdateOutcome::UpToDate { current, .. } => {
            let mark = green("ok", config);
            let said = join3("Already on the latest version (v", current.as_str(), ")");
            let text = green(said.as_str(), config);
            v.push(status_line(mark.as_str(), text.as_str()));
        },
        UpdateOutcome::Updated { latest, strategy, .. } => {
            let mark = green("ok", config);
            let a = join3("Updated to v", latest.as_str(), " via ");
            let said = join2(a.as_str(), strategy.label());
            let text = green(said.as_str(), config);
            v.push(String::new());
            v.push(status_line(mark.as_str(), text.as_str()));
        },
        UpdateOutcome::UpdateFailed { attempts, .. } => {
            let mark = red("x", config);
            let text = red("Update failed. Strategies attempted:", config);
            v.push(String::new());
            v.push(status_line(mark.as_str(), text.as_str()));
            let ghost head = texts(v@);
            let mut i: usize = 0;
            while i < attempts.len()
                invariant
                    i <= attempts@.len(),
                    texts(v@) == head + attempt_summaries(attempts@.take(i as int)),
                decreases attempts@.len() - i,
            {
                let line = attempt_summary_line(&attempts[i]);
                proof {
                    assert(attempts@.take(i as int + 1) =~= attempts@.take(i as int).push(
                        attempts@[i as int],
                    ));
                    assert(attempt_summaries(attempts@.take(i as int + 1)) =~= attempt_summaries(
                        attempts@.take(i as int),
                    ).push(line@));
                }
                let ghost before = texts(v@);
                let ghost said = line@;
                v.push(line);
                proof {
                    assert(texts(v@) =~= before.push(said));
                    assert(texts(v@) =~= head + attempt_summaries(attempts@.take(i as int + 1)));
                }
                i = i + 1;
            }
            let ghost listed = texts(v@);
            v.push(String::new());
            v.push(join2("  To update manually, see: ", MANUAL_INSTALL_URL));
            proof {
                reveal_strlit("");
                assert(attempts@.take(attempts@.len() as int) =~= attempts@);
                assert(listed == head + attempt_summaries(attempts@));
                assert(texts(v@) =~~= listed + seq![""@, "  To update manually, see: "@ + MANUAL_INSTALL_URL@]);
            }
        },
    }
    proof {
        reveal_strlit("");
    }
    assert(texts(v@) =~~= summary_text(*o, config.use_colors));
    v
}

/// The process exit code for how `qork update` ended: 0 when up to date or
/// updated, 2 when the check or every strategy failed.
pub fn update_exit_code(o: &UpdateOutcome) -> (c: i32)
    ensures
        c == (if o is UpToDate || o is Updated {
            0i32
        } else {
            2i32
        }),
{
    match o {
        UpdateOutcome::UpToDate { .. } | UpdateOutcome::Updated { .. } => 0,
        _ => 2,
    }
}

/// One attempt as `qork update --json` reports it.
#[derive(Debug)]
pub struct AttemptReport {
    /// The strategy's JSON id.
    pub strategy: String,
    /// `skipped` or `failed`.
    pub result: String,
    pub message: String,
}

/// What `qork update --json` prints; fields that are `None` are left out.
#[derive(Debug)]
pub struct UpdateReport {
    pub action: String,
    pub success: bool,
    pub message: String,
    pub current_version: String,
    pub latest_version: Option<String>,
    pub update_available: Option<bool>,
    /// The JSON id of the strategy that succeeded.
    pub strategy: Option<String>,
    pub attempts: Option<Vec<AttemptReport>>,
}

pub open spec fn kind_text(k: AttemptKind) -> Seq<char> {
    match k {
        AttemptKind::Skipped => "skipped"@,
        AttemptKind::Failed => "failed"@,
    }
}

/// `a` reports the attempt `record`.
pub open spec fn reports_attempt(a: AttemptReport, record: AttemptRecord) -> bool {
    &&& a.strategy@ == json_id_text(record.strategy)
    &&& a.result@ == kind_text(record.kind)
    &&& a.message@ == record.message@
}

fn attempt_reports(attempts: &Vec<AttemptRecord>) -> (v: Vec<AttemptReport>)
    ensures
        v@.len() == attempts@.len(),
        forall|i: int| 0 <= i < v@.len() ==> reports_attempt(#[trigger] v@[i], attempts@[i]),
{
    let mut v: Vec<AttemptReport> = Vec::new();
    let mut i: usize = 0;
    while i < attempts.len()
        invariant
            i <= attempts@.len(),
            v@.len() == i,
            forall|j: int| 0 <= j < i ==> reports_attempt(#[trigger] v@[j], attempts@[j]),
        decreases attempts@.len() - i,
    {
        let record = &attempts[i];
        v.push(
            AttemptReport {
                strategy: String::from_str(record.strategy.json_id()),
                result: String::from_str(record.kind.as_str()),
                message: String::from_str(record.message.as_str()),
            },
        );
        i = i + 1;
    }
    v
}

/// The `--json` report of how `qork update` ended.
pub fn update_report(o: &UpdateOutcome) -> (rep: UpdateReport)
    ensures
        rep.action@ == "update"@,
        rep.success == (o is UpToDate || o is Updated),
        match o {
            UpdateOutcome::CheckFailed { current, message } => {
                &&& rep.message@ == message@
                &&& rep.current_version@ == current@
                &&& rep.latest_version is None && rep.update_available is None
                &&& rep.strategy is None && rep.attempts is None
            },
            UpdateOutcome::UpToDate { current, latest } => {
                &&& rep.message@ == "Already on the latest version"@
                &&& rep.current_version@ == current@
                &&& opt_view(rep.latest_version) == Some(latest@)
                &&& rep.update_available == Some(false)
                &&& rep.strategy is None && rep.attempts is None
            },
            UpdateOutcome::Updated { current, latest, strategy } => {
                &&& rep.message@ == "Updated from v"@ + current@ + " to v"@ + latest@
                &&& rep.current_version@ == current@
                &&& opt_view(rep.latest_version) == Some(latest@)
                &&& rep.update_available == Some(true)
                &&& opt_view(rep.strategy) == Some(json_id_text(*strategy))
                &&& rep.attempts is None
            },
            UpdateOutcome::UpdateFailed { current, latest, attempts } => {
                &&& rep.message@ == "Update failed; see attempts"@
                &&& rep.current_version@ == current@
                &&& opt_view(rep.latest_version) == Some(latest@)
                &&& rep.update_available == Some(true)
                &&& rep.strategy is None
                &&& rep.attempts matches Some(v) && v@.len() == attempts@.len() && forall|i: int|
                    0 <= i < v@.len() ==> reports_attempt(#[trigger] v@[i], attempts@[i])
            },
        },
{
    match o {
        UpdateOutcome::CheckFailed { current, message } => UpdateReport {
            action: String::from_str("update"),
            success: false,
            message: String::from_str(message.as_str()),
            current_version: String::from_str(current.as_str()),
            latest_version: None,
            update_available: None,
            strategy: None,
            attempts: None,
        },
        UpdateOutcome::UpToDate { current, latest } => UpdateReport {
            action: String::from_str("update"),
            success: true,
            message: String::from_str("Already on the latest version"),
            current_version: String::from_str(current.as_str()),
            latest_version: Some(String::from_str(latest.as_str())),
            update_available: Some(false),
            strategy: None,
            attempts: None,
        },
        UpdateOutcome::Updated { current, latest, strategy } => {
            let head = join3("Updated from v", current.as_str(), " to v");
            UpdateReport {
                action: String::from_str("update"),
                success: true,
                message: join2(head.as_str(), latest.as_str()),
                current_version: String::from_str(current.as_str()),
                latest_version: Some(String::from_str(latest.as_str())),
                update_available: Some(true),
                strategy: Some(String::from_str(strategy.json_id())),
                attempts: None,
            }
        },
        UpdateOutcome::UpdateFailed { current, latest, attempts } => UpdateReport {
            action: String::from_str("update"),
            success: false,
            message: String::from_str("Update failed; see attempts"),
            current_version: String::from_str(current.as_str()),
            latest_version: Some(String::from_str(latest.as_str())),
            update_available: Some(true),
            strategy: None,
            attempts: Some(attempt_reports(attempts)),
        },
    }
}

// ── Uninstall ──────────────────────────────────────────────────────

/// Whether removal may go ahead.
#[derive(Debug, Clone, Copy, PartialEq, Eq, Structural)]
pub enum UninstallGate {
    /// `--yes` was given: remove without asking.
    Proceed,
    /// Ask on the terminal first.
    Confirm,
    /// No `--yes` and no terminal to ask on: refuse, so that removal is
    /// always explicit.
    Refuse,
}

/// `--yes` skips the confirmation prompt, and is required when stdin isn't
/// a terminal (scripts/CI).
pub fn uninstall_gate(yes: bool, stdin_is_terminal: bool) -> (g: UninstallGate)
    ensures
        yes ==> g == UninstallGate::Proceed,
        !yes && stdin_is_terminal ==> g == UninstallGate::Confirm,
        !yes && !stdin_is_terminal ==> g == UninstallGate::Refuse,
{
    if yes {
        UninstallGate::Proceed
    } else if stdin_is_terminal {
        UninstallGate::Confirm
    } else {
        UninstallGate::Refuse
    }
}

/// An answer to the confirmation prompt agrees: `y` or `yes`, in any case,
/// around whitespace.
pub open spec fn agrees(answer: Seq<char>) -> bool {
    let t = trimmed(answer);
    crate::command::eq_ignore_ascii_case(t, "y"@) || crate::command::eq_ignore_ascii_case(
        t,
        "yes"@,
    )
}

pub fn confirmation_accepted(answer: &str) -> (b: bool)
    ensures
        b == agrees(answer@),
{
    let t = trim_str(answer);
    crate::command::str_eq_ignore_ascii_case(t, "y") || crate::command::str_eq_ignore_ascii_case(
        t,
        "yes",
    )
}

} // verus!
