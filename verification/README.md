# qork

Shorten URLs from your terminal, against the qork.me API.

- `src/` is the library, verified with Verus: command resolution, runtime
  configuration, the pre-shorten URL check, the shorten request and what its
  reply means, release-version comparison (semver precedence), the
  self-update flow as a step function from state and event to next state
  and action (when to install, which plan runs next, that the first success
  ends the run, what each outcome reports and exits with) and the uninstall
  decisions. Each public function states its result in its `ensures`; the
  laws of the library (normalization is idempotent, "newer than" is a strict
  order, configurations keep a slash-free API base, malformed arguments are
  refused before any request, which the closures' `requires` state) are proof functions or `ensures` clauses.
- `app/` is the `qork` binary: argument parsing (clap), the HTTP round trips
  (ureq), processes, files and printing.
- `tests/` runs the library on concrete values.
