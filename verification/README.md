# cargo-vibe

`cargo vibe` orchestrates four companion tools of an AI-assisted Rust workflow —
`diff-risk`, `cargo-impact`, `spec-drift` and `cargo-context` — and aggregates what
they report. Its decision logic is a library verified with Verus; the command line
around it is ordinary Rust.

## Layout

- `src/` — the verified library
  - `text.rs`: character classes, scanning, trimming, decimal numbers
  - `finding.rs`: the finding model and the text line printed for a finding
  - `risk_report.rs`: findings read from `diff-risk`'s text report
  - `tool_json.rs`: findings from the decoded JSON reports of `cargo-impact` and `spec-drift`
  - `report.rs`: the aggregated report and its counts
  - `commands.rs`: tool arguments, run outcomes, status lines, the combined check
    result and exit codes of each subcommand
  - `orchestrator.rs`: the guided fix loop as a state machine, the fallback context pack
- `app/main.rs` — the `cargo-vibe` binary: argument parsing, configuration file,
  processes, JSON/SARIF output
- `tests/` — tests of the library

## Exit codes

| Code | Meaning |
|------|---------|
| 0 | All checks passed (or no blocking findings) |
| 1 | Threshold exceeded, or a strict check found critical/high findings |
| 2 | Tool error — unreadable config, missing required tool, I/O error |
