//! What each `cargo vibe` subcommand hands to the companion tools, how it reports
//! each tool's run, and the exit code it ends with.
use vstd::prelude::*;
use crate::text::{decimal, push_decimal};
use crate::finding::{views, Finding, FindingView, Severity};
use crate::report::{count_severity, severity_count};

verus! {

/// The companion tools.
#[derive(Clone, Copy, Debug, PartialEq, Eq, Structural)]
pub enum Tool {
    DiffRisk,
    CargoImpact,
    SpecDrift,
    CargoContext,
}

pub open spec fn tool_name(t: Tool) -> Seq<char> {
    match t {
        Tool::DiffRisk => "diff-risk"@,
        Tool::CargoImpact => "cargo-impact"@,
        Tool::SpecDrift => "spec-drift"@,
        Tool::CargoContext => "cargo-context"@,
    }
}

impl Tool {
    /// The tool's executable name.
    pub fn name(&self) -> (res: &'static str)
        ensures
            res@ == tool_name(*self),
    {
        match self {
            Tool::DiffRisk => "diff-risk",
            Tool::CargoImpact => "cargo-impact",
            Tool::SpecDrift => "spec-drift",
            Tool::CargoContext => "cargo-context",
        }
    }
}

/// Per-tool settings of `.cargo-vibe.toml`.
pub struct ToolSettings {
    pub enabled: bool,
    /// Arguments added to every invocation of the tool by `cargo vibe check`.
    pub extra_args: Vec<String>,
}

/// The tool settings of `.cargo-vibe.toml`.
pub struct VibeSettings {
    pub diff_risk: ToolSettings,
    pub cargo_impact: ToolSettings,
    pub spec_drift: ToolSettings,
    pub cargo_context: ToolSettings,
}

impl Default for ToolSettings {
    /// A tool is enabled and gets no extra arguments unless configured otherwise.
    fn default() -> (res: Self)
        ensures
            res.enabled,
            res.extra_args@.len() == 0,
    {
        ToolSettings { enabled: true, extra_args: Vec::new() }
    }
}

impl ToolSettings {
    /// Settings from a configuration section: a tool is enabled unless the section says
    /// `enabled = false`, and gets the section's `extra_args`, if any.
    pub fn configured(enabled: Option<bool>, extra_args: Option<Vec<String>>) -> (res: Self)
        ensures
            res.enabled == (match enabled {
                Some(b) => b,
                None => true,
            }),
            res.extra_args@ == (match extra_args {
                Some(v) => v@,
                None => Seq::empty(),
            }),
    {
        ToolSettings {
            enabled: match enabled {
                Some(b) => b,
                None => true,
            },
            extra_args: match extra_args {
                Some(v) => v,
                None => Vec::new(),
            },
        }
    }
}

impl Default for VibeSettings {
    fn default() -> (res: Self)
        ensures
            res.diff_risk.enabled && res.diff_risk.extra_args@.len() == 0,
            res.cargo_impact.enabled && res.cargo_impact.extra_args@.len() == 0,
            res.spec_drift.enabled && res.spec_drift.extra_args@.len() == 0,
            res.cargo_context.enabled && res.cargo_context.extra_args@.len() == 0,
    {
        VibeSettings {
            diff_risk: ToolSettings::default(),
            cargo_impact: ToolSettings::default(),
            spec_drift: ToolSettings::default(),
            cargo_context: ToolSettings::default(),
        }
    }
}

/// A setting resolved by precedence: the command line, then the tool's own section
/// of the configuration, then its global section, then the built-in default.
pub fn pick_setting<T>(cli: Option<T>, tool: Option<T>, global: Option<T>, fallback: T) -> (res: T)
    ensures
        res == (match cli {
            Some(v) => v,
            None => match tool {
                Some(v) => v,
                None => match global {
                    Some(v) => v,
                    None => fallback,
                },
            },
        }),
{
    match cli {
        Some(v) => v,
        None => match tool {
            Some(v) => v,
            None => match global {
                Some(v) => v,
                None => fallback,
            },
        },
    }
}

/// Models of a sequence of strings.
pub open spec fn strs(v: Seq<String>) -> Seq<Seq<char>> {
    v.map_values(|s: String| s@)
}

fn push_str(out: &mut Vec<String>, s: &str)
    ensures
        strs(final(out)@) == strs(old(out)@).push(s@),
{
    out.push(String::from_str(s));
    assert(strs(out@) =~= strs(old(out)@).push(s@));
}

fn push_string(out: &mut Vec<String>, s: String)
    ensures
        strs(final(out)@) == strs(old(out)@).push(s@),
{
    let ghost sv = s@;
    out.push(s);
    assert(strs(out@) =~= strs(old(out)@).push(sv));
}

fn push_all(out: &mut Vec<String>, extra: &Vec<String>)
    ensures
        strs(final(out)@) == strs(old(out)@) + strs(extra@),
{
    let ghost start = out@;
    for i in 0..extra.len()
        invariant
            out@ == start + extra@.take(i as int),
    {
        out.push(extra[i].clone());
        assert(out@ =~= start + extra@.take(i + 1));
    }
    assert(extra@.take(extra@.len() as int) =~= extra@);
    assert(strs(out@) =~= strs(start) + strs(extra@));
}

/// Whether `args` holds `flag` as one of its arguments.
pub fn contains_arg(args: &Vec<String>, flag: &str) -> (res: bool)
    ensures
        res == strs(args@).contains(flag@),
{
    let f = String::from_str(flag);
    for i in 0..args.len()
        invariant
            f@ == flag@,
            forall|j: int| 0 <= j < i ==> args@[j]@ != flag@,
    {
        if args[i] == f {
            assert(strs(args@)[i as int] == flag@);
            return true;
        }
    }
    assert forall|j: int| 0 <= j < strs(args@).len() implies strs(args@)[j] != flag@ by {
        assert(strs(args@)[j] == args@[j]@);
    }
    false
}

/// The arguments `cargo vibe check` passes to `diff-risk`.
pub fn risk_check_args(threshold: &str, extra: &Vec<String>) -> (res: Vec<String>)
    ensures
        strs(res@) == seq!["--threshold"@, threshold@] + strs(extra@),
{
    let mut v: Vec<String> = Vec::new();
    push_str(&mut v, "--threshold");
    push_str(&mut v, threshold);
    push_all(&mut v, extra);
    assert(strs(v@) =~= seq!["--threshold"@, threshold@] + strs(extra@));
    v
}

/// The default confidence floor of `cargo vibe check`, dropped when the configuration
/// passes its own `--confidence-min`.
pub open spec fn default_confidence_args(extra: Seq<Seq<char>>) -> Seq<Seq<char>> {
    if extra.contains("--confidence-min"@) {
        Seq::empty()
    } else {
        seq!["--confidence-min"@, "0.5"@]
    }
}

/// The arguments `cargo vibe check` passes to `cargo-impact`; configured extra
/// arguments come last.
pub fn impact_check_args(since: &str, extra: &Vec<String>) -> (res: Vec<String>)
    ensures
        strs(res@) == seq!["--since"@, since@, "--format"@, "json"@] + default_confidence_args(
            strs(extra@),
        ) + strs(extra@),
{
    let mut v: Vec<String> = Vec::new();
    push_str(&mut v, "--since");
    push_str(&mut v, since);
    push_str(&mut v, "--format");
    push_str(&mut v, "json");
    if !contains_arg(extra, "--confidence-min") {
        push_str(&mut v, "--confidence-min");
        push_str(&mut v, "0.5");
    }
    push_all(&mut v, extra);
    assert(strs(v@) =~= seq!["--since"@, since@, "--format"@, "json"@] + default_confidence_args(
        strs(extra@),
    ) + strs(extra@));
    v
}

/// The arguments `cargo vibe check` passes to `spec-drift`.
pub fn drift_check_args(extra: &Vec<String>) -> (res: Vec<String>)
    ensures
        strs(res@) == seq!["--format"@, "json"@] + strs(extra@),
{
    let mut v: Vec<String> = Vec::new();
    push_str(&mut v, "--format");
    push_str(&mut v, "json");
    push_all(&mut v, extra);
    assert(strs(v@) =~= seq!["--format"@, "json"@] + strs(extra@));
    v
}

/// The arguments of `cargo vibe impact`: a nextest filter with `--test`, else a report
/// in `format`.
pub fn impact_args(since: &str, test: bool, format: &str) -> (res: Vec<String>)
    ensures
        strs(res@) == seq!["--since"@, since@] + if test {
            seq!["--test"@]
        } else {
            seq!["--format"@, format@]
        },
{
    let mut v: Vec<String> = Vec::new();
    push_str(&mut v, "--since");
    push_str(&mut v, since);
    if test {
        push_str(&mut v, "--test");
    } else {
        push_str(&mut v, "--format");
        push_str(&mut v, format);
    }
    assert(strs(v@) =~= seq!["--since"@, since@] + if test {
        seq!["--test"@]
    } else {
        seq!["--format"@, format@]
    });
    v
}

/// The arguments of `cargo vibe drift`.
pub fn drift_args(format: &str, deny: &str, diff: Option<&str>) -> (res: Vec<String>)
    ensures
        strs(res@) == seq!["--format"@, format@, "--deny"@, deny@] + match diff {
            Some(d) => seq!["--diff"@, d@],
            None => Seq::empty(),
        },
{
    let mut v: Vec<String> = Vec::new();
    push_str(&mut v, "--format");
    push_str(&mut v, format);
    push_str(&mut v, "--deny");
    push_str(&mut v, deny);
    match diff {
        Some(d) => {
            push_str(&mut v, "--diff");
            push_str(&mut v, d);
        },
        None => {},
    }
    assert(strs(v@) =~= seq!["--format"@, format@, "--deny"@, deny@] + match diff {
        Some(d) => seq!["--diff"@, d@],
        None => Seq::empty(),
    });
    v
}

/// The token budget `cargo-context` is given: the one on the command line, else the
/// `token_budget` of the configuration's `[vibe]` section, else none.
pub open spec fn context_budget(cli: Option<usize>, configured: Option<usize>) -> Option<usize> {
    match cli {
        Some(b) => Some(b),
        None => configured,
    }
}

/// The arguments of `cargo vibe context` (and of the fix loop's context step, with the
/// `fix` preset): the preset, then `--max-tokens` with the budget when there is one (see
/// `context_budget`). A prompt read from standard input is forwarded on the child's
/// standard input, not as a flag.
pub fn context_args(preset: &str, budget: Option<usize>, configured_budget: Option<usize>) -> (res:
    Vec<String>)
    ensures
        strs(res@) == seq!["--preset"@, preset@] + match context_budget(budget, configured_budget) {
            Some(b) => seq!["--max-tokens"@, decimal(b as nat)],
            None => Seq::empty(),
        },
{
    let mut v: Vec<String> = Vec::new();
    push_str(&mut v, "--preset");
    push_str(&mut v, preset);
    let chosen = match budget {
        Some(b) => Some(b),
        None => configured_budget,
    };
    match chosen {
        Some(b) => {
            push_str(&mut v, "--max-tokens");
            let mut n = String::new();
            push_decimal(&mut n, b as u64);
            push_string(&mut v, n);
        },
        None => {},
    }
    assert(strs(v@) =~= seq!["--preset"@, preset@] + match chosen {
        Some(b) => seq!["--max-tokens"@, decimal(b as nat)],
        None => Seq::empty(),
    });
    v
}

/// The arguments the fix loop passes to `diff-risk`.
pub fn fix_risk_args(threshold: &str) -> (res: Vec<String>)
    ensures
        strs(res@) == seq!["--threshold"@, threshold@],
{
    let mut v: Vec<String> = Vec::new();
    push_str(&mut v, "--threshold");
    push_str(&mut v, threshold);
    assert(strs(v@) =~= seq!["--threshold"@, threshold@]);
    v
}

/// The arguments the fix loop passes to `cargo-impact` to verify a change.
pub fn fix_impact_args(since: &str) -> (res: Vec<String>)
    ensures
        strs(res@) == seq!["--since"@, since@, "--fail-on"@, "high"@],
{
    let mut v: Vec<String> = Vec::new();
    push_str(&mut v, "--since");
    push_str(&mut v, since);
    push_str(&mut v, "--fail-on");
    push_str(&mut v, "high");
    assert(strs(v@) =~= seq!["--since"@, since@, "--fail-on"@, "high"@]);
    v
}

/// The arguments the fix loop passes to `spec-drift`.
pub fn fix_drift_args() -> (res: Vec<String>)
    ensures
        strs(res@) == seq!["--format"@, "json"@, "--deny"@, "warning"@],
{
    let mut v: Vec<String> = Vec::new();
    push_str(&mut v, "--format");
    push_str(&mut v, "json");
    push_str(&mut v, "--deny");
    push_str(&mut v, "warning");
    assert(strs(v@) =~= seq!["--format"@, "json"@, "--deny"@, "warning"@]);
    v
}

/// The command line with the subcommand word that `cargo` inserts dropped: `cargo vibe
/// check` runs `cargo-vibe vibe check`.
pub open spec fn normalized_argv(args: Seq<Seq<char>>) -> Seq<Seq<char>> {
    if args.len() >= 2 && args[1] == "vibe"@ {
        args.remove(1)
    } else {
        args
    }
}

pub fn normalize_argv(args: Vec<String>) -> (res: Vec<String>)
    ensures
        strs(res@) == normalized_argv(strs(args@)),
{
    let mut args = args;
    if args.len() >= 2 && args[1] == String::from_str("vibe") {
        let ghost before = args@;
        args.remove(1);
        assert(strs(args@) =~= strs(before).remove(1));
    }
    args
}

/// How one tool's run went in `cargo vibe check`.
#[derive(Clone, Copy, Debug, PartialEq, Eq, Structural)]
pub enum ToolRun {
    /// Switched off in the configuration.
    Disabled,
    /// The executable is not on the path.
    NotInstalled,
    /// There was no diff to score.
    NoDiff,
    Completed { success: bool },
}

/// The status line `cargo vibe check` prints after running `tool`; `count` is the
/// number of findings the run gave and `threshold` the risk threshold as text.
pub open spec fn status_line(tool: Tool, run: ToolRun, count: nat, threshold: Seq<char>) -> Seq<
    char,
> {
    "  "@ + tool_name(tool) + ": "@ + match run {
        ToolRun::Disabled => "disabled by config, skipped"@,
        ToolRun::NotInstalled => "not installed, skipped"@,
        ToolRun::NoDiff => "no diff available, skipped"@,
        ToolRun::Completed { success } => match tool {
            Tool::DiffRisk => if success {
                "passed"@
            } else {
                "FAILED (threshold "@ + threshold + " exceeded)"@
            },
            Tool::CargoImpact => if success {
                decimal(count) + " finding(s)"@
            } else {
                "FAILED"@
            },
            _ => decimal(count) + " divergence(s)"@,
        },
    }
}

pub fn tool_status_line(tool: Tool, run: ToolRun, count: usize, threshold: &str) -> (res: String)
    ensures
        res@ == status_line(tool, run, count as nat, threshold@),
{
    let mut s = String::from_str("  ");
    s.append(tool.name());
    s.append(": ");
    match run {
        ToolRun::Disabled => s.append("disabled by config, skipped"),
        ToolRun::NotInstalled => s.append("not installed, skipped"),
        ToolRun::NoDiff => s.append("no diff available, skipped"),
        ToolRun::Completed { success } => match tool {
            Tool::DiffRisk => if success {
                s.append("passed");
            } else {
                s.append("FAILED (threshold ");
                s.append(threshold);
                s.append(" exceeded)");
            },
            Tool::CargoImpact => if success {
                push_decimal(&mut s, count as u64);
                s.append(" finding(s)");
            } else {
                s.append("FAILED");
            },
            _ => {
                push_decimal(&mut s, count as u64);
                s.append(" divergence(s)");
            },
        },
    }
    s
}

/// Whether the findings a tool reported in `cargo vibe check` count: those of a run
/// that completed, where `cargo-impact` counts only when it succeeded (its report is
/// then complete) and the other tools count either way.
pub open spec fn counts_findings(tool: Tool, run: ToolRun) -> bool {
    match run {
        ToolRun::Completed { success } => tool != Tool::CargoImpact || success,
        _ => false,
    }
}

pub fn keeps_findings(tool: Tool, run: ToolRun) -> (res: bool)
    ensures
        res == counts_findings(tool, run),
{
    match run {
        ToolRun::Completed { success } => tool != Tool::CargoImpact || success,
        _ => false,
    }
}

/// Tools that did not run (switched off, not installed, nothing to score) never fail a
/// check: the verdict then rests on the findings alone.
pub proof fn law_skipped_risk_gate_leaves_verdict_to_findings(
    risk: ToolRun,
    findings: Seq<crate::finding::FindingView>,
)
    requires
        !(risk is Completed),
    ensures
        strict_failure(risk, findings) <==> severity_count(findings, Severity::Critical) + severity_count(
            findings,
            Severity::High,
        ) > 0,
{
}

/// A strict check fails exactly when some kept finding is critical or high, or the
/// risk gate ran and reported its threshold exceeded: a passing risk gate never
/// excuses a severe finding.
pub proof fn law_strict_check_fails_on_severe_findings(
    risk: ToolRun,
    findings: Seq<crate::finding::FindingView>,
)
    ensures
        severity_count(findings, Severity::Critical) > 0 ==> strict_failure(risk, findings),
        severity_count(findings, Severity::High) > 0 ==> strict_failure(risk, findings),
        risk == (ToolRun::Completed { success: false }) ==> strict_failure(risk, findings),
        strict_failure(risk, findings) ==> risk == (ToolRun::Completed { success: false })
            || severity_count(findings, Severity::Critical) + severity_count(
            findings,
            Severity::High,
        ) > 0,
{
}

/// Whether a strict check fails: the risk gate reported its threshold exceeded, or
/// some finding is critical or high.
pub open spec fn strict_failure(risk: ToolRun, findings: Seq<crate::finding::FindingView>) -> bool {
    risk == (ToolRun::Completed { success: false }) || severity_count(findings, Severity::Critical)
        > 0 || severity_count(findings, Severity::High) > 0
}

/// Exit code of `cargo vibe check`: 1 when `--strict` is given and the check fails
/// (see `strict_failure`), else 0.
pub fn check_exit_code(strict: bool, risk: ToolRun, findings: &[Finding]) -> (res: u8)
    ensures
        res == (if strict && strict_failure(risk, views(findings@)) {
            1u8
        } else {
            0u8
        }),
{
    let critical = count_severity(findings, Severity::Critical);
    let high = count_severity(findings, Severity::High);
    if strict && (risk == ToolRun::Completed { success: false } || critical > 0 || high > 0) {
        1
    } else {
        0
    }
}

/// The summary line of `cargo vibe check`.
pub open spec fn totals_line(findings: Seq<crate::finding::FindingView>) -> Seq<char> {
    "\n  Total: "@ + decimal(findings.len()) + " finding(s) | Critical: "@ + decimal(
        severity_count(findings, Severity::Critical),
    ) + " | High: "@ + decimal(severity_count(findings, Severity::High))
}

pub fn check_totals_line(findings: &[Finding]) -> (res: String)
    ensures
        res@ == totals_line(views(findings@)),
{
    let critical = count_severity(findings, Severity::Critical);
    let high = count_severity(findings, Severity::High);
    let mut s = String::from_str("\n  Total: ");
    push_decimal(&mut s, findings.len() as u64);
    s.append(" finding(s) | Critical: ");
    push_decimal(&mut s, critical as u64);
    s.append(" | High: ");
    push_decimal(&mut s, high as u64);
    s
}

/// Exit code of a subcommand that hands its work to one tool: 0 when the tool
/// succeeded, 1 otherwise.
pub fn status_exit_code(success: bool) -> (res: u8)
    ensures
        res == (if success {
            0u8
        } else {
            1u8
        }),
{
    if success {
        0
    } else {
        1
    }
}

/// How a tool's run in `cargo vibe check` came out: switched off, nothing to score
/// (`has_input` is false only for `diff-risk` without a diff), not installed (`exit` is
/// `None` when its process could not be started), or completed with the given success.
pub open spec fn run_outcome(enabled: bool, has_input: bool, exit: Option<bool>) -> ToolRun {
    if !enabled {
        ToolRun::Disabled
    } else if !has_input {
        ToolRun::NoDiff
    } else {
        match exit {
            None => ToolRun::NotInstalled,
            Some(success) => ToolRun::Completed { success },
        }
    }
}

pub fn tool_run(enabled: bool, has_input: bool, exit: Option<bool>) -> (res: ToolRun)
    ensures
        res == run_outcome(enabled, has_input, exit),
{
    if !enabled {
        ToolRun::Disabled
    } else if !has_input {
        ToolRun::NoDiff
    } else {
        match exit {
            None => ToolRun::NotInstalled,
            Some(success) => ToolRun::Completed { success },
        }
    }
}

/// The findings of one tool that a check keeps (see `counts_findings`).
pub open spec fn kept_findings(tool: Tool, run: ToolRun, found: Seq<FindingView>) -> Seq<
    FindingView,
> {
    if counts_findings(tool, run) {
        found
    } else {
        Seq::empty()
    }
}

/// All findings of `cargo vibe check`: those kept of `diff-risk`, then of
/// `cargo-impact`, then of `spec-drift`.
pub open spec fn check_findings(
    risk: ToolRun,
    risk_found: Seq<FindingView>,
    impact: ToolRun,
    impact_found: Seq<FindingView>,
    drift: ToolRun,
    drift_found: Seq<FindingView>,
) -> Seq<FindingView> {
    kept_findings(Tool::DiffRisk, risk, risk_found) + kept_findings(
        Tool::CargoImpact,
        impact,
        impact_found,
    ) + kept_findings(Tool::SpecDrift, drift, drift_found)
}

/// What `cargo vibe check` keeps of each run: everything `diff-risk` and
/// `spec-drift` reported when they ran (whether they passed or not), `cargo-impact`'s
/// findings only when it succeeded, and nothing of a tool that did not run; in the
/// order `diff-risk`, `cargo-impact`, `spec-drift`.
pub proof fn law_check_keeps_findings_of_completed_runs(
    risk: ToolRun,
    risk_found: Seq<FindingView>,
    impact: ToolRun,
    impact_found: Seq<FindingView>,
    drift: ToolRun,
    drift_found: Seq<FindingView>,
)
    ensures
        check_findings(risk, risk_found, impact, impact_found, drift, drift_found) == (if risk is Completed {
            risk_found
        } else {
            Seq::<FindingView>::empty()
        }) + (if impact == (ToolRun::Completed { success: true }) {
            impact_found
        } else {
            Seq::<FindingView>::empty()
        }) + (if drift is Completed {
            drift_found
        } else {
            Seq::<FindingView>::empty()
        }),
{
}

/// A tool runs to completion only when it is switched on, has its input and could be
/// started, and then its outcome is its exit status; otherwise the outcome says which
/// of these was missing, in that order.
pub proof fn law_run_outcome_cases(enabled: bool, has_input: bool, exit: Option<bool>)
    ensures
        !enabled ==> run_outcome(enabled, has_input, exit) == ToolRun::Disabled,
        enabled && !has_input ==> run_outcome(enabled, has_input, exit) == ToolRun::NoDiff,
        enabled && has_input && exit is None ==> run_outcome(enabled, has_input, exit)
            == ToolRun::NotInstalled,
        forall|b: bool|
            run_outcome(enabled, has_input, exit) == (ToolRun::Completed { success: b }) <==> (
            enabled && has_input && exit == Some(b)),
{
}

/// A verification tool that could not be started never fails the fix loop; one that
/// ran passes exactly when it succeeded.
pub proof fn law_verify_gate_cases(exit: Option<bool>)
    ensures
        exit is None ==> verify_gate(exit),
        forall|b: bool| exit == Some(b) ==> (verify_gate(exit) <==> b),
{
}

/// The result of `cargo vibe check`: its findings and its exit code.
pub struct CheckOutcome {
    pub findings: Vec<Finding>,
    pub exit_code: u8,
}

fn keep_into(all: &mut Vec<Finding>, tool: Tool, run: ToolRun, found: Vec<Finding>)
    ensures
        views(final(all)@) == views(old(all)@) + kept_findings(tool, run, views(found@)),
{
    let ghost before = all@;
    if keeps_findings(tool, run) {
        let ghost given = found@;
        let mut found = found;
        all.append(&mut found);
        assert(views(all@) =~= views(before) + views(given));
    } else {
        assert(views(all@) =~= views(before) + Seq::<FindingView>::empty());
    }
}

/// Combines the three tools' runs of `cargo vibe check` into its findings (see
/// `check_findings`) and its exit code (see `check_exit_code`).
pub fn combine_check(
    strict: bool,
    risk: ToolRun,
    risk_found: Vec<Finding>,
    impact: ToolRun,
    impact_found: Vec<Finding>,
    drift: ToolRun,
    drift_found: Vec<Finding>,
) -> (res: CheckOutcome)
    ensures
        views(res.findings@) == check_findings(
            risk,
            views(risk_found@),
            impact,
            views(impact_found@),
            drift,
            views(drift_found@),
        ),
        res.exit_code == (if strict && strict_failure(risk, views(res.findings@)) {
            1u8
        } else {
            0u8
        }),
{
    let mut all: Vec<Finding> = Vec::new();
    assert(views(all@) =~= Seq::<FindingView>::empty());
    keep_into(&mut all, Tool::DiffRisk, risk, risk_found);
    keep_into(&mut all, Tool::CargoImpact, impact, impact_found);
    keep_into(&mut all, Tool::SpecDrift, drift, drift_found);
    let exit_code = check_exit_code(strict, risk, all.as_slice());
    CheckOutcome { findings: all, exit_code }
}

/// Whether one verification tool of the fix loop lets the change through: a tool
/// that could not be started (`None`) does not hold the loop back; otherwise its exit
/// status decides.
pub open spec fn verify_gate(exit: Option<bool>) -> bool {
    match exit {
        None => true,
        Some(success) => success,
    }
}

pub fn verify_gate_of(exit: Option<bool>) -> (res: bool)
    ensures
        res == verify_gate(exit),
{
    match exit {
        None => true,
        Some(success) => success,
    }
}

} // verus!
