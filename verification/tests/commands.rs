use cargo_vibe::commands::{
    check_exit_code, check_totals_line, combine_check, contains_arg, context_args, tool_run, verify_gate_of, drift_args, drift_check_args,
    fix_drift_args, fix_impact_args, fix_risk_args, impact_args, impact_check_args,
    normalize_argv, pick_setting, risk_check_args, status_exit_code, tool_status_line, Tool,
    ToolRun, ToolSettings, VibeSettings,
};
use cargo_vibe::finding::{Confidence, Finding, RuleId, Severity};
use cargo_vibe::text::decimal_string;

fn strings(v: &[&str]) -> Vec<String> {
    v.iter().map(|s| s.to_string()).collect()
}

fn finding(severity: Severity) -> Finding {
    Finding {
        rule: RuleId::Other,
        severity,
        confidence: Confidence::Heuristic,
        file: "f".to_string(),
        line: 1,
        message: "m".to_string(),
        source_tool: "diff-risk".to_string(),
        id: None,
        action: None,
    }
}

#[test]
fn cargo_subcommand_word_is_dropped() {
    assert_eq!(
        normalize_argv(strings(&["cargo-vibe", "vibe", "check", "--help"])),
        strings(&["cargo-vibe", "check", "--help"])
    );
    assert_eq!(normalize_argv(strings(&["cargo-vibe", "check"])), strings(&["cargo-vibe", "check"]));
    assert_eq!(normalize_argv(strings(&["cargo-vibe"])), strings(&["cargo-vibe"]));
}

#[test]
fn missing_tools_are_reported_as_skipped() {
    assert_eq!(
        tool_status_line(Tool::DiffRisk, ToolRun::NotInstalled, 0, "7"),
        "  diff-risk: not installed, skipped"
    );
    assert_eq!(
        tool_status_line(Tool::CargoImpact, ToolRun::NotInstalled, 0, "7"),
        "  cargo-impact: not installed, skipped"
    );
    assert_eq!(
        tool_status_line(Tool::SpecDrift, ToolRun::NotInstalled, 0, "7"),
        "  spec-drift: not installed, skipped"
    );
}

#[test]
fn disabled_tools_are_reported_as_skipped() {
    assert_eq!(
        tool_status_line(Tool::DiffRisk, ToolRun::Disabled, 0, "7"),
        "  diff-risk: disabled by config, skipped"
    );
    assert_eq!(
        tool_status_line(Tool::CargoImpact, ToolRun::Disabled, 0, "7"),
        "  cargo-impact: disabled by config, skipped"
    );
    assert_eq!(
        tool_status_line(Tool::SpecDrift, ToolRun::Disabled, 0, "7"),
        "  spec-drift: disabled by config, skipped"
    );
}

#[test]
fn completed_runs_report_their_outcome() {
    assert_eq!(tool_status_line(Tool::DiffRisk, ToolRun::Completed { success: true }, 0, "7"), "  diff-risk: passed");
    assert_eq!(
        tool_status_line(Tool::DiffRisk, ToolRun::Completed { success: false }, 2, "7.5"),
        "  diff-risk: FAILED (threshold 7.5 exceeded)"
    );
    assert_eq!(tool_status_line(Tool::DiffRisk, ToolRun::NoDiff, 0, "7"), "  diff-risk: no diff available, skipped");
    assert_eq!(
        tool_status_line(Tool::CargoImpact, ToolRun::Completed { success: true }, 3, "7"),
        "  cargo-impact: 3 finding(s)"
    );
    assert_eq!(tool_status_line(Tool::CargoImpact, ToolRun::Completed { success: false }, 0, "7"), "  cargo-impact: FAILED");
    assert_eq!(
        tool_status_line(Tool::SpecDrift, ToolRun::Completed { success: false }, 1, "7"),
        "  spec-drift: 1 divergence(s)"
    );
}

#[test]
fn strict_check_fails_on_risk_failure_or_serious_findings() {
    let medium = vec![finding(Severity::Medium)];
    assert_eq!(check_exit_code(true, ToolRun::Completed { success: false }, &medium), 1);
    assert_eq!(check_exit_code(false, ToolRun::Completed { success: false }, &medium), 0);
    assert_eq!(check_exit_code(true, ToolRun::Completed { success: true }, &medium), 0);
    assert_eq!(check_exit_code(true, ToolRun::NotInstalled, &[]), 0);
    assert_eq!(check_exit_code(true, ToolRun::Disabled, &[finding(Severity::High)]), 1);
    assert_eq!(check_exit_code(true, ToolRun::NoDiff, &[finding(Severity::Critical)]), 1);
    assert_eq!(check_exit_code(false, ToolRun::NoDiff, &[finding(Severity::Critical)]), 0);
}

#[test]
fn totals_line_counts_critical_and_high() {
    let f = vec![finding(Severity::High), finding(Severity::Medium), finding(Severity::Medium), finding(Severity::Low)];
    assert_eq!(check_totals_line(&f), "\n  Total: 4 finding(s) | Critical: 0 | High: 1");
}

#[test]
fn configured_extra_args_are_appended_and_override_the_default_floor() {
    let extra = strings(&["--confidence-min", "0.9", "--cache"]);
    assert_eq!(
        impact_check_args("HEAD", &extra),
        strings(&["--since", "HEAD", "--format", "json", "--confidence-min", "0.9", "--cache"])
    );
    assert_eq!(
        impact_check_args("HEAD", &Vec::new()),
        strings(&["--since", "HEAD", "--format", "json", "--confidence-min", "0.5"])
    );
    assert_eq!(
        impact_check_args("main", &strings(&["--cache"])),
        strings(&["--since", "main", "--format", "json", "--confidence-min", "0.5", "--cache"])
    );
    assert_eq!(risk_check_args("7", &strings(&["--strict"])), strings(&["--threshold", "7", "--strict"]));
    assert_eq!(drift_check_args(&Vec::new()), strings(&["--format", "json"]));
}

#[test]
fn subcommand_arguments() {
    assert_eq!(impact_args("HEAD", true, "json"), strings(&["--since", "HEAD", "--test"]));
    assert_eq!(impact_args("HEAD", false, "json"), strings(&["--since", "HEAD", "--format", "json"]));
    assert_eq!(drift_args("sarif", "critical", Some("HEAD")), strings(&["--format", "sarif", "--deny", "critical", "--diff", "HEAD"]));
    assert_eq!(drift_args("text", "notice", None), strings(&["--format", "text", "--deny", "notice"]));
    assert_eq!(fix_risk_args("6"), strings(&["--threshold", "6"]));
    assert_eq!(fix_impact_args("HEAD"), strings(&["--since", "HEAD", "--fail-on", "high"]));
    assert_eq!(fix_drift_args(), strings(&["--format", "json", "--deny", "warning"]));
}

#[test]
fn context_prompt_is_not_forwarded_as_a_flag() {
    let args = context_args("fix", Some(32000), None);
    assert_eq!(args, strings(&["--preset", "fix", "--max-tokens", "32000"]));
    assert!(!contains_arg(&args, "--stdin"));
    assert_eq!(context_args("feature", None, None), strings(&["--preset", "feature"]));
}

#[test]
fn configured_token_budget_applies_when_none_is_given() {
    assert_eq!(
        context_args("fix", None, Some(32000)),
        strings(&["--preset", "fix", "--max-tokens", "32000"])
    );
    assert_eq!(
        context_args("fix", Some(8000), Some(32000)),
        strings(&["--preset", "fix", "--max-tokens", "8000"])
    );
}

#[test]
fn disabled_context_tool_is_reported_as_skipped() {
    assert_eq!(
        tool_status_line(Tool::CargoContext, ToolRun::Disabled, 0, ""),
        "  cargo-context: disabled by config, skipped"
    );
}

#[test]
fn tool_run_outcomes() {
    assert_eq!(tool_run(false, true, Some(true)), ToolRun::Disabled);
    assert_eq!(tool_run(true, false, None), ToolRun::NoDiff);
    assert_eq!(tool_run(true, true, None), ToolRun::NotInstalled);
    assert_eq!(tool_run(true, true, Some(false)), ToolRun::Completed { success: false });
    assert_eq!(tool_run(true, true, Some(true)), ToolRun::Completed { success: true });
}

fn from_tool(tool: &str, severity: Severity) -> Finding {
    let mut f = finding(severity);
    f.source_tool = tool.to_string();
    f
}

#[test]
fn check_concatenates_kept_findings_in_tool_order() {
    let out = combine_check(
        false,
        ToolRun::Completed { success: true },
        vec![from_tool("diff-risk", Severity::Medium)],
        ToolRun::Completed { success: true },
        vec![from_tool("cargo-impact", Severity::Low), from_tool("cargo-impact", Severity::Low)],
        ToolRun::Completed { success: false },
        vec![from_tool("spec-drift", Severity::High)],
    );
    let tools: Vec<&str> = out.findings.iter().map(|f| f.source_tool.as_str()).collect();
    assert_eq!(tools, vec!["diff-risk", "cargo-impact", "cargo-impact", "spec-drift"]);
    assert_eq!(out.exit_code, 0);
}

#[test]
fn check_drops_findings_of_a_failed_impact_run() {
    let out = combine_check(
        true,
        ToolRun::Completed { success: true },
        Vec::new(),
        ToolRun::Completed { success: false },
        vec![from_tool("cargo-impact", Severity::Critical)],
        ToolRun::NotInstalled,
        Vec::new(),
    );
    assert!(out.findings.is_empty());
    assert_eq!(out.exit_code, 0);
}

#[test]
fn strict_check_fails_on_high_findings_or_failed_risk_gate() {
    let out = combine_check(
        true,
        ToolRun::Disabled,
        Vec::new(),
        ToolRun::Completed { success: true },
        vec![from_tool("cargo-impact", Severity::High)],
        ToolRun::Disabled,
        Vec::new(),
    );
    assert_eq!(out.exit_code, 1);
    let out = combine_check(
        true,
        ToolRun::Completed { success: false },
        Vec::new(),
        ToolRun::Disabled,
        Vec::new(),
        ToolRun::Disabled,
        Vec::new(),
    );
    assert_eq!(out.exit_code, 1);
    let out = combine_check(
        false,
        ToolRun::Completed { success: false },
        Vec::new(),
        ToolRun::Disabled,
        Vec::new(),
        ToolRun::Disabled,
        Vec::new(),
    );
    assert_eq!(out.exit_code, 0);
}

#[test]
fn missing_verification_tool_does_not_hold_the_fix_loop_back() {
    assert!(verify_gate_of(None));
    assert!(verify_gate_of(Some(true)));
    assert!(!verify_gate_of(Some(false)));
}

#[test]
fn settings_precedence() {
    assert_eq!(pick_setting(Some(5.0f32), Some(8.0), Some(6.0), 7.0), 5.0);
    assert_eq!(pick_setting(None, Some(8.0f32), Some(6.0), 7.0), 8.0);
    assert_eq!(pick_setting(None, None, Some(6.0f32), 7.0), 6.0);
    assert_eq!(pick_setting::<f32>(None, None, None, 7.0), 7.0);
}

#[test]
fn tool_settings_defaults() {
    let s = ToolSettings::configured(None, None);
    assert!(s.enabled);
    assert!(s.extra_args.is_empty());
    let s = ToolSettings::configured(Some(false), Some(strings(&["--strict"])));
    assert!(!s.enabled);
    assert_eq!(s.extra_args, strings(&["--strict"]));
    let all = VibeSettings::default();
    assert!(all.diff_risk.enabled && all.cargo_impact.enabled && all.spec_drift.enabled && all.cargo_context.enabled);
}

#[test]
fn exit_codes_and_numbers() {
    assert_eq!(status_exit_code(true), 0);
    assert_eq!(status_exit_code(false), 1);
    assert_eq!(decimal_string(0), "0");
    assert_eq!(decimal_string(4000), "4000");
    assert_eq!(decimal_string(u64::MAX), u64::MAX.to_string());
    assert_eq!(Tool::CargoContext.name(), "cargo-context");
    assert!(contains_arg(&strings(&["a", "--cache"]), "--cache"));
}
