use cargo_vibe::finding::{Confidence, Finding, RuleId, Severity};
use cargo_vibe::report::AggregatedReport;
use cargo_vibe::risk_report::parse_findings_from_text;
use cargo_vibe::tool_json::{
    parse_drift_records, parse_impact_records, DriftRecord, ImpactRecord, JsonField,
};

fn finding(severity: Severity, tool: &str) -> Finding {
    Finding {
        rule: RuleId::Other,
        severity,
        confidence: Confidence::Heuristic,
        file: "src/lib.rs".to_string(),
        line: 3,
        message: "m".to_string(),
        source_tool: tool.to_string(),
        id: None,
        action: None,
    }
}

#[test]
fn label_line_becomes_auth_gate_finding() {
    let text = "  \u{1F6A8} Auth / Permission Gate: src/lib.rs:1 \u{2014} auth check removed\n";
    let found = parse_findings_from_text(text, "diff-risk");
    assert_eq!(found.len(), 1);
    let f = &found[0];
    assert_eq!(f.rule, RuleId::AuthGate);
    assert_eq!(f.file, "src/lib.rs");
    assert_eq!(f.line, 1);
    assert_eq!(f.message, "auth check removed");
    assert_eq!(f.severity, Severity::Medium);
    assert_eq!(f.confidence, Confidence::Heuristic);
    assert_eq!(f.source_tool, "diff-risk");
    assert!(f.render_text().contains("[auth_gate] src/lib.rs:1"));
}

#[test]
fn bracket_line_keeps_file_line_and_message() {
    let text = "  \u{1F6A8} [api_contract] src/lib.rs:42  Public API changed";
    let found = parse_findings_from_text(text, "diff-risk");
    assert_eq!(found.len(), 1);
    assert_eq!(found[0].rule, RuleId::Other);
    assert_eq!(found[0].file, "src/lib.rs");
    assert_eq!(found[0].line, 42);
    assert_eq!(found[0].message, "Public API changed");
}

#[test]
fn bracket_line_without_line_number_points_at_line_one() {
    let found = parse_findings_from_text("\u{26A0}\u{FE0F} [rule] Cargo.toml  dependencies changed", "t");
    assert_eq!(found.len(), 1);
    assert_eq!(found[0].file, "Cargo.toml");
    assert_eq!(found[0].line, 1);
    assert_eq!(found[0].message, "dependencies changed");
}

#[test]
fn oversized_line_number_falls_back_to_one() {
    let found = parse_findings_from_text("[r] a.rs:99999999999 too far", "t");
    assert_eq!(found.len(), 1);
    assert_eq!(found[0].line, 1);
    assert_eq!(found[0].message, "too far");
}

#[test]
fn headers_comments_and_prose_carry_no_findings() {
    let text = "diff-risk v0.3 report\r\n# summary\n\n   \nRisk score: 8.5 / 10\n[unterminated src/x.rs:1\n";
    assert!(parse_findings_from_text(text, "diff-risk").is_empty());
    assert!(parse_findings_from_text("", "diff-risk").is_empty());
}

#[test]
fn several_lines_keep_their_order() {
    let text = "[a] one.rs:1  first\r\nUnsafe Block: two.rs:2 - second\n[c] three.rs:3  third";
    let found = parse_findings_from_text(text, "diff-risk");
    assert_eq!(found.len(), 3);
    assert_eq!(found[0].file, "one.rs");
    assert_eq!(found[0].message, "first");
    assert_eq!(found[1].file, "two.rs");
    assert_eq!(found[1].line, 2);
    assert_eq!(found[1].rule, RuleId::Other);
    assert_eq!(found[1].message, "second");
    assert_eq!(found[2].line, 3);
}

#[test]
fn render_text_line_format() {
    let f = Finding {
        rule: RuleId::TestReference,
        severity: Severity::High,
        confidence: Confidence::Heuristic,
        file: "tests/auth.rs".to_string(),
        line: 42,
        message: "login() test references changed symbol".to_string(),
        source_tool: "cargo-impact".to_string(),
        id: None,
        action: None,
    };
    assert_eq!(
        f.render_text(),
        "\u{1F534} [test_reference] tests/auth.rs:42  login() test references changed symbol"
    );
}

fn impact(kind: JsonField, test_file: JsonField, file: JsonField, severity: &str) -> ImpactRecord {
    ImpactRecord {
        id: "f-1".to_string(),
        severity: severity.to_string(),
        evidence: "login() test references changed symbol".to_string(),
        suggested_action: None,
        kind,
        test_file,
        file,
    }
}

#[test]
fn impact_records_map_severity_rule_and_file() {
    let records = vec![
        impact(
            JsonField::Text("test_reference".to_string()),
            JsonField::Text("tests/auth.rs".to_string()),
            JsonField::Text("src/lib.rs".to_string()),
            "high",
        ),
        impact(JsonField::Text("trait_impl".to_string()), JsonField::Absent, JsonField::Text("src/handlers.rs".to_string()), "low"),
        impact(JsonField::Absent, JsonField::Other, JsonField::Text("src/x.rs".to_string()), "unheard"),
        impact(JsonField::Other, JsonField::Absent, JsonField::Absent, "medium"),
    ];
    let found = parse_impact_records(&records);
    assert_eq!(found.len(), 4);
    assert_eq!(found[0].severity, Severity::High);
    assert_eq!(found[0].rule, RuleId::TestReference);
    assert_eq!(found[0].file, "tests/auth.rs");
    assert_eq!(found[0].line, 1);
    assert_eq!(found[0].id.as_deref(), Some("f-1"));
    assert_eq!(found[0].action.as_deref(), Some(""));
    assert_eq!(found[0].source_tool, "cargo-impact");
    assert_eq!(found[1].severity, Severity::Low);
    assert_eq!(found[1].rule, RuleId::TraitImpl);
    assert_eq!(found[1].file, "src/handlers.rs");
    assert_eq!(found[2].severity, Severity::Medium);
    assert_eq!(found[2].rule, RuleId::Other);
    assert_eq!(found[2].file, "unknown");
    assert_eq!(found[3].file, "unknown");
    assert_eq!(found[3].rule, RuleId::Other);
}

#[test]
fn drift_records_map_rule_severity_and_message() {
    let records = vec![DriftRecord {
        rule: "symbol_absence".to_string(),
        severity: "warning".to_string(),
        file: "README.md".to_string(),
        line: 10,
        stated: "`connect_db()` exists".to_string(),
        reality: "not found".to_string(),
        risk: "`connect_db()` not found in code".to_string(),
    }, DriftRecord {
        rule: "ghost_command".to_string(),
        severity: "critical".to_string(),
        file: "ci.yml".to_string(),
        line: 2,
        stated: "a".to_string(),
        reality: "b".to_string(),
        risk: "r".to_string(),
    }];
    let found = parse_drift_records(&records);
    assert_eq!(found.len(), 2);
    assert_eq!(found[0].rule, RuleId::SymbolAbsence);
    assert_eq!(found[0].severity, Severity::High);
    assert_eq!(found[0].confidence, Confidence::Deterministic);
    assert_eq!(found[0].line, 10);
    assert_eq!(found[0].message, "`connect_db()` not found in code \u{2014} expected: `connect_db()` exists");
    assert_eq!(found[0].source_tool, "spec-drift");
    assert_eq!(found[1].rule, RuleId::GhostCommand);
    assert_eq!(found[1].severity, Severity::Critical);
}

#[test]
fn aggregated_report_counts_by_severity_and_tool() {
    let findings = vec![
        finding(Severity::Critical, "diff-risk"),
        finding(Severity::High, "cargo-impact"),
        finding(Severity::Medium, "cargo-impact"),
        finding(Severity::Medium, "spec-drift"),
        finding(Severity::Low, "elsewhere"),
    ];
    let report = AggregatedReport::new("cargo-vibe check", &findings);
    assert_eq!(report.tool, "cargo-vibe check");
    assert_eq!(report.version, "0.1.0");
    assert_eq!(report.total_findings, 5);
    assert_eq!(report.by_severity.critical, 1);
    assert_eq!(report.by_severity.high, 1);
    assert_eq!(report.by_severity.medium, 2);
    assert_eq!(report.by_severity.low, 1);
    assert_eq!(report.by_tool.diff_risk, 1);
    assert_eq!(report.by_tool.cargo_impact, 2);
    assert_eq!(report.by_tool.spec_drift, 1);
    assert_eq!(report.findings.len(), 5);
    assert_eq!(report.findings[4].source_tool, "elsewhere");
}

#[test]
fn empty_report_counts_nothing() {
    let report = AggregatedReport::new("x", &[]);
    assert_eq!(report.total_findings, 0);
    assert_eq!(report.by_severity.critical + report.by_severity.high, 0);
}

#[test]
fn severity_markers_and_levels() {
    assert_eq!(Severity::Critical.marker(), "\u{1F6A8}");
    assert_eq!(Severity::Medium.marker(), "\u{1F7E1}");
    assert_eq!(Severity::High.sarif_level(), "error");
    assert_eq!(Severity::Medium.sarif_level(), "warning");
    assert_eq!(Severity::Low.sarif_level(), "note");
    assert_eq!(RuleId::FfiSignatureChange.as_str(), "ffi_signature_change");
    assert_eq!(RuleId::Other.as_str(), "other");
}

#[test]
fn rendered_line_reads_back_through_the_report_parser() {
    let mut f = finding(Severity::Critical, "cargo-impact");
    f.rule = RuleId::TestReference;
    f.line = 1234;
    f.message = "login() test references changed symbol".to_string();
    let parsed = parse_findings_from_text(&f.render_text(), "diff-risk");
    assert_eq!(parsed.len(), 1);
    assert_eq!(parsed[0].file, f.file);
    assert_eq!(parsed[0].line, 1234);
    assert_eq!(parsed[0].message, f.message);
    assert_eq!(parsed[0].rule, RuleId::Other);
    assert_eq!(parsed[0].source_tool, "diff-risk");

    let mut empty = finding(Severity::Low, "x");
    empty.message = String::new();
    let parsed = parse_findings_from_text(&empty.render_text(), "t");
    assert_eq!(parsed.len(), 1);
    assert_eq!(parsed[0].message, "");
    assert_eq!(parsed[0].line, 3);

    // The high-severity glyph is not one the report parser skips.
    let high = finding(Severity::High, "x");
    assert!(parse_findings_from_text(&high.render_text(), "t").is_empty());
}

#[test]
fn report_lines_are_read_independently() {
    let a = "[a] one.rs:1  first\n# note";
    let b = "Auth / Permission Gate: two.rs:9 \u{2014} second";
    let joined = format!("{a}\n{b}");
    let whole = parse_findings_from_text(&joined, "diff-risk");
    let first = parse_findings_from_text(a, "diff-risk");
    let second = parse_findings_from_text(b, "diff-risk");
    assert_eq!(whole.len(), first.len() + second.len());
    assert_eq!(whole[0].file, first[0].file);
    assert_eq!(whole[1].file, second[0].file);
    assert_eq!(whole[1].rule, RuleId::AuthGate);
    assert_eq!(whole[1].line, 9);
}

#[test]
fn report_counts_do_not_depend_on_finding_order() {
    let a = vec![
        finding(Severity::Critical, "diff-risk"),
        finding(Severity::Low, "cargo-impact"),
        finding(Severity::High, "spec-drift"),
        finding(Severity::Low, "cargo-impact"),
    ];
    let b = vec![
        finding(Severity::Low, "cargo-impact"),
        finding(Severity::High, "spec-drift"),
        finding(Severity::Low, "cargo-impact"),
        finding(Severity::Critical, "diff-risk"),
    ];
    let ra = AggregatedReport::new("t", &a);
    let rb = AggregatedReport::new("t", &b);
    assert_eq!(ra.total_findings, rb.total_findings);
    assert_eq!(ra.by_severity.critical, rb.by_severity.critical);
    assert_eq!(ra.by_severity.high, rb.by_severity.high);
    assert_eq!(ra.by_severity.medium, rb.by_severity.medium);
    assert_eq!(ra.by_severity.low, rb.by_severity.low);
    assert_eq!(ra.by_tool.diff_risk, rb.by_tool.diff_risk);
    assert_eq!(ra.by_tool.cargo_impact, rb.by_tool.cargo_impact);
    assert_eq!(ra.by_tool.spec_drift, rb.by_tool.spec_drift);
    assert_eq!(ra.by_severity.low, 2);
    assert_eq!(ra.by_tool.cargo_impact, 2);
}
