//! Findings from the JSON reports of `cargo-impact` and `spec-drift`.
//!
//! The reports are decoded into the plain records below; this module maps each
//! record to a finding: severity and rule names to their enums, the file a finding
//! points at, and the message it carries.
use vstd::prelude::*;
use crate::finding::{rule_name, views, Confidence, Finding, FindingView, RuleId, Severity};

verus! {

/// A JSON member as the mapping reads it: missing, a string, or any other value.
pub enum JsonField {
    Absent,
    Text(String),
    Other,
}

pub open spec fn field_text(f: JsonField) -> Option<Seq<char>> {
    match f {
        JsonField::Text(s) => Some(s@),
        _ => None,
    }
}

/// One entry of `cargo-impact --format json`'s `findings` array.
pub struct ImpactRecord {
    pub id: String,
    pub severity: String,
    pub evidence: String,
    pub suggested_action: Option<String>,
    /// The entry's `kind` member.
    pub kind: JsonField,
    /// The `file` member of the entry's `test` object (`Absent` when there is none).
    pub test_file: JsonField,
    /// The entry's own `file` member.
    pub file: JsonField,
}

/// One divergence of `spec-drift --format json`.
pub struct DriftRecord {
    pub rule: String,
    pub severity: String,
    pub file: String,
    pub line: u32,
    pub stated: String,
    pub reality: String,
    pub risk: String,
}

pub open spec fn impact_severity(s: Seq<char>) -> Severity {
    if s == "high"@ {
        Severity::High
    } else if s == "medium"@ {
        Severity::Medium
    } else if s == "low"@ {
        Severity::Low
    } else {
        Severity::Medium
    }
}

pub open spec fn impact_rule(kind: Option<Seq<char>>) -> RuleId {
    match kind {
        Some(k) => if k == "test_reference"@ {
            RuleId::TestReference
        } else if k == "trait_impl"@ {
            RuleId::TraitImpl
        } else if k == "ffi_signature_change"@ {
            RuleId::FfiSignatureChange
        } else if k == "build_script_changed"@ {
            RuleId::BuildScriptChanged
        } else {
            RuleId::Other
        },
        None => RuleId::Other,
    }
}

/// The file an impact entry points at: `test.file` when the entry has one, else its
/// own `file`; `unknown` when the chosen member is not a string.
pub open spec fn impact_file(r: ImpactRecord) -> Seq<char> {
    let chosen = match r.test_file {
        JsonField::Absent => field_text(r.file),
        _ => field_text(r.test_file),
    };
    match chosen {
        Some(f) => f,
        None => "unknown"@,
    }
}

pub open spec fn impact_finding(r: ImpactRecord) -> FindingView {
    FindingView {
        rule: impact_rule(field_text(r.kind)),
        severity: impact_severity(r.severity@),
        confidence: Confidence::Heuristic,
        file: impact_file(r),
        line: 1,
        message: r.evidence@,
        source_tool: "cargo-impact"@,
        id: Some(r.id@),
        action: Some(
            match r.suggested_action {
                Some(a) => a@,
                None => Seq::empty(),
            },
        ),
    }
}

pub open spec fn drift_severity(s: Seq<char>) -> Severity {
    if s == "critical"@ {
        Severity::Critical
    } else if s == "warning"@ {
        Severity::High
    } else {
        Severity::Medium
    }
}

pub open spec fn drift_rule(s: Seq<char>) -> RuleId {
    if s == "symbol_absence"@ {
        RuleId::SymbolAbsence
    } else if s == "compile_failure"@ {
        RuleId::CompileFailure
    } else if s == "lying_test"@ {
        RuleId::LyingTest
    } else if s == "ghost_command"@ {
        RuleId::GhostCommand
    } else {
        RuleId::Other
    }
}

pub open spec fn drift_finding(r: DriftRecord) -> FindingView {
    FindingView {
        rule: drift_rule(r.rule@),
        severity: drift_severity(r.severity@),
        confidence: Confidence::Deterministic,
        file: r.file@,
        line: r.line,
        message: r.risk@ + " \u{2014} expected: "@ + r.stated@,
        source_tool: "spec-drift"@,
        id: None,
        action: None,
    }
}

/// A `cargo-impact` entry's severity word gives the severity of the same name
/// (`high`, `medium`, `low`); any other word gives a medium finding. An impact
/// finding is never critical.
pub proof fn law_impact_severity_by_name(r: ImpactRecord)
    ensures
        r.severity@ == "high"@ ==> impact_finding(r).severity == Severity::High,
        r.severity@ == "medium"@ ==> impact_finding(r).severity == Severity::Medium,
        r.severity@ == "low"@ ==> impact_finding(r).severity == Severity::Low,
        r.severity@ != "high"@ && r.severity@ != "medium"@ && r.severity@ != "low"@
            ==> impact_finding(r).severity == Severity::Medium,
        impact_finding(r).severity != Severity::Critical,
{
    reveal_strlit("high");
    reveal_strlit("medium");
    reveal_strlit("low");
    assert("high"@.len() == 4 && "medium"@.len() == 6 && "low"@.len() == 3);
}

/// A `cargo-impact` entry whose `kind` names one of the impact rules is reported
/// under that rule; any other kind, or none, is reported as `other`.
pub proof fn law_impact_rule_by_name(r: ImpactRecord)
    ensures
        ({
            let k = field_text(r.kind);
            let known = k == Some("test_reference"@) || k == Some("trait_impl"@) || k == Some(
                "ffi_signature_change"@,
            ) || k == Some("build_script_changed"@);
            &&& known ==> Some(rule_name(impact_finding(r).rule)) == k
            &&& !known ==> impact_finding(r).rule == RuleId::Other
        }),
{
    reveal_strlit("test_reference");
    reveal_strlit("trait_impl");
    reveal_strlit("ffi_signature_change");
    reveal_strlit("build_script_changed");
    assert("test_reference"@.len() == 14 && "trait_impl"@.len() == 10);
    assert("ffi_signature_change"@.len() == 20 && "build_script_changed"@.len() == 20);
    assert("ffi_signature_change"@[0] != "build_script_changed"@[0]);
}

/// A `spec-drift` divergence whose rule word names one of the drift rules is
/// reported under that rule (printed with the same word); any other word is
/// reported as `other`.
pub proof fn law_drift_rule_by_name(r: DriftRecord)
    ensures
        ({
            let w = r.rule@;
            let known = w == "symbol_absence"@ || w == "compile_failure"@ || w == "lying_test"@
                || w == "ghost_command"@;
            &&& known ==> rule_name(drift_finding(r).rule) == w
            &&& !known ==> drift_finding(r).rule == RuleId::Other
        }),
{
    reveal_strlit("symbol_absence");
    reveal_strlit("compile_failure");
    reveal_strlit("lying_test");
    reveal_strlit("ghost_command");
    assert("symbol_absence"@.len() == 14 && "compile_failure"@.len() == 15);
    assert("lying_test"@.len() == 10 && "ghost_command"@.len() == 13);
}

/// A `spec-drift` divergence of severity `critical` is a critical finding, one of
/// severity `warning` a high one, and any other a medium one.
pub proof fn law_drift_severity_by_name(r: DriftRecord)
    ensures
        r.severity@ == "critical"@ ==> drift_finding(r).severity == Severity::Critical,
        r.severity@ == "warning"@ ==> drift_finding(r).severity == Severity::High,
        r.severity@ != "critical"@ && r.severity@ != "warning"@ ==> drift_finding(r).severity
            == Severity::Medium,
{
    reveal_strlit("critical");
    reveal_strlit("warning");
    assert("critical"@.len() == 8 && "warning"@.len() == 7);
}

/// An impact finding points at the entry's `test.file` when it has a `test` member,
/// else at its own `file`, and at `unknown` when that member is not a string; it sits
/// on line 1, carries the entry's evidence, id and suggested action (empty when there
/// is none) and is attributed to `cargo-impact` with heuristic confidence.
pub proof fn law_impact_finding_fields(r: ImpactRecord)
    ensures
        ({
            let f = impact_finding(r);
            &&& (r.test_file matches JsonField::Text(t) ==> f.file == t@)
            &&& (r.test_file is Absent ==> (r.file matches JsonField::Text(t) ==> f.file == t@))
            &&& (r.test_file is Other ==> f.file == "unknown"@)
            &&& (r.test_file is Absent && !(r.file is Text) ==> f.file == "unknown"@)
            &&& f.line == 1
            &&& f.message == r.evidence@
            &&& f.id == Some(r.id@)
            &&& (r.suggested_action matches Some(a) ==> f.action == Some(a@))
            &&& (r.suggested_action is None ==> f.action == Some(Seq::<char>::empty()))
            &&& f.source_tool == "cargo-impact"@
            &&& f.confidence == Confidence::Heuristic
        }),
{
}

/// A drift finding points at the divergence's file and line, reads
/// `<risk> — expected: <stated>`, and is attributed to `spec-drift` with
/// deterministic confidence.
pub proof fn law_drift_finding_fields(r: DriftRecord)
    ensures
        ({
            let f = drift_finding(r);
            &&& f.file == r.file@
            &&& f.line == r.line
            &&& f.message == r.risk@ + " \u{2014} expected: "@ + r.stated@
            &&& f.source_tool == "spec-drift"@
            &&& f.confidence == Confidence::Deterministic
            &&& f.id is None
            &&& f.action is None
        }),
{
}

fn same(s: &String, lit: &str) -> (res: bool)
    ensures
        res == (s@ == lit@),
{
    *s == String::from_str(lit)
}

fn text_of(f: &JsonField) -> (res: Option<&String>)
    ensures
        match res {
            Some(s) => field_text(*f) == Some(s@),
            None => field_text(*f) is None,
        },
{
    match f {
        JsonField::Text(s) => Some(s),
        _ => None,
    }
}

fn impact_rule_of(kind: &JsonField) -> (res: RuleId)
    ensures
        res == impact_rule(field_text(*kind)),
{
    match text_of(kind) {
        Some(k) => if same(k, "test_reference") {
            RuleId::TestReference
        } else if same(k, "trait_impl") {
            RuleId::TraitImpl
        } else if same(k, "ffi_signature_change") {
            RuleId::FfiSignatureChange
        } else if same(k, "build_script_changed") {
            RuleId::BuildScriptChanged
        } else {
            RuleId::Other
        },
        None => RuleId::Other,
    }
}

/// The finding that one `cargo-impact` entry reports.
pub fn impact_finding_of(r: &ImpactRecord) -> (res: Finding)
    ensures
        res@ == impact_finding(*r),
{
    let severity = if same(&r.severity, "high") {
        Severity::High
    } else if same(&r.severity, "medium") {
        Severity::Medium
    } else if same(&r.severity, "low") {
        Severity::Low
    } else {
        Severity::Medium
    };
    let chosen = match &r.test_file {
        JsonField::Absent => text_of(&r.file),
        other => text_of(other),
    };
    let file = match chosen {
        Some(f) => f.clone(),
        None => String::from_str("unknown"),
    };
    let action = match &r.suggested_action {
        Some(a) => a.clone(),
        None => String::new(),
    };
    Finding {
        rule: impact_rule_of(&r.kind),
        severity,
        confidence: Confidence::Heuristic,
        file,
        line: 1,
        message: r.evidence.clone(),
        source_tool: String::from_str("cargo-impact"),
        id: Some(r.id.clone()),
        action: Some(action),
    }
}

/// The finding that one `spec-drift` divergence reports.
pub fn drift_finding_of(r: &DriftRecord) -> (res: Finding)
    ensures
        res@ == drift_finding(*r),
{
    let severity = if same(&r.severity, "critical") {
        Severity::Critical
    } else if same(&r.severity, "warning") {
        Severity::High
    } else {
        Severity::Medium
    };
    let rule = if same(&r.rule, "symbol_absence") {
        RuleId::SymbolAbsence
    } else if same(&r.rule, "compile_failure") {
        RuleId::CompileFailure
    } else if same(&r.rule, "lying_test") {
        RuleId::LyingTest
    } else if same(&r.rule, "ghost_command") {
        RuleId::GhostCommand
    } else {
        RuleId::Other
    };
    let mut message = r.risk.clone();
    message.append(" \u{2014} expected: ");
    message.append(r.stated.as_str());
    Finding {
        rule,
        severity,
        confidence: Confidence::Deterministic,
        file: r.file.clone(),
        line: r.line,
        message,
        source_tool: String::from_str("spec-drift"),
        id: None,
        action: None,
    }
}

/// The findings of a `cargo-impact` report, one per entry and in its order.
pub fn parse_impact_records(records: &Vec<ImpactRecord>) -> (res: Vec<Finding>)
    ensures
        views(res@) == records@.map_values(|r: ImpactRecord| impact_finding(r)),
{
    let mut out: Vec<Finding> = Vec::new();
    for i in 0..records.len()
        invariant
            out@.len() == i,
            forall|j: int| 0 <= j < i ==> (#[trigger] out@[j])@ == impact_finding(records@[j]),
    {
        out.push(impact_finding_of(&records[i]));
    }
    assert(views(out@) =~= records@.map_values(|r: ImpactRecord| impact_finding(r)));
    out
}

/// The findings of a `spec-drift` report, one per divergence and in its order.
pub fn parse_drift_records(records: &Vec<DriftRecord>) -> (res: Vec<Finding>)
    ensures
        views(res@) == records@.map_values(|r: DriftRecord| drift_finding(r)),
{
    let mut out: Vec<Finding> = Vec::new();
    for i in 0..records.len()
        invariant
            out@.len() == i,
            forall|j: int| 0 <= j < i ==> (#[trigger] out@[j])@ == drift_finding(records@[j]),
    {
        out.push(drift_finding_of(&records[i]));
    }
    assert(views(out@) =~= records@.map_values(|r: DriftRecord| drift_finding(r)));
    out
}

} // verus!
