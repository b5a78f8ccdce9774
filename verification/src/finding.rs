//! The finding model shared by every companion tool: rule, severity, confidence,
//! location and message, with the text line that `cargo vibe check` prints for it.
use vstd::prelude::*;
use crate::text::{decimal, push_decimal};

verus! {

/// How serious a finding is.
#[derive(Clone, Copy, Debug, PartialEq, Eq, Structural)]
pub enum Severity {
    Critical,
    High,
    Medium,
    Low,
}

/// How a finding was obtained.
#[derive(Clone, Copy, Debug, PartialEq, Eq, Structural)]
pub enum Confidence {
    Deterministic,
    Heuristic,
}

/// The rule that a finding reports on.
#[derive(Clone, Copy, Debug, PartialEq, Eq, Structural)]
pub enum RuleId {
    AuthGate,
    TestReference,
    TraitImpl,
    FfiSignatureChange,
    BuildScriptChanged,
    SymbolAbsence,
    CompileFailure,
    LyingTest,
    GhostCommand,
    Other,
}

pub open spec fn rule_name(r: RuleId) -> Seq<char> {
    match r {
        RuleId::AuthGate => "auth_gate"@,
        RuleId::TestReference => "test_reference"@,
        RuleId::TraitImpl => "trait_impl"@,
        RuleId::FfiSignatureChange => "ffi_signature_change"@,
        RuleId::BuildScriptChanged => "build_script_changed"@,
        RuleId::SymbolAbsence => "symbol_absence"@,
        RuleId::CompileFailure => "compile_failure"@,
        RuleId::LyingTest => "lying_test"@,
        RuleId::GhostCommand => "ghost_command"@,
        RuleId::Other => "other"@,
    }
}

impl RuleId {
    /// The rule's identifier as printed in reports.
    pub fn as_str(&self) -> (res: &'static str)
        ensures
            res@ == rule_name(*self),
    {
        match self {
            RuleId::AuthGate => "auth_gate",
            RuleId::TestReference => "test_reference",
            RuleId::TraitImpl => "trait_impl",
            RuleId::FfiSignatureChange => "ffi_signature_change",
            RuleId::BuildScriptChanged => "build_script_changed",
            RuleId::SymbolAbsence => "symbol_absence",
            RuleId::CompileFailure => "compile_failure",
            RuleId::LyingTest => "lying_test",
            RuleId::GhostCommand => "ghost_command",
            RuleId::Other => "other",
        }
    }
}

pub open spec fn severity_marker(s: Severity) -> Seq<char> {
    match s {
        Severity::Critical => "\u{1F6A8}"@,
        Severity::High => "\u{1F534}"@,
        Severity::Medium => "\u{1F7E1}"@,
        Severity::Low => "\u{1F535}"@,
    }
}

pub open spec fn severity_sarif_level(s: Severity) -> Seq<char> {
    match s {
        Severity::Critical => "error"@,
        Severity::High => "error"@,
        Severity::Medium => "warning"@,
        Severity::Low => "note"@,
    }
}

impl Severity {
    /// The glyph printed in front of a finding of this severity.
    pub fn marker(&self) -> (res: &'static str)
        ensures
            res@ == severity_marker(*self),
    {
        match self {
            Severity::Critical => "\u{1F6A8}",
            Severity::High => "\u{1F534}",
            Severity::Medium => "\u{1F7E1}",
            Severity::Low => "\u{1F535}",
        }
    }

    /// The SARIF `level` of a result of this severity.
    pub fn sarif_level(&self) -> (res: &'static str)
        ensures
            res@ == severity_sarif_level(*self),
    {
        match self {
            Severity::Critical => "error",
            Severity::High => "error",
            Severity::Medium => "warning",
            Severity::Low => "note",
        }
    }
}

/// One reported problem, from whichever tool produced it.
pub struct Finding {
    pub rule: RuleId,
    pub severity: Severity,
    pub confidence: Confidence,
    /// File the finding points at.
    pub file: String,
    /// One-based line in `file`.
    pub line: u32,
    pub message: String,
    /// The companion tool that reported it.
    pub source_tool: String,
    pub id: Option<String>,
    /// Suggested remedy, where the tool gave one.
    pub action: Option<String>,
}

/// Mathematical model of a `Finding`.
pub struct FindingView {
    pub rule: RuleId,
    pub severity: Severity,
    pub confidence: Confidence,
    pub file: Seq<char>,
    pub line: u32,
    pub message: Seq<char>,
    pub source_tool: Seq<char>,
    pub id: Option<Seq<char>>,
    pub action: Option<Seq<char>>,
}

pub open spec fn opt_view(o: Option<String>) -> Option<Seq<char>> {
    match o {
        Some(s) => Some(s@),
        None => None,
    }
}

impl View for Finding {
    type V = FindingView;

    open spec fn view(&self) -> FindingView {
        FindingView {
            rule: self.rule,
            severity: self.severity,
            confidence: self.confidence,
            file: self.file@,
            line: self.line,
            message: self.message@,
            source_tool: self.source_tool@,
            id: opt_view(self.id),
            action: opt_view(self.action),
        }
    }
}

/// Models of a sequence of findings.
pub open spec fn views(s: Seq<Finding>) -> Seq<FindingView> {
    s.map_values(|f: Finding| f@)
}

/// The line `cargo vibe check` prints for a finding:
/// `<marker> [<rule>] <file>:<line>  <message>`.
pub open spec fn text_line(f: FindingView) -> Seq<char> {
    severity_marker(f.severity) + " ["@ + rule_name(f.rule) + "] "@ + f.file + ":"@ + decimal(
        f.line as nat,
    ) + "  "@ + f.message
}

fn copy_opt(o: &Option<String>) -> (res: Option<String>)
    ensures
        opt_view(res) == opt_view(*o),
{
    match o {
        Some(s) => Some(s.clone()),
        None => None,
    }
}

impl Finding {
    /// A copy of this finding.
    pub fn duplicate(&self) -> (res: Finding)
        ensures
            res@ == self@,
    {
        Finding {
            rule: self.rule,
            severity: self.severity,
            confidence: self.confidence,
            file: self.file.clone(),
            line: self.line,
            message: self.message.clone(),
            source_tool: self.source_tool.clone(),
            id: copy_opt(&self.id),
            action: copy_opt(&self.action),
        }
    }

    /// The text line printed for this finding (see `text_line`).
    pub fn render_text(&self) -> (res: String)
        ensures
            res@ == text_line(self@),
    {
        let mut s = String::from_str(self.severity.marker());
        s.append(" [");
        s.append(self.rule.as_str());
        s.append("] ");
        s.append(self.file.as_str());
        s.append(":");
        push_decimal(&mut s, self.line as u64);
        s.append("  ");
        s.append(self.message.as_str());
        s
    }
}

} // verus!
