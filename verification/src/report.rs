//! The aggregated report that `cargo vibe check --format json` prints: the findings of
//! all tools with their counts by severity and by tool.
use vstd::prelude::*;
use crate::finding::{views, Finding, FindingView, Severity};

verus! {

/// Version of this tool, as recorded in its reports.
pub const VERSION: &'static str = "0.1.0";

/// Number of findings per severity.
#[derive(Debug)]
pub struct SeverityCounts {
    pub critical: usize,
    pub high: usize,
    pub medium: usize,
    pub low: usize,
}

/// Number of findings per companion tool.
#[derive(Debug)]
pub struct ToolCounts {
    pub diff_risk: usize,
    pub cargo_impact: usize,
    pub spec_drift: usize,
}

impl Default for SeverityCounts {
    fn default() -> (res: Self)
        ensures
            res.critical == 0 && res.high == 0 && res.medium == 0 && res.low == 0,
    {
        SeverityCounts { critical: 0, high: 0, medium: 0, low: 0 }
    }
}

impl Default for ToolCounts {
    fn default() -> (res: Self)
        ensures
            res.diff_risk == 0 && res.cargo_impact == 0 && res.spec_drift == 0,
    {
        ToolCounts { diff_risk: 0, cargo_impact: 0, spec_drift: 0 }
    }
}

/// Aggregated report from all tools.
pub struct AggregatedReport {
    pub tool: String,
    pub version: String,
    pub total_findings: usize,
    pub by_severity: SeverityCounts,
    pub by_tool: ToolCounts,
    pub findings: Vec<Finding>,
}

/// Number of findings in `s` of severity `sev`.
pub open spec fn severity_count(s: Seq<FindingView>, sev: Severity) -> nat
    decreases s.len(),
{
    if s.len() == 0 {
        0
    } else {
        severity_count(s.drop_last(), sev) + if s.last().severity == sev {
            1nat
        } else {
            0nat
        }
    }
}

/// Number of findings in `s` reported by `tool`.
pub open spec fn tool_count(s: Seq<FindingView>, tool: Seq<char>) -> nat
    decreases s.len(),
{
    if s.len() == 0 {
        0
    } else {
        tool_count(s.drop_last(), tool) + if s.last().source_tool == tool {
            1nat
        } else {
            0nat
        }
    }
}

/// Every finding has exactly one severity: the four counts add up to the number of findings.
pub proof fn law_severity_counts_partition(s: Seq<FindingView>)
    ensures
        severity_count(s, Severity::Critical) + severity_count(s, Severity::High) + severity_count(
            s,
            Severity::Medium,
        ) + severity_count(s, Severity::Low) == s.len(),
    decreases s.len(),
{
    if s.len() > 0 {
        law_severity_counts_partition(s.drop_last());
    }
}

/// A finding is reported by one tool at most: the three tool counts add up to no more
/// than the number of findings.
pub proof fn law_tool_counts_bounded(s: Seq<FindingView>)
    ensures
        tool_count(s, "diff-risk"@) + tool_count(s, "cargo-impact"@) + tool_count(
            s,
            "spec-drift"@,
        ) <= s.len(),
    decreases s.len(),
{
    lemma_tool_names_distinct();
    if s.len() > 0 {
        law_tool_counts_bounded(s.drop_last());
    }
}

/// The three companion tool names are distinct.
pub proof fn lemma_tool_names_distinct()
    ensures
        "diff-risk"@ != "cargo-impact"@,
        "diff-risk"@ != "spec-drift"@,
        "cargo-impact"@ != "spec-drift"@,
{
    reveal_strlit("diff-risk");
    reveal_strlit("cargo-impact");
    reveal_strlit("spec-drift");
    assert("diff-risk"@.len() == 9);
    assert("cargo-impact"@.len() == 12);
    assert("spec-drift"@.len() == 10);
}

/// Number of findings in `s` that satisfy `p`.
pub open spec fn count_where(s: Seq<FindingView>, p: spec_fn(FindingView) -> bool) -> nat
    decreases s.len(),
{
    if s.len() == 0 {
        0
    } else {
        count_where(s.drop_last(), p) + if p(s.last()) {
            1nat
        } else {
            0nat
        }
    }
}

proof fn lemma_severity_count_where(s: Seq<FindingView>, sev: Severity)
    ensures
        severity_count(s, sev) == count_where(s, |f: FindingView| f.severity == sev),
    decreases s.len(),
{
    if s.len() > 0 {
        lemma_severity_count_where(s.drop_last(), sev);
    }
}

proof fn lemma_tool_count_where(s: Seq<FindingView>, tool: Seq<char>)
    ensures
        tool_count(s, tool) == count_where(s, |f: FindingView| f.source_tool == tool),
    decreases s.len(),
{
    if s.len() > 0 {
        lemma_tool_count_where(s.drop_last(), tool);
    }
}

/// Taking the `k`-th finding out of `s` lowers the count by one exactly when it
/// satisfies `p`.
proof fn lemma_count_where_remove(s: Seq<FindingView>, p: spec_fn(FindingView) -> bool, k: int)
    requires
        0 <= k < s.len(),
    ensures
        count_where(s, p) == count_where(s.remove(k), p) + if p(s[k]) {
            1nat
        } else {
            0nat
        },
    decreases s.len(),
{
    if k == s.len() - 1 {
        assert(s.remove(k) =~= s.drop_last());
    } else {
        lemma_count_where_remove(s.drop_last(), p, k);
        assert(s.remove(k).drop_last() =~= s.drop_last().remove(k));
        assert(s.remove(k).last() == s.last());
    }
}

/// Two sequences that hold the same findings, each as often, have the same count
/// under any predicate.
proof fn lemma_count_where_permutation(
    a: Seq<FindingView>,
    b: Seq<FindingView>,
    p: spec_fn(FindingView) -> bool,
)
    requires
        a.to_multiset() == b.to_multiset(),
    ensures
        count_where(a, p) == count_where(b, p),
    decreases a.len(),
{
    broadcast use vstd::seq_lib::group_to_multiset_ensures;

    assert(a.len() == a.to_multiset().len());
    assert(b.len() == b.to_multiset().len());
    if a.len() > 0 {
        let x = a.last();
        let a1 = a.drop_last();
        assert(a1.push(x) =~= a);
        assert(a[a.len() - 1] == x);
        assert(a.contains(x));
        assert(a.to_multiset().count(x) > 0);
        assert(b.to_multiset().count(x) > 0);
        assert(b.contains(x));
        let k = choose|k: int| 0 <= k < b.len() && b[k] == x;
        let b1 = b.remove(k);
        assert(b1.to_multiset() =~= a1.to_multiset());
        lemma_count_where_permutation(a1, b1, p);
        lemma_count_where_remove(b, p, k);
    }
}

/// The counts of a report do not depend on the order of its findings: two lists that
/// hold the same findings, each as often, give the same total, the same count for every
/// severity and the same count for every tool.
pub proof fn law_report_counts_ignore_order(a: Seq<FindingView>, b: Seq<FindingView>)
    requires
        a.to_multiset() == b.to_multiset(),
    ensures
        a.len() == b.len(),
        forall|sev: Severity| #[trigger] severity_count(a, sev) == severity_count(b, sev),
        forall|tool: Seq<char>| #[trigger] tool_count(a, tool) == tool_count(b, tool),
{
    broadcast use vstd::seq_lib::group_to_multiset_ensures;

    assert(a.len() == a.to_multiset().len());
    assert forall|sev: Severity| #[trigger] severity_count(a, sev) == severity_count(b, sev) by {
        lemma_severity_count_where(a, sev);
        lemma_severity_count_where(b, sev);
        lemma_count_where_permutation(a, b, |f: FindingView| f.severity == sev);
    }
    assert forall|tool: Seq<char>| #[trigger] tool_count(a, tool) == tool_count(b, tool) by {
        lemma_tool_count_where(a, tool);
        lemma_tool_count_where(b, tool);
        lemma_count_where_permutation(a, b, |f: FindingView| f.source_tool == tool);
    }
}

proof fn lemma_counts_step(s: Seq<FindingView>, i: int)
    requires
        0 <= i < s.len(),
    ensures
        s.take(i + 1).drop_last() == s.take(i),
        s.take(i + 1).last() == s[i],
{
    assert(s.take(i + 1).drop_last() =~= s.take(i));
}

fn count_tool(counts: &mut ToolCounts, tool: &String)
    requires
        old(counts).diff_risk < usize::MAX,
        old(counts).cargo_impact < usize::MAX,
        old(counts).spec_drift < usize::MAX,
    ensures
        final(counts).diff_risk == old(counts).diff_risk + if tool@ == "diff-risk"@ {
            1int
        } else {
            0int
        },
        final(counts).cargo_impact == old(counts).cargo_impact + if tool@ == "cargo-impact"@ {
            1int
        } else {
            0int
        },
        final(counts).spec_drift == old(counts).spec_drift + if tool@ == "spec-drift"@ {
            1int
        } else {
            0int
        },
{
    proof {
        lemma_tool_names_distinct();
    }
    if *tool == String::from_str("diff-risk") {
        counts.diff_risk = counts.diff_risk + 1;
    } else if *tool == String::from_str("cargo-impact") {
        counts.cargo_impact = counts.cargo_impact + 1;
    } else if *tool == String::from_str("spec-drift") {
        counts.spec_drift = counts.spec_drift + 1;
    }
}

/// Number of `findings` of severity `sev`.
pub fn count_severity(findings: &[Finding], sev: Severity) -> (res: usize)
    ensures
        res == severity_count(views(findings@), sev),
{
    let ghost all = views(findings@);
    let mut n: usize = 0;
    for i in 0..findings.len()
        invariant
            all == views(findings@),
            n == severity_count(all.take(i as int), sev),
            n <= i,
    {
        proof {
            lemma_counts_step(all, i as int);
        }
        if findings[i].severity == sev {
            n = n + 1;
        }
    }
    assert(all.take(findings@.len() as int) =~= all);
    n
}

impl AggregatedReport {
    /// The report of `tool` over `findings`, counting them by severity and by the
    /// companion tool that reported them.
    pub fn new(tool: &str, findings: &[Finding]) -> (res: Self)
        ensures
            res.tool@ == tool@,
            res.version@ == VERSION@,
            res.total_findings == findings@.len(),
            views(res.findings@) == views(findings@),
            res.by_severity.critical == severity_count(views(findings@), Severity::Critical),
            res.by_severity.high == severity_count(views(findings@), Severity::High),
            res.by_severity.medium == severity_count(views(findings@), Severity::Medium),
            res.by_severity.low == severity_count(views(findings@), Severity::Low),
            res.by_tool.diff_risk == tool_count(views(findings@), "diff-risk"@),
            res.by_tool.cargo_impact == tool_count(views(findings@), "cargo-impact"@),
            res.by_tool.spec_drift == tool_count(views(findings@), "spec-drift"@),
            res.by_severity.critical + res.by_severity.high + res.by_severity.medium
                + res.by_severity.low == res.total_findings,
    {
        let mut counts = SeverityCounts::default();
        let mut tool_counts = ToolCounts::default();
        let mut copies: Vec<Finding> = Vec::new();
        let ghost all = views(findings@);
        for i in 0..findings.len()
            invariant
                all == views(findings@),
                copies@.len() == i,
                forall|j: int| 0 <= j < i ==> (#[trigger] copies@[j])@ == findings@[j]@,
                counts.critical == severity_count(all.take(i as int), Severity::Critical),
                counts.high == severity_count(all.take(i as int), Severity::High),
                counts.medium == severity_count(all.take(i as int), Severity::Medium),
                counts.low == severity_count(all.take(i as int), Severity::Low),
                tool_counts.diff_risk == tool_count(all.take(i as int), "diff-risk"@),
                tool_counts.cargo_impact == tool_count(all.take(i as int), "cargo-impact"@),
                tool_counts.spec_drift == tool_count(all.take(i as int), "spec-drift"@),
                counts.critical + counts.high + counts.medium + counts.low == i,
                tool_counts.diff_risk + tool_counts.cargo_impact + tool_counts.spec_drift <= i,
        {
            let f = &findings[i];
            proof {
                lemma_counts_step(all, i as int);
                assert(all[i as int] == f@);
                law_tool_counts_bounded(all.take(i + 1));
            }
            match f.severity {
                Severity::Critical => counts.critical = counts.critical + 1,
                Severity::High => counts.high = counts.high + 1,
                Severity::Medium => counts.medium = counts.medium + 1,
                Severity::Low => counts.low = counts.low + 1,
            }
            count_tool(&mut tool_counts, &f.source_tool);
            copies.push(f.duplicate());
        }
        assert(all.take(findings@.len() as int) =~= all);
        assert(views(copies@) =~= views(findings@));
        AggregatedReport {
            tool: String::from_str(tool),
            version: String::from_str(VERSION),
            total_findings: findings.len(),
            by_severity: counts,
            by_tool: tool_counts,
            findings: copies,
        }
    }
}

} // verus!
