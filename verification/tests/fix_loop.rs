use cargo_vibe::orchestrator::{
    classify_diff, is_quit_reply, risk_check_of, diff_clips_cleanly, drift_divergence_count, fallback_context, DiffState, FixAction, FixEvent,
    FixSession, FixStage, FixVerdict, GateResult, Orchestrator, RiskCheck,
};

fn start(max: usize) -> FixSession {
    let (mut s, a) = FixSession::new(max);
    assert_eq!(a, FixAction::ProbeRiskGate);
    assert_eq!(s.step(FixEvent::GateProbed { available: true }), FixAction::BuildContext { attempt: 1 });
    s
}

fn through_to_verify(s: &mut FixSession, attempt: usize) {
    assert_eq!(s.step(FixEvent::ContextReady), FixAction::AwaitUser);
    assert_eq!(s.step(FixEvent::UserReplied { quit: false }), FixAction::InspectDiff);
    assert_eq!(s.step(FixEvent::DiffInspected { diff: DiffState::Changed }), FixAction::CheckRisk { attempt });
    assert_eq!(s.step(FixEvent::RiskChecked { result: RiskCheck::Passed }), FixAction::Verify);
}

#[test]
fn fix_fails_closed_without_diff_risk() {
    let (mut s, _) = FixSession::new(1);
    let a = s.step(FixEvent::GateProbed { available: false });
    assert_eq!(a, FixAction::Finish { verdict: FixVerdict::RiskGateMissing });
    assert!(FixVerdict::RiskGateMissing.gate_result().is_none());
    assert_eq!(s.stage(), FixStage::Done);
    assert_eq!(s.step(FixEvent::ContextReady), FixAction::Stopped);
    assert_eq!(s.pending(), FixAction::Stopped);
}

#[test]
fn fix_fails_closed_when_risk_gate_disappears() {
    let mut s = start(3);
    assert_eq!(s.step(FixEvent::ContextReady), FixAction::AwaitUser);
    assert_eq!(s.step(FixEvent::UserReplied { quit: false }), FixAction::InspectDiff);
    assert_eq!(s.step(FixEvent::DiffInspected { diff: DiffState::Changed }), FixAction::CheckRisk { attempt: 1 });
    assert_eq!(
        s.step(FixEvent::RiskChecked { result: RiskCheck::Unavailable }),
        FixAction::Finish { verdict: FixVerdict::RiskGateMissing }
    );
}

#[test]
fn clean_attempt_passes() {
    let mut s = start(3);
    through_to_verify(&mut s, 1);
    let a = s.step(FixEvent::Verified { impact_ok: true, drift_ok: true });
    assert_eq!(a, FixAction::Finish { verdict: FixVerdict::Passed });
    assert!(matches!(FixVerdict::Passed.gate_result(), Some(GateResult::Passed)));
}

#[test]
fn failed_verification_retries_then_times_out() {
    let mut s = start(2);
    through_to_verify(&mut s, 1);
    assert_eq!(s.step(FixEvent::Verified { impact_ok: false, drift_ok: true }), FixAction::BuildContext { attempt: 2 });
    through_to_verify(&mut s, 2);
    let a = s.step(FixEvent::Verified { impact_ok: true, drift_ok: false });
    assert_eq!(a, FixAction::Finish { verdict: FixVerdict::TimedOut { attempts: 2 } });
    match (FixVerdict::TimedOut { attempts: 2 }).gate_result() {
        Some(GateResult::TimedOut { attempts }) => assert_eq!(attempts, 2),
        _ => panic!("expected a timeout"),
    }
}

#[test]
fn risk_veto_on_last_attempt_fails() {
    let mut s = start(1);
    assert_eq!(s.step(FixEvent::ContextReady), FixAction::AwaitUser);
    assert_eq!(s.step(FixEvent::UserReplied { quit: false }), FixAction::InspectDiff);
    assert_eq!(s.step(FixEvent::DiffInspected { diff: DiffState::Changed }), FixAction::CheckRisk { attempt: 1 });
    let a = s.step(FixEvent::RiskChecked { result: RiskCheck::Exceeded });
    assert_eq!(a, FixAction::Finish { verdict: FixVerdict::RiskExceeded });
    match FixVerdict::RiskExceeded.gate_result() {
        Some(GateResult::Failed { reason }) => assert_eq!(reason, "risk threshold exceeded after all attempts"),
        _ => panic!("expected a failure"),
    }
}

#[test]
fn risk_veto_retries_while_attempts_remain() {
    let mut s = start(2);
    assert_eq!(s.step(FixEvent::ContextReady), FixAction::AwaitUser);
    assert_eq!(s.step(FixEvent::UserReplied { quit: false }), FixAction::InspectDiff);
    assert_eq!(s.step(FixEvent::DiffInspected { diff: DiffState::Changed }), FixAction::CheckRisk { attempt: 1 });
    assert_eq!(s.step(FixEvent::RiskChecked { result: RiskCheck::Exceeded }), FixAction::BuildContext { attempt: 2 });
}

#[test]
fn unchanged_tree_skips_the_risk_check() {
    let mut s = start(1);
    assert_eq!(s.step(FixEvent::ContextReady), FixAction::AwaitUser);
    assert_eq!(s.step(FixEvent::UserReplied { quit: false }), FixAction::InspectDiff);
    assert_eq!(s.step(FixEvent::DiffInspected { diff: DiffState::Empty }), FixAction::Verify);
}

#[test]
fn user_can_quit() {
    let mut s = start(3);
    assert_eq!(s.step(FixEvent::ContextReady), FixAction::AwaitUser);
    assert_eq!(s.step(FixEvent::UserReplied { quit: true }), FixAction::Finish { verdict: FixVerdict::UserQuit });
    match FixVerdict::UserQuit.gate_result() {
        Some(GateResult::Failed { reason }) => assert_eq!(reason, "user quit"),
        _ => panic!("expected a failure"),
    }
}

#[test]
fn zero_attempts_time_out_at_once() {
    let (mut s, _) = FixSession::new(0);
    assert_eq!(
        s.step(FixEvent::GateProbed { available: true }),
        FixAction::Finish { verdict: FixVerdict::TimedOut { attempts: 0 } }
    );
}

#[test]
fn unexpected_event_repeats_the_pending_action() {
    let mut s = start(2);
    assert_eq!(s.step(FixEvent::Verified { impact_ok: true, drift_ok: true }), FixAction::BuildContext { attempt: 1 });
    assert_eq!(s.stage(), FixStage::BuildingContext);
    assert_eq!(s.pending(), FixAction::BuildContext { attempt: 1 });
}

#[test]
fn gate_results_map_to_exit_codes() {
    assert_eq!(GateResult::Passed.exit_code(), 0);
    assert_eq!(GateResult::Failed { reason: "user quit".to_string() }.exit_code(), 1);
    assert_eq!(GateResult::TimedOut { attempts: 3 }.exit_code(), 1);
}

#[test]
fn fallback_context_sections() {
    let ctx = fallback_context(Some("+ added line\n"), "Refactor the auth module");
    assert_eq!(
        ctx,
        "# Project Context\n\n## Recent Changes\n\n```diff\n+ added line\n\n```\n\n## Instructions\n\nRefactor the auth module"
    );
    let ctx = fallback_context(Some("  \n"), "p");
    assert_eq!(ctx, "# Project Context\n\n## Instructions\n\np");
    let ctx = fallback_context(None, "p");
    assert_eq!(ctx, "# Project Context\n\n## Instructions\n\np");
}

#[test]
fn long_diff_is_cut_at_its_byte_budget() {
    let diff = "a".repeat(5000);
    assert!(diff_clips_cleanly(&diff));
    let ctx = fallback_context(Some(&diff), "p");
    let expected = format!(
        "# Project Context\n\n## Recent Changes\n\n```diff\n{}...\n(truncated)\n```\n\n## Instructions\n\np",
        "a".repeat(4000)
    );
    assert_eq!(ctx, expected);
    let exact = "b".repeat(4000);
    assert!(fallback_context(Some(&exact), "p").contains(&exact));
    assert!(!fallback_context(Some(&exact), "p").contains("(truncated)"));
}

#[test]
fn cut_inside_a_character_is_detected() {
    assert!(!diff_clips_cleanly(&"\u{20AC}".repeat(2000)));
    assert!(diff_clips_cleanly(&"\u{00E9}".repeat(2500)));
    assert!(diff_clips_cleanly("short"));
}

#[test]
fn blank_diff_over_the_budget_is_never_cut() {
    let blank = "\u{3000}".repeat(1334);
    assert_eq!(blank.len(), 4002);
    assert!(!diff_clips_cleanly(&blank));
    assert_eq!(fallback_context(Some(&blank), "p"), "# Project Context\n\n## Instructions\n\np");
}

#[test]
fn drift_divergences_are_counted_by_rule_keys() {
    assert_eq!(drift_divergence_count("[{\"rule\":\"a\"},{\"rule\":\"b\"}]"), 2);
    assert_eq!(drift_divergence_count("[]"), 0);
    assert_eq!(drift_divergence_count("\"rule\"rule\""), 1);
}

#[test]
fn orchestrator_keeps_its_root_and_tools() {
    let o = Orchestrator::new("/work/project");
    assert_eq!(o.root(), "/work/project");
    assert_eq!(o.tool_names(), vec!["diff-risk", "cargo-impact", "spec-drift", "cargo-context"]);
}

#[test]
fn diffs_are_classified() {
    assert_eq!(classify_diff(None), DiffState::Unavailable);
    assert_eq!(classify_diff(Some("")), DiffState::Empty);
    assert_eq!(classify_diff(Some(" \n\t")), DiffState::Empty);
    assert_eq!(classify_diff(Some("+x\n")), DiffState::Changed);
}

#[test]
fn risk_gate_verdicts() {
    assert_eq!(risk_check_of(None), RiskCheck::Unavailable);
    assert_eq!(risk_check_of(Some(true)), RiskCheck::Passed);
    assert_eq!(risk_check_of(Some(false)), RiskCheck::Exceeded);
}

#[test]
fn quit_replies() {
    assert!(is_quit_reply("q\n"));
    assert!(is_quit_reply("  q "));
    assert!(!is_quit_reply("\n"));
    assert!(!is_quit_reply("quit\n"));
    assert!(!is_quit_reply("Q"));
}

#[test]
fn session_ends_within_its_step_bound() {
    let max = 2;
    let (mut s, mut action) = FixSession::new(max);
    let mut answered = 0;
    loop {
        let event = match action {
            FixAction::ProbeRiskGate => FixEvent::GateProbed { available: true },
            FixAction::BuildContext { .. } => FixEvent::ContextReady,
            FixAction::AwaitUser => FixEvent::UserReplied { quit: false },
            FixAction::InspectDiff => FixEvent::DiffInspected { diff: DiffState::Changed },
            FixAction::CheckRisk { .. } => FixEvent::RiskChecked { result: RiskCheck::Passed },
            FixAction::Verify => FixEvent::Verified { impact_ok: false, drift_ok: false },
            FixAction::Finish { .. } | FixAction::Stopped => break,
        };
        action = s.step(event);
        answered += 1;
    }
    assert_eq!(action, FixAction::Finish { verdict: FixVerdict::TimedOut { attempts: 2 } });
    assert!(answered <= 6 * max + 7);
    assert_eq!(answered, 11);
}
