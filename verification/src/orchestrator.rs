//! The guided fix loop: context -> LLM (the user) -> risk check -> impact verify ->
//! drift check, retried up to a number of attempts.
//!
//! The loop's decisions are a state machine: the caller performs each `FixAction`
//! (running a tool, asking the user) and feeds back what happened as a `FixEvent`.
use vstd::prelude::*;
use vstd::utf8::{decode_utf8, encode_scalar, encode_utf8, encode_utf8_decode_utf8, is_char_boundary};
use crate::text::{chars_of, count_matches, count_matches_in, trim, trim_in};

verus! {

/// Result of a fix loop run.
pub enum GateResult {
    Passed,
    Failed { reason: String },
    TimedOut { attempts: usize },
}

/// Orchestrator for running all checks in sequence.
pub struct Orchestrator {
    root: String,
}

/// The companion tools, in the order the orchestrator probes them.
pub open spec fn companion_tools() -> Seq<Seq<char>> {
    seq!["diff-risk"@, "cargo-impact"@, "spec-drift"@, "cargo-context"@]
}

impl Orchestrator {
    pub closed spec fn root_path(&self) -> Seq<char> {
        self.root@
    }

    /// An orchestrator for the project at `root`.
    pub fn new(root: &str) -> (res: Self)
        ensures
            res.root_path() == root@,
    {
        Orchestrator { root: String::from_str(root) }
    }

    /// The project root this orchestrator works on.
    pub fn root(&self) -> (res: &str)
        ensures
            res@ == self.root_path(),
    {
        self.root.as_str()
    }

    /// The tools whose availability the orchestrator checks, in order.
    pub fn tool_names(&self) -> (res: Vec<&'static str>)
        ensures
            res@.map_values(|s: &str| s@) == companion_tools(),
    {
        let v = vec!["diff-risk", "cargo-impact", "spec-drift", "cargo-context"];
        assert(v@.map_values(|s: &str| s@) =~= companion_tools());
        v
    }
}

// ---- the fix loop as a state machine ----
/// Where a fix session stands.
#[derive(Clone, Copy, Debug, PartialEq, Eq, Structural)]
pub enum FixStage {
    ProbingGate,
    BuildingContext,
    AwaitingUser,
    InspectingDiff,
    CheckingRisk,
    Verifying,
    Done,
}

/// What the working tree holds relative to the base ref.
#[derive(Clone, Copy, Debug, PartialEq, Eq, Structural)]
pub enum DiffState {
    /// No diff could be computed (not a git repository, say).
    Unavailable,
    /// The diff is blank.
    Empty,
    Changed,
}

/// Outcome of running `diff-risk` on the diff.
#[derive(Clone, Copy, Debug, PartialEq, Eq, Structural)]
pub enum RiskCheck {
    Passed,
    /// The risk score reached the threshold.
    Exceeded,
    /// The diff could not be handed to the tool, so no verdict was made.
    Skipped,
    /// `diff-risk` could not be run.
    Unavailable,
}

/// What happened when the caller performed the last action.
#[derive(Clone, Copy, Debug, PartialEq, Eq, Structural)]
pub enum FixEvent {
    GateProbed { available: bool },
    ContextReady,
    UserReplied { quit: bool },
    DiffInspected { diff: DiffState },
    RiskChecked { result: RiskCheck },
    Verified { impact_ok: bool, drift_ok: bool },
}

/// How a fix session ended.
#[derive(Clone, Copy, Debug, PartialEq, Eq, Structural)]
pub enum FixVerdict {
    Passed,
    UserQuit,
    RiskExceeded,
    TimedOut { attempts: usize },
    /// `diff-risk` is required and could not be run: the loop fails closed.
    RiskGateMissing,
}

/// What the caller has to do next.
#[derive(Clone, Copy, Debug, PartialEq, Eq, Structural)]
pub enum FixAction {
    ProbeRiskGate,
    BuildContext { attempt: usize },
    AwaitUser,
    InspectDiff,
    CheckRisk { attempt: usize },
    Verify,
    Finish { verdict: FixVerdict },
    /// The session is over; nothing is left to do.
    Stopped,
}

/// Where a guided fix loop stands, as its transition function sees it.
#[derive(Clone, Copy, Debug, PartialEq, Eq, Structural)]
pub struct FixState {
    pub max_attempts: usize,
    /// The current attempt, counted from 1.
    pub attempt: usize,
    pub stage: FixStage,
}

impl FixState {
    /// Inside an attempt, the attempt number lies in `1..=max_attempts`.
    pub open spec fn wf(self) -> bool {
        self.stage != FixStage::ProbingGate && self.stage != FixStage::Done ==> 1 <= self.attempt
            <= self.max_attempts
    }
}

/// The action a session in state `s` waits to see performed.
pub open spec fn pending_action(s: FixState) -> FixAction {
    match s.stage {
        FixStage::ProbingGate => FixAction::ProbeRiskGate,
        FixStage::BuildingContext => FixAction::BuildContext { attempt: s.attempt },
        FixStage::AwaitingUser => FixAction::AwaitUser,
        FixStage::InspectingDiff => FixAction::InspectDiff,
        FixStage::CheckingRisk => FixAction::CheckRisk { attempt: s.attempt },
        FixStage::Verifying => FixAction::Verify,
        FixStage::Done => FixAction::Stopped,
    }
}

/// Whether `e` reports on the action that `s` waits for.
pub open spec fn accepts(s: FixState, e: FixEvent) -> bool {
    match (s.stage, e) {
        (FixStage::ProbingGate, FixEvent::GateProbed { .. }) => true,
        (FixStage::BuildingContext, FixEvent::ContextReady) => true,
        (FixStage::AwaitingUser, FixEvent::UserReplied { .. }) => true,
        (FixStage::InspectingDiff, FixEvent::DiffInspected { .. }) => true,
        (FixStage::CheckingRisk, FixEvent::RiskChecked { .. }) => true,
        (FixStage::Verifying, FixEvent::Verified { .. }) => true,
        _ => false,
    }
}

pub open spec fn at(s: FixState, attempt: usize, stage: FixStage) -> FixState {
    FixState { max_attempts: s.max_attempts, attempt, stage }
}

pub open spec fn finish(s: FixState, v: FixVerdict) -> (FixState, FixAction) {
    (at(s, s.attempt, FixStage::Done), FixAction::Finish { verdict: v })
}

/// After a failed attempt: start the next one, or end with `last` when none is left.
pub open spec fn retry_or(s: FixState, last: FixVerdict) -> (FixState, FixAction) {
    if s.attempt < s.max_attempts {
        (
            at(s, (s.attempt + 1) as usize, FixStage::BuildingContext),
            FixAction::BuildContext { attempt: (s.attempt + 1) as usize },
        )
    } else {
        finish(s, last)
    }
}

/// The transition of the fix loop: the next state and the action to perform.
/// An event that does not answer the pending action leaves the state as it is.
pub open spec fn fix_next(s: FixState, e: FixEvent) -> (FixState, FixAction) {
    match (s.stage, e) {
        (FixStage::ProbingGate, FixEvent::GateProbed { available }) => if !available {
            finish(s, FixVerdict::RiskGateMissing)
        } else if s.max_attempts == 0 {
            finish(s, FixVerdict::TimedOut { attempts: 0 })
        } else {
            (at(s, 1, FixStage::BuildingContext), FixAction::BuildContext { attempt: 1 })
        },
        (FixStage::BuildingContext, FixEvent::ContextReady) => (
            at(s, s.attempt, FixStage::AwaitingUser),
            FixAction::AwaitUser,
        ),
        (FixStage::AwaitingUser, FixEvent::UserReplied { quit }) => if quit {
            finish(s, FixVerdict::UserQuit)
        } else {
            (at(s, s.attempt, FixStage::InspectingDiff), FixAction::InspectDiff)
        },
        (FixStage::InspectingDiff, FixEvent::DiffInspected { diff }) => if diff
            == DiffState::Changed {
            (at(s, s.attempt, FixStage::CheckingRisk), FixAction::CheckRisk { attempt: s.attempt })
        } else {
            (at(s, s.attempt, FixStage::Verifying), FixAction::Verify)
        },
        (FixStage::CheckingRisk, FixEvent::RiskChecked { result }) => match result {
            RiskCheck::Passed => (at(s, s.attempt, FixStage::Verifying), FixAction::Verify),
            RiskCheck::Skipped => (at(s, s.attempt, FixStage::Verifying), FixAction::Verify),
            RiskCheck::Unavailable => finish(s, FixVerdict::RiskGateMissing),
            RiskCheck::Exceeded => retry_or(s, FixVerdict::RiskExceeded),
        },
        (FixStage::Verifying, FixEvent::Verified { impact_ok, drift_ok }) => if impact_ok
            && drift_ok {
            finish(s, FixVerdict::Passed)
        } else {
            retry_or(s, FixVerdict::TimedOut { attempts: s.max_attempts })
        },
        _ => (s, pending_action(s)),
    }
}

pub open spec fn stage_rank(st: FixStage) -> nat {
    match st {
        FixStage::BuildingContext => 1,
        FixStage::AwaitingUser => 2,
        FixStage::InspectingDiff => 3,
        FixStage::CheckingRisk => 4,
        FixStage::Verifying => 5,
        _ => 0,
    }
}

/// Work left in a session: it falls with every answered action and is 0 once done.
pub open spec fn remaining_work(s: FixState) -> nat {
    match s.stage {
        FixStage::Done => 0,
        FixStage::ProbingGate => (6 * s.max_attempts + 7) as nat,
        _ => (6 * (s.max_attempts - s.attempt) + 6 - stage_rank(s.stage)) as nat,
    }
}

impl FixState {
    /// The next state and action after `e`.
    pub fn next(self, e: FixEvent) -> (res: (FixState, FixAction))
        requires
            self.wf(),
        ensures
            res == fix_next(self, e),
    {
        let s = self;
        match (s.stage, e) {
            (FixStage::ProbingGate, FixEvent::GateProbed { available }) => if !available {
                (FixState { stage: FixStage::Done, ..s }, FixAction::Finish { verdict: FixVerdict::RiskGateMissing })
            } else if s.max_attempts == 0 {
                (
                    FixState { stage: FixStage::Done, ..s },
                    FixAction::Finish { verdict: FixVerdict::TimedOut { attempts: 0 } },
                )
            } else {
                (
                    FixState { attempt: 1, stage: FixStage::BuildingContext, ..s },
                    FixAction::BuildContext { attempt: 1 },
                )
            },
            (FixStage::BuildingContext, FixEvent::ContextReady) => (
                FixState { stage: FixStage::AwaitingUser, ..s },
                FixAction::AwaitUser,
            ),
            (FixStage::AwaitingUser, FixEvent::UserReplied { quit }) => if quit {
                (FixState { stage: FixStage::Done, ..s }, FixAction::Finish { verdict: FixVerdict::UserQuit })
            } else {
                (FixState { stage: FixStage::InspectingDiff, ..s }, FixAction::InspectDiff)
            },
            (FixStage::InspectingDiff, FixEvent::DiffInspected { diff }) => match diff {
                DiffState::Changed => (
                    FixState { stage: FixStage::CheckingRisk, ..s },
                    FixAction::CheckRisk { attempt: s.attempt },
                ),
                _ => (FixState { stage: FixStage::Verifying, ..s }, FixAction::Verify),
            },
            (FixStage::CheckingRisk, FixEvent::RiskChecked { result }) => match result {
                RiskCheck::Passed => (FixState { stage: FixStage::Verifying, ..s }, FixAction::Verify),
                RiskCheck::Skipped => (FixState { stage: FixStage::Verifying, ..s }, FixAction::Verify),
                RiskCheck::Unavailable => (
                    FixState { stage: FixStage::Done, ..s },
                    FixAction::Finish { verdict: FixVerdict::RiskGateMissing },
                ),
                RiskCheck::Exceeded => Self::retry_or_exec(s, FixVerdict::RiskExceeded),
            },
            (FixStage::Verifying, FixEvent::Verified { impact_ok, drift_ok }) => if impact_ok
                && drift_ok {
                (FixState { stage: FixStage::Done, ..s }, FixAction::Finish { verdict: FixVerdict::Passed })
            } else {
                Self::retry_or_exec(s, FixVerdict::TimedOut { attempts: s.max_attempts })
            },
            _ => (s, s.pending()),
        }
    }

    fn retry_or_exec(s: FixState, last: FixVerdict) -> (res: (FixState, FixAction))
        requires
            s.wf(),
            s.stage != FixStage::ProbingGate && s.stage != FixStage::Done,
        ensures
            res == retry_or(s, last),
    {
        if s.attempt < s.max_attempts {
            (
                FixState { attempt: s.attempt + 1, stage: FixStage::BuildingContext, ..s },
                FixAction::BuildContext { attempt: s.attempt + 1 },
            )
        } else {
            (FixState { stage: FixStage::Done, ..s }, FixAction::Finish { verdict: last })
        }
    }

    /// The action a loop in this state waits to see performed.
    fn pending(&self) -> (res: FixAction)
        ensures
            res == pending_action(*self),
    {
        match self.stage {
            FixStage::ProbingGate => FixAction::ProbeRiskGate,
            FixStage::BuildingContext => FixAction::BuildContext { attempt: self.attempt },
            FixStage::AwaitingUser => FixAction::AwaitUser,
            FixStage::InspectingDiff => FixAction::InspectDiff,
            FixStage::CheckingRisk => FixAction::CheckRisk { attempt: self.attempt },
            FixStage::Verifying => FixAction::Verify,
            FixStage::Done => FixAction::Stopped,
        }
    }
}

/// How the working tree stands: no diff, a blank one, or a change.
pub open spec fn diff_state_of(diff: Option<Seq<char>>) -> DiffState {
    match diff {
        None => DiffState::Unavailable,
        Some(d) => if trim(d).len() == 0 {
            DiffState::Empty
        } else {
            DiffState::Changed
        },
    }
}

pub fn classify_diff(diff: Option<&str>) -> (res: DiffState)
    ensures
        res == diff_state_of(
            match diff {
                Some(d) => Some(d@),
                None => None,
            },
        ),
{
    match diff {
        None => DiffState::Unavailable,
        Some(d) => {
            let cs = chars_of(d);
            let (a, b) = trim_in(&cs, 0, cs.len());
            assert(cs@.subrange(0, cs@.len() as int) =~= d@);
            if a == b {
                DiffState::Empty
            } else {
                DiffState::Changed
            }
        },
    }
}

/// The risk gate's verdict from the exit status of `diff-risk` (`None` when it could
/// not be run).
pub fn risk_check_of(status: Option<bool>) -> (res: RiskCheck)
    ensures
        res == (match status {
            None => RiskCheck::Unavailable,
            Some(true) => RiskCheck::Passed,
            Some(false) => RiskCheck::Exceeded,
        }),
{
    match status {
        None => RiskCheck::Unavailable,
        Some(true) => RiskCheck::Passed,
        Some(false) => RiskCheck::Exceeded,
    }
}

/// Whether the user's reply to the prompt asks to quit: `q`, surrounding whitespace
/// aside.
pub fn is_quit_reply(reply: &str) -> (res: bool)
    ensures
        res == (trim(reply@) == seq!['q']),
{
    let cs = chars_of(reply);
    let (a, b) = trim_in(&cs, 0, cs.len());
    assert(cs@.subrange(0, cs@.len() as int) =~= reply@);
    if b - a == 1 && cs[a] == 'q' {
        assert(cs@.subrange(a as int, b as int) =~= seq!['q']);
        true
    } else {
        proof {
            let q = seq!['q'];
            assert(q.len() == 1 && q[0] == 'q');
            if b - a == 1 {
                assert(cs@.subrange(a as int, b as int)[0] == cs@[a as int]);
            }
        }
        false
    }
}

impl FixVerdict {
    /// The fix loop's result for this verdict; `None` when the loop could not run at all
    /// (a tool error rather than a failed gate).
    pub fn gate_result(&self) -> (res: Option<GateResult>)
        ensures
            match *self {
                FixVerdict::Passed => res matches Some(GateResult::Passed),
                FixVerdict::UserQuit => res matches Some(GateResult::Failed { reason }) && reason@
                    == "user quit"@,
                FixVerdict::RiskExceeded => res matches Some(GateResult::Failed { reason })
                    && reason@ == "risk threshold exceeded after all attempts"@,
                FixVerdict::TimedOut { attempts } => res matches Some(
                    GateResult::TimedOut { attempts: n },
                ) && n == attempts,
                FixVerdict::RiskGateMissing => res is None,
            },
    {
        match self {
            FixVerdict::Passed => Some(GateResult::Passed),
            FixVerdict::UserQuit => Some(GateResult::Failed { reason: String::from_str("user quit") }),
            FixVerdict::RiskExceeded => Some(
                GateResult::Failed {
                    reason: String::from_str("risk threshold exceeded after all attempts"),
                },
            ),
            FixVerdict::TimedOut { attempts } => Some(GateResult::TimedOut { attempts: *attempts }),
            FixVerdict::RiskGateMissing => None,
        }
    }
}

impl GateResult {
    /// Process exit code for a fix loop result: 0 when it passed, 1 otherwise.
    pub fn exit_code(&self) -> (res: u8)
        ensures
            res == (if *self is Passed {
                0u8
            } else {
                1u8
            }),
    {
        match self {
            GateResult::Passed => 0,
            _ => 1,
        }
    }
}


/// A guided fix loop in progress. Its attempt number always lies within the attempts
/// allowed (see `FixState::wf`).
pub struct FixSession {
    state: FixState,
}

impl View for FixSession {
    type V = FixState;

    closed spec fn view(&self) -> FixState {
        self.state
    }
}

impl FixSession {
    #[verifier::type_invariant]
    spec fn inv(self) -> bool {
        self.state.wf()
    }

    /// A session of at most `max_attempts` attempts; its first action is to make sure
    /// the risk gate can run.
    pub fn new(max_attempts: usize) -> (res: (FixSession, FixAction))
        ensures
            res.0@ == (FixState { max_attempts, attempt: 0, stage: FixStage::ProbingGate }),
            res.1 == FixAction::ProbeRiskGate,
            res.0@.wf(),
    {
        (
            FixSession { state: FixState { max_attempts, attempt: 0, stage: FixStage::ProbingGate } },
            FixAction::ProbeRiskGate,
        )
    }

    /// Advances the session with what happened, returning the next action.
    pub fn step(&mut self, e: FixEvent) -> (res: FixAction)
        ensures
            (final(self)@, res) == fix_next(old(self)@, e),
            final(self)@.wf(),
    {
        proof {
            use_type_invariant(&*self);
            law_step_keeps_wf(self.state, e);
        }
        let (n, a) = self.state.next(e);
        self.state = n;
        a
    }

    /// Where the session stands.
    pub fn stage(&self) -> (res: FixStage)
        ensures
            res == self@.stage,
    {
        self.state.stage
    }

    /// The action this session waits to see performed.
    pub fn pending(&self) -> (res: FixAction)
        ensures
            res == pending_action(self@),
    {
        self.state.pending()
    }
}

// ---- laws of the fix loop ----
/// Every step keeps the session well formed; in particular the attempt number never
/// exceeds the number of attempts allowed.
pub proof fn law_step_keeps_wf(s: FixState, e: FixEvent)
    requires
        s.wf(),
    ensures
        fix_next(s, e).0.wf(),
        fix_next(s, e).0.max_attempts == s.max_attempts,
{
}

/// Each answered action brings the session strictly closer to its end, and an
/// unanswered one changes nothing: a session ends after at most
/// `6 * max_attempts + 7` answered actions.
pub proof fn law_step_progress(s: FixState, e: FixEvent)
    requires
        s.wf(),
    ensures
        s.stage != FixStage::Done && accepts(s, e) ==> remaining_work(fix_next(s, e).0)
            < remaining_work(s),
        !accepts(s, e) ==> fix_next(s, e) == (s, pending_action(s)),
        remaining_work(s) == 0 <==> s.stage == FixStage::Done,
{
}

/// The state a session reaches from `s` through the events `es`, in order.
pub open spec fn run_events(s: FixState, es: Seq<FixEvent>) -> FixState
    decreases es.len(),
{
    if es.len() == 0 {
        s
    } else {
        run_events(fix_next(s, es[0]).0, es.drop_first())
    }
}

/// Whether each event of `es` answers the action pending in a session that is not
/// over yet.
pub open spec fn answers_each(s: FixState, es: Seq<FixEvent>) -> bool
    decreases es.len(),
{
    es.len() == 0 || (s.stage != FixStage::Done && accepts(s, es[0]) && answers_each(
        fix_next(s, es[0]).0,
        es.drop_first(),
    ))
}

/// A session answers at most `remaining_work` actions before it ends; a new one at
/// most `6 * max_attempts + 7`.
pub proof fn law_session_ends_within_bound(s: FixState, es: Seq<FixEvent>)
    requires
        s.wf(),
        answers_each(s, es),
    ensures
        es.len() + remaining_work(run_events(s, es)) <= remaining_work(s),
        s.stage == FixStage::ProbingGate ==> es.len() <= 6 * s.max_attempts + 7,
    decreases es.len(),
{
    if es.len() > 0 {
        law_step_progress(s, es[0]);
        law_step_keeps_wf(s, es[0]);
        law_session_ends_within_bound(fix_next(s, es[0]).0, es.drop_first());
    }
}

/// Within an attempt the loop runs its pipeline in order — context, the user's edit,
/// the diff, the risk gate (for a changed tree), verification — and a new attempt,
/// numbered one higher, starts only after a vetoed or failed one.
pub proof fn law_attempt_follows_pipeline(s: FixState, e: FixEvent)
    requires
        s.wf(),
        accepts(s, e),
    ensures
        ({
            let n = fix_next(s, e).0;
            n.stage == FixStage::Done || match s.stage {
                FixStage::ProbingGate => n.stage == FixStage::BuildingContext && n.attempt == 1,
                FixStage::BuildingContext => n.stage == FixStage::AwaitingUser && n.attempt
                    == s.attempt,
                FixStage::AwaitingUser => n.stage == FixStage::InspectingDiff && n.attempt
                    == s.attempt,
                FixStage::InspectingDiff => (n.stage == FixStage::CheckingRisk || n.stage
                    == FixStage::Verifying) && n.attempt == s.attempt,
                FixStage::CheckingRisk => (n.stage == FixStage::Verifying && n.attempt
                    == s.attempt) || (n.stage == FixStage::BuildingContext && n.attempt == s.attempt
                    + 1),
                FixStage::Verifying => n.stage == FixStage::BuildingContext && n.attempt
                    == s.attempt + 1,
                FixStage::Done => false,
            }
        }),
{
}

/// The loop passes only when impact and drift verification both came back clean.
pub proof fn law_pass_needs_clean_verify(s: FixState, e: FixEvent)
    ensures
        fix_next(s, e).1 == (FixAction::Finish { verdict: FixVerdict::Passed }) ==> s.stage
            == FixStage::Verifying && e == (FixEvent::Verified { impact_ok: true, drift_ok: true }),
{
}

/// A changed diff reaches verification only after the risk gate let it through.
pub proof fn law_changed_diff_is_risk_checked(s: FixState, e: FixEvent)
    ensures
        fix_next(s, e).1 == FixAction::Verify && s.stage != FixStage::Verifying ==> {
            ||| (s.stage == FixStage::InspectingDiff && e != (FixEvent::DiffInspected {
                diff: DiffState::Changed,
            }))
            ||| (s.stage == FixStage::CheckingRisk && (e == (FixEvent::RiskChecked {
                result: RiskCheck::Passed,
            }) || e == (FixEvent::RiskChecked { result: RiskCheck::Skipped })))
        },
{
}

/// A diff that did not change the tree (blank, or none could be computed) skips the
/// risk gate: the same attempt goes on to verification.
pub proof fn law_unchanged_diff_goes_to_verification(s: FixState, diff: DiffState)
    requires
        s.stage == FixStage::InspectingDiff,
        diff != DiffState::Changed,
    ensures
        fix_next(s, FixEvent::DiffInspected { diff }) == (
            FixState { max_attempts: s.max_attempts, attempt: s.attempt, stage: FixStage::Verifying },
            FixAction::Verify,
        ),
{
}

/// The loop ends with a verdict only on the event that calls for it: too risky only
/// after `diff-risk` found the threshold exceeded, quit only when the user asked to.
pub proof fn law_verdicts_follow_their_events(s: FixState, e: FixEvent)
    ensures
        fix_next(s, e).1 == (FixAction::Finish { verdict: FixVerdict::RiskExceeded }) ==> s.stage
            == FixStage::CheckingRisk && e == (FixEvent::RiskChecked { result: RiskCheck::Exceeded }),
        fix_next(s, e).1 == (FixAction::Finish { verdict: FixVerdict::UserQuit }) ==> s.stage
            == FixStage::AwaitingUser && e == (FixEvent::UserReplied { quit: true }),
{
}

/// The loop fails closed: it ends for want of `diff-risk` exactly when the tool was
/// found missing, up front or at a risk check.
pub proof fn law_fail_closed(s: FixState, e: FixEvent)
    ensures
        fix_next(s, e).1 == (FixAction::Finish { verdict: FixVerdict::RiskGateMissing }) <==> (
        s.stage == FixStage::ProbingGate && e == (FixEvent::GateProbed { available: false })) || (
        s.stage == FixStage::CheckingRisk && e == (FixEvent::RiskChecked {
            result: RiskCheck::Unavailable,
        })),
{
}

/// A session that runs out of attempts reports all of them.
pub proof fn law_timeout_reports_all_attempts(s: FixState, e: FixEvent, n: usize)
    ensures
        fix_next(s, e).1 == (FixAction::Finish { verdict: FixVerdict::TimedOut { attempts: n } })
            ==> n == s.max_attempts,
{
}

// ---- the fallback context pack ----
/// How many bytes of the diff a fallback context pack keeps.
pub open spec fn diff_budget() -> nat {
    4000
}

/// The diff as a context pack shows it: cut after its first 4000 bytes when longer.
pub open spec fn clipped_diff(d: Seq<char>) -> Seq<char> {
    if encode_utf8(d).len() > diff_budget() {
        decode_utf8(encode_utf8(d).take(diff_budget() as int)) + "...\n(truncated)"@
    } else {
        d
    }
}

/// Whether the diff can be cut at its byte budget without splitting a character
/// (cutting elsewhere would panic).
pub open spec fn clip_fits(d: Seq<char>) -> bool {
    encode_utf8(d).len() <= diff_budget() || is_char_boundary(
        encode_utf8(d),
        diff_budget() as int,
    )
}

/// The minimal context pack assembled when `cargo-context` is not at hand.
pub open spec fn fallback_context_text(diff: Option<Seq<char>>, prompt: Seq<char>) -> Seq<char> {
    let changes = match diff {
        Some(d) => if trim(d).len() > 0 {
            "## Recent Changes\n\n```diff\n"@ + clipped_diff(d) + "\n```\n\n"@
        } else {
            Seq::empty()
        },
        None => Seq::empty(),
    };
    "# Project Context\n\n"@ + changes + "## Instructions\n\n"@ + prompt
}

proof fn lemma_encode_concat(a: Seq<char>, b: Seq<char>)
    ensures
        encode_utf8(a + b) == encode_utf8(a) + encode_utf8(b),
    decreases a.len(),
{
    if a.len() == 0 {
        assert(a + b =~= b);
        assert(encode_utf8(a) + encode_utf8(b) =~= encode_utf8(b));
    } else {
        lemma_encode_concat(a.drop_first(), b);
        assert((a + b).drop_first() =~= a.drop_first() + b);
        assert((a + b)[0] == a[0]);
        assert(encode_utf8(a + b) =~= encode_scalar(a[0] as u32) + encode_utf8(a.drop_first() + b));
    }
}

proof fn lemma_encode_step(s: Seq<char>, i: int)
    requires
        0 <= i < s.len(),
    ensures
        encode_utf8(s.take(i + 1)).len() == encode_utf8(s.take(i)).len() + encode_scalar(
            s[i] as u32,
        ).len(),
{
    assert(s.take(i + 1) =~= s.take(i) + seq![s[i]]);
    lemma_encode_concat(s.take(i), seq![s[i]]);
    let one = seq![s[i]];
    assert(one[0] == s[i]);
    assert(one.drop_first() =~= Seq::<char>::empty());
    assert(encode_utf8(one.drop_first()) =~= Seq::<u8>::empty());
    assert(encode_utf8(one) == encode_scalar(one[0] as u32) + encode_utf8(one.drop_first()));
    assert(encode_utf8(one) =~= encode_scalar(s[i] as u32));
}

proof fn lemma_encode_prefix(s: Seq<char>, i: int)
    requires
        0 <= i <= s.len(),
    ensures
        encode_utf8(s.take(i)).len() <= encode_utf8(s).len(),
{
    assert(s =~= s.take(i) + s.skip(i));
    lemma_encode_concat(s.take(i), s.skip(i));
}

fn char_utf8_width(c: char) -> (res: usize)
    ensures
        res == encode_scalar(c as u32).len(),
        res <= 4,
{
    let v = c as u32;
    if v <= 0x7F {
        1
    } else if v <= 0x7FF {
        2
    } else if v <= 0xFFFF {
        3
    } else {
        4
    }
}

/// Whether the UTF-8 encoding of `cs` is longer than `limit` bytes.
fn utf8_longer_than(cs: &Vec<char>, limit: usize) -> (res: bool)
    requires
        limit <= 0x1000_0000,
    ensures
        res == (encode_utf8(cs@).len() > limit),
{
    let mut total: usize = 0;
    let mut i: usize = 0;
    assert(cs@.take(0) =~= Seq::<char>::empty());
    while i < cs.len()
        invariant
            limit <= 0x1000_0000,
            i <= cs@.len(),
            total == encode_utf8(cs@.take(i as int)).len(),
            total <= limit,
        decreases cs@.len() - i,
    {
        proof {
            lemma_encode_step(cs@, i as int);
        }
        total = total + char_utf8_width(cs[i]);
        i = i + 1;
        if total > limit {
            proof {
                lemma_encode_prefix(cs@, i as int);
            }
            return true;
        }
    }
    assert(cs@.take(i as int) =~= cs@);
    false
}

/// Whether `diff` may be handed to `fallback_context` (see `clip_fits`).
pub fn diff_clips_cleanly(diff: &str) -> (res: bool)
    ensures
        res == clip_fits(diff@),
{
    let cs = chars_of(diff);
    !utf8_longer_than(&cs, 4000) || diff.is_char_boundary(4000)
}

fn clip(diff: &str) -> (res: String)
    requires
        clip_fits(diff@),
    ensures
        res@ == clipped_diff(diff@),
{
    let cs = chars_of(diff);
    if utf8_longer_than(&cs, 4000) {
        let (head, _) = diff.split_at(4000);
        proof {
            encode_utf8_decode_utf8(head@);
            assert(encode_utf8(diff@).subrange(0, 4000) =~= encode_utf8(diff@).take(4000));
        }
        let mut s = String::from_str(head);
        s.append("...\n(truncated)");
        s
    } else {
        String::from_str(diff)
    }
}

/// The minimal context pack: a header, the recent changes when the diff is not blank,
/// and the instructions. A blank diff is never cut, so only a non-blank one need clip
/// cleanly.
pub fn fallback_context(diff: Option<&str>, prompt: &str) -> (res: String)
    requires
        diff matches Some(d) ==> (trim(d@).len() > 0 ==> clip_fits(d@)),
    ensures
        res@ == fallback_context_text(
            match diff {
                Some(d) => Some(d@),
                None => None,
            },
            prompt@,
        ),
{
    let mut ctx = String::from_str("# Project Context\n\n");
    match diff {
        Some(d) => {
            let cs = chars_of(d);
            let (a, b) = trim_in(&cs, 0, cs.len());
            assert(cs@.subrange(0, cs@.len() as int) =~= d@);
            if a < b {
                ctx.append("## Recent Changes\n\n```diff\n");
                let clipped = clip(d);
                ctx.append(clipped.as_str());
                ctx.append("\n```\n\n");
            }
        },
        None => {},
    }
    ctx.append("## Instructions\n\n");
    ctx.append(prompt);
    ctx
}

/// Number of divergences in a `spec-drift --format json` report, counted as the
/// occurrences of `"rule"`.
pub fn drift_divergence_count(report: &str) -> (res: usize)
    ensures
        res == count_matches(report@, "\"rule\""@),
{
    let cs = chars_of(report);
    let pat = chars_of("\"rule\"");
    proof {
        reveal_strlit("\"rule\"");
    }
    assert(pat@.len() == 6);
    count_matches_in(&cs, &pat)
}

} // verus!
