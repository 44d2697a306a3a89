//! One connectivity probe to a candidate address, as a machine that says what to
//! do next and is told what came of it: wait for its turn, check the path, open
//! the carrier, assert the local identity, secure the session.

use crate::discovery::CandidateType;
use crate::error::{QlinkError, QlinkErrorView, error_text};
use crate::ice::{IceCheckRequest, IceCheckResult, IceCredentials};
use crate::net::{IpAddr, SocketAddr};
use crate::outside::optional_text;
use crate::text::join2;
use crate::time::{Duration, Instant, elapsed, left_of, shorter};
use vstd::prelude::*;
use vstd::string::*;

verus! {

/// How a probe ended.
#[derive(Debug, Clone)]
pub enum ProbeOutcome {
    Established,
    TimedOut,
    Failed(String),
    /// The path check failed, so that the carrier was never tried.
    IceFailed(String),
}

/// The model of a [`ProbeOutcome`].
pub enum ProbeOutcomeView {
    Established,
    TimedOut,
    Failed(Seq<char>),
    IceFailed(Seq<char>),
}

impl View for ProbeOutcome {
    type V = ProbeOutcomeView;

    open spec fn view(&self) -> ProbeOutcomeView {
        match self {
            ProbeOutcome::Established => ProbeOutcomeView::Established,
            ProbeOutcome::TimedOut => ProbeOutcomeView::TimedOut,
            ProbeOutcome::Failed(s) => ProbeOutcomeView::Failed(s@),
            ProbeOutcome::IceFailed(s) => ProbeOutcomeView::IceFailed(s@),
        }
    }
}

/// The record of a finished probe.
#[derive(Debug, Clone)]
pub struct ProbeOutcomeRecord {
    pub candidate_type: CandidateType,
    pub address: Option<SocketAddr>,
    pub launched: bool,
    pub elapsed: Duration,
    pub outcome: ProbeOutcome,
    pub quic_connect_elapsed: Option<Duration>,
    pub identity_assertion_elapsed: Option<Duration>,
    pub ice_round_trip: Option<Duration>,
    pub peer_reflexive_address: Option<SocketAddr>,
}

/// The model of a [`ProbeOutcomeRecord`].
pub struct ProbeRecordView {
    pub candidate_type: CandidateType,
    pub address: Option<SocketAddr>,
    pub launched: bool,
    pub elapsed: Duration,
    pub outcome: ProbeOutcomeView,
    pub quic_connect_elapsed: Option<Duration>,
    pub identity_assertion_elapsed: Option<Duration>,
    pub ice_round_trip: Option<Duration>,
    pub peer_reflexive_address: Option<SocketAddr>,
}

impl View for ProbeOutcomeRecord {
    type V = ProbeRecordView;

    open spec fn view(&self) -> ProbeRecordView {
        ProbeRecordView {
            candidate_type: self.candidate_type,
            address: self.address,
            launched: self.launched,
            elapsed: self.elapsed,
            outcome: self.outcome@,
            quic_connect_elapsed: self.quic_connect_elapsed,
            identity_assertion_elapsed: self.identity_assertion_elapsed,
            ice_round_trip: self.ice_round_trip,
            peer_reflexive_address: self.peer_reflexive_address,
        }
    }
}

impl ProbeOutcomeRecord {
    /// The record of a probe that never got as far as the carrier.
    pub fn from_parts(
        candidate_type: CandidateType,
        address: Option<SocketAddr>,
        launched: bool,
        elapsed: Duration,
        outcome: ProbeOutcome,
    ) -> (r: ProbeOutcomeRecord)
        ensures
            r@ == early_record(candidate_type, address, launched, elapsed, outcome@),
    {
        ProbeOutcomeRecord {
            candidate_type,
            address,
            launched,
            elapsed,
            outcome,
            quic_connect_elapsed: None,
            identity_assertion_elapsed: None,
            ice_round_trip: None,
            peer_reflexive_address: None,
        }
    }
}

/// The record of a probe that never got as far as the carrier.
pub open spec fn early_record(
    candidate_type: CandidateType,
    address: Option<SocketAddr>,
    launched: bool,
    elapsed: Duration,
    outcome: ProbeOutcomeView,
) -> ProbeRecordView {
    ProbeRecordView {
        candidate_type,
        address,
        launched,
        elapsed,
        outcome,
        quic_connect_elapsed: None,
        identity_assertion_elapsed: None,
        ice_round_trip: None,
        peer_reflexive_address: None,
    }
}

/// What a probe goes by.
#[derive(Debug, Clone, Copy, PartialEq, Eq, Structural)]
pub struct ProbePlan {
    pub candidate_type: CandidateType,
    pub address: SocketAddr,
    /// The priority that the candidate was published with.
    pub priority: u32,
    /// How long the probe waits for its turn.
    pub pacing_offset: Duration,
    pub probe_timeout: Duration,
    pub overall_deadline: Duration,
    pub ice_check_timeout: Duration,
    pub connect_started: Instant,
    /// The path is checked before the carrier is tried.
    pub check_path: bool,
}

impl ProbePlan {
    /// The check of the path: it knows the peer's password, carries the priority
    /// of the candidate and nominates it.
    pub fn ice_request(
        &self,
        remote_credentials: &IceCredentials,
        local_ufrag: &str,
        controlling_tiebreaker: u64,
    ) -> (request: IceCheckRequest)
        ensures
            request.remote_credentials.ufrag@ == remote_credentials.ufrag@,
            request.remote_credentials.password@ == remote_credentials.password@,
            request.local_ufrag@ == local_ufrag@,
            request.local_priority == self.priority,
            request.controlling_tiebreaker == controlling_tiebreaker,
            request.use_candidate,
    {
        IceCheckRequest {
            remote_credentials: IceCredentials {
                ufrag: remote_credentials.ufrag.clone(),
                password: remote_credentials.password.clone(),
            },
            local_ufrag: local_ufrag.to_owned(),
            local_priority: self.priority,
            controlling_tiebreaker,
            use_candidate: true,
        }
    }
}

/// How far a probe has come: each stage waits for what came of an action.
#[derive(Debug, Clone, Copy, PartialEq, Eq, Structural)]
pub enum ProbeStage {
    Pacing,
    BindingIceSocket,
    CheckingPath,
    ConnectingCarrier,
    AssertingIdentity,
    SecuringSession,
    Finished,
}

/// A probe under way.
#[derive(Debug, Clone, Copy, PartialEq, Eq, Structural)]
pub struct ProbeState {
    pub stage: ProbeStage,
    pub probe_started: Instant,
    pub carrier_started: Instant,
    pub assertion_started: Instant,
    pub quic_connect_elapsed: Option<Duration>,
    pub identity_assertion_elapsed: Option<Duration>,
    pub ice_round_trip: Option<Duration>,
    pub peer_reflexive_address: Option<SocketAddr>,
}

/// What came of an action that can fail or run out of time.
#[derive(Debug, Clone)]
pub enum StageOutcome {
    Done,
    Failed(QlinkError),
    TimedOut,
}

/// What a probe is told.
#[derive(Debug, Clone)]
pub enum ProbeEvent {
    /// The probe's turn has come.
    Woke,
    /// The socket of the path check is bound, or why it is not.
    IceSocket(Option<String>),
    /// The path check passed.
    PathChecked(IceCheckResult),
    /// The path check failed.
    PathRefused(QlinkError),
    Carrier(StageOutcome),
    Assertion(StageOutcome),
    Session(StageOutcome),
}

/// What to do next.
#[derive(Debug, Clone)]
pub enum ProbeAction {
    BindIceSocket { local: SocketAddr },
    CheckPath { timeout: Duration },
    ConnectCarrier { timeout: Duration },
    SendAssertion { timeout: Duration },
    RunSession { timeout: Duration },
    /// The probe is over. A carrier that was opened is closed for the reason,
    /// where there is one.
    Finish { record: ProbeOutcomeRecord, close: Option<&'static str> },
    /// What was told does not belong to the stage: go on waiting.
    Wait,
}

/// The model of a [`StageOutcome`].
pub enum StageOutcomeView {
    Done,
    Failed(QlinkErrorView),
    TimedOut,
}

impl View for StageOutcome {
    type V = StageOutcomeView;

    open spec fn view(&self) -> StageOutcomeView {
        match self {
            StageOutcome::Done => StageOutcomeView::Done,
            StageOutcome::Failed(e) => StageOutcomeView::Failed(e@),
            StageOutcome::TimedOut => StageOutcomeView::TimedOut,
        }
    }
}

/// The model of a [`ProbeEvent`].
pub enum ProbeEventView {
    Woke,
    IceSocket(Option<Seq<char>>),
    PathChecked { round_trip: Duration, mapped_address: Option<SocketAddr> },
    PathRefused(QlinkErrorView),
    Carrier(StageOutcomeView),
    Assertion(StageOutcomeView),
    Session(StageOutcomeView),
}

impl View for ProbeEvent {
    type V = ProbeEventView;

    open spec fn view(&self) -> ProbeEventView {
        match self {
            ProbeEvent::Woke => ProbeEventView::Woke,
            ProbeEvent::IceSocket(e) => ProbeEventView::IceSocket(optional_text(*e)),
            ProbeEvent::PathChecked(found) => ProbeEventView::PathChecked {
                round_trip: found.round_trip,
                mapped_address: found.mapped_address,
            },
            ProbeEvent::PathRefused(e) => ProbeEventView::PathRefused(e@),
            ProbeEvent::Carrier(o) => ProbeEventView::Carrier(o@),
            ProbeEvent::Assertion(o) => ProbeEventView::Assertion(o@),
            ProbeEvent::Session(o) => ProbeEventView::Session(o@),
        }
    }
}

/// The model of a [`ProbeAction`].
pub enum ProbeActionView {
    BindIceSocket { local: SocketAddr },
    CheckPath { timeout: Duration },
    ConnectCarrier { timeout: Duration },
    SendAssertion { timeout: Duration },
    RunSession { timeout: Duration },
    Finish { record: ProbeRecordView, close: Option<Seq<char>> },
    Wait,
}

impl View for ProbeAction {
    type V = ProbeActionView;

    open spec fn view(&self) -> ProbeActionView {
        match self {
            ProbeAction::BindIceSocket { local } => ProbeActionView::BindIceSocket {
                local: *local,
            },
            ProbeAction::CheckPath { timeout } => ProbeActionView::CheckPath { timeout: *timeout },
            ProbeAction::ConnectCarrier { timeout } => ProbeActionView::ConnectCarrier {
                timeout: *timeout,
            },
            ProbeAction::SendAssertion { timeout } => ProbeActionView::SendAssertion {
                timeout: *timeout,
            },
            ProbeAction::RunSession { timeout } => ProbeActionView::RunSession {
                timeout: *timeout,
            },
            ProbeAction::Finish { record, close } => ProbeActionView::Finish {
                record: record@,
                close: match close {
                    Some(reason) => Some(reason@),
                    None => None,
                },
            },
            ProbeAction::Wait => ProbeActionView::Wait,
        }
    }
}

// ---------------------------------------------------------------------------
// Budgets
// ---------------------------------------------------------------------------

/// What a probe may still use up: what is left of its own timeout and of the
/// deadline of the whole attempt, whichever is less.
pub open spec fn budget(
    now: Instant,
    connect_started: Instant,
    probe_started: Instant,
    probe_timeout: Duration,
    overall_deadline: Duration,
) -> nat {
    shorter(
        left_of(probe_timeout, elapsed(probe_started, now)),
        left_of(overall_deadline, elapsed(connect_started, now)),
    )
}

pub fn remaining_probe_budget(
    now: Instant,
    connect_started: Instant,
    probe_started: Instant,
    direct_probe_timeout: Duration,
    overall_deadline: Duration,
) -> (d: Duration)
    ensures
        d.nanos == budget(
            now,
            connect_started,
            probe_started,
            direct_probe_timeout,
            overall_deadline,
        ),
{
    let candidate_elapsed = now.saturating_duration_since(probe_started);
    let overall_elapsed = now.saturating_duration_since(connect_started);
    let candidate_remaining = direct_probe_timeout.saturating_sub(candidate_elapsed);
    let overall_remaining = overall_deadline.saturating_sub(overall_elapsed);
    candidate_remaining.min(overall_remaining)
}

// ---------------------------------------------------------------------------
// The machine
// ---------------------------------------------------------------------------

/// A probe that waits for its turn.
pub open spec fn initial_state(plan: ProbePlan) -> ProbeState {
    ProbeState {
        stage: ProbeStage::Pacing,
        probe_started: plan.connect_started,
        carrier_started: plan.connect_started,
        assertion_started: plan.connect_started,
        quic_connect_elapsed: None,
        identity_assertion_elapsed: None,
        ice_round_trip: None,
        peer_reflexive_address: None,
    }
}

/// What is left to a probe.
pub open spec fn left(plan: ProbePlan, s: ProbeState, now: Instant) -> nat {
    budget(now, plan.connect_started, s.probe_started, plan.probe_timeout, plan.overall_deadline)
}

/// A span of nanoseconds.
pub open spec fn span(nanos: nat) -> Duration {
    Duration { nanos: nanos as u128 }
}

/// The record of a launched probe that ends now.
pub open spec fn launched_record(
    plan: ProbePlan,
    s: ProbeState,
    outcome: ProbeOutcomeView,
    now: Instant,
) -> ProbeRecordView {
    ProbeRecordView {
        candidate_type: plan.candidate_type,
        address: Some(plan.address),
        launched: true,
        elapsed: span(elapsed(s.probe_started, now)),
        outcome,
        quic_connect_elapsed: s.quic_connect_elapsed,
        identity_assertion_elapsed: s.identity_assertion_elapsed,
        ice_round_trip: s.ice_round_trip,
        peer_reflexive_address: s.peer_reflexive_address,
    }
}

/// A launched probe ends now.
pub open spec fn finished(
    plan: ProbePlan,
    s: ProbeState,
    outcome: ProbeOutcomeView,
    close: Option<Seq<char>>,
    now: Instant,
) -> (ProbeState, ProbeActionView) {
    (
        ProbeState { stage: ProbeStage::Finished, ..s },
        ProbeActionView::Finish { record: launched_record(plan, s, outcome, now), close },
    )
}

/// A probe whose turn came too late ends without having been launched.
pub open spec fn never_launched(plan: ProbePlan, s: ProbeState) -> (ProbeState, ProbeActionView) {
    (
        ProbeState { stage: ProbeStage::Finished, ..s },
        ProbeActionView::Finish {
            record: early_record(
                plan.candidate_type,
                Some(plan.address),
                false,
                span(0),
                ProbeOutcomeView::TimedOut,
            ),
            close: None,
        },
    )
}

/// The carrier's turn.
pub open spec fn to_carrier(plan: ProbePlan, s: ProbeState, now: Instant) -> (
    ProbeState,
    ProbeActionView,
) {
    if left(plan, s, now) == 0 {
        finished(plan, s, ProbeOutcomeView::TimedOut, None, now)
    } else {
        (
            ProbeState { stage: ProbeStage::ConnectingCarrier, carrier_started: now, ..s },
            ProbeActionView::ConnectCarrier { timeout: span(left(plan, s, now)) },
        )
    }
}

/// The unspecified address of the same family, with any port.
pub open spec fn unspecified_like(addr: SocketAddr) -> SocketAddr {
    SocketAddr {
        ip: match addr.ip {
            IpAddr::V4(_) => IpAddr::V4(0),
            IpAddr::V6(_) => IpAddr::V6(0),
        },
        port: 0,
    }
}

/// The probe's turn has come.
pub open spec fn on_turn(plan: ProbePlan, s: ProbeState, now: Instant) -> (
    ProbeState,
    ProbeActionView,
) {
    let t = ProbeState { probe_started: now, ..s };
    if elapsed(plan.connect_started, now) >= plan.overall_deadline.nanos {
        never_launched(plan, s)
    } else if left(plan, t, now) == 0 {
        never_launched(plan, t)
    } else if plan.check_path {
        (
            ProbeState { stage: ProbeStage::BindingIceSocket, ..t },
            ProbeActionView::BindIceSocket { local: unspecified_like(plan.address) },
        )
    } else {
        to_carrier(plan, t, now)
    }
}

/// The socket of the path check is bound, or not.
pub open spec fn on_ice_socket(
    plan: ProbePlan,
    s: ProbeState,
    error: Option<Seq<char>>,
    now: Instant,
) -> (ProbeState, ProbeActionView) {
    match error {
        Some(reason) => finished(
            plan,
            s,
            ProbeOutcomeView::IceFailed("could not bind ICE socket: "@ + reason),
            None,
            now,
        ),
        None => {
            let timeout = shorter(plan.ice_check_timeout.nanos as nat, left(plan, s, now));
            if timeout == 0 {
                finished(plan, s, ProbeOutcomeView::TimedOut, None, now)
            } else {
                (
                    ProbeState { stage: ProbeStage::CheckingPath, ..s },
                    ProbeActionView::CheckPath { timeout: span(timeout) },
                )
            }
        },
    }
}

/// The carrier is open, or not.
pub open spec fn on_carrier(
    plan: ProbePlan,
    s: ProbeState,
    outcome: StageOutcomeView,
    now: Instant,
) -> (ProbeState, ProbeActionView) {
    let t = ProbeState {
        quic_connect_elapsed: Some(span(elapsed(s.carrier_started, now))),
        ..s
    };
    match outcome {
        StageOutcomeView::Failed(e) => finished(
            plan,
            t,
            ProbeOutcomeView::Failed(error_text(e)),
            None,
            now,
        ),
        StageOutcomeView::TimedOut => finished(plan, t, ProbeOutcomeView::TimedOut, None, now),
        StageOutcomeView::Done => if left(plan, t, now) == 0 {
            finished(
                plan,
                ProbeState { assertion_started: now, identity_assertion_elapsed: Some(span(0)), ..t },
                ProbeOutcomeView::TimedOut,
                Some("assertion send timed out"@),
                now,
            )
        } else {
            (
                ProbeState { stage: ProbeStage::AssertingIdentity, assertion_started: now, ..t },
                ProbeActionView::SendAssertion { timeout: span(left(plan, t, now)) },
            )
        },
    }
}

/// The local identity is asserted, or not.
pub open spec fn on_assertion(
    plan: ProbePlan,
    s: ProbeState,
    outcome: StageOutcomeView,
    now: Instant,
) -> (ProbeState, ProbeActionView) {
    let t = ProbeState {
        identity_assertion_elapsed: Some(span(elapsed(s.assertion_started, now))),
        ..s
    };
    match outcome {
        StageOutcomeView::Failed(e) => finished(
            plan,
            t,
            ProbeOutcomeView::Failed("inbound assertion send failed: "@ + error_text(e)),
            Some("assertion send failed"@),
            now,
        ),
        StageOutcomeView::TimedOut => finished(
            plan,
            t,
            ProbeOutcomeView::TimedOut,
            Some("assertion send timed out"@),
            now,
        ),
        StageOutcomeView::Done => if left(plan, t, now) == 0 {
            finished(
                plan,
                t,
                ProbeOutcomeView::TimedOut,
                Some("pqc session timed out"@),
                now,
            )
        } else {
            (
                ProbeState { stage: ProbeStage::SecuringSession, ..t },
                ProbeActionView::RunSession { timeout: span(left(plan, t, now)) },
            )
        },
    }
}

/// The session is secured, or not.
pub open spec fn on_session(
    plan: ProbePlan,
    s: ProbeState,
    outcome: StageOutcomeView,
    now: Instant,
) -> (ProbeState, ProbeActionView) {
    match outcome {
        StageOutcomeView::Failed(e) => finished(
            plan,
            s,
            ProbeOutcomeView::Failed("PQC session failed: "@ + error_text(e)),
            Some("pqc session failed"@),
            now,
        ),
        StageOutcomeView::TimedOut => finished(
            plan,
            s,
            ProbeOutcomeView::TimedOut,
            Some("pqc session timed out"@),
            now,
        ),
        StageOutcomeView::Done => finished(plan, s, ProbeOutcomeView::Established, None, now),
    }
}

/// What a probe does when it is told something: what does not belong to its stage
/// changes nothing.
pub open spec fn next_step(plan: ProbePlan, s: ProbeState, event: ProbeEventView, now: Instant) -> (
    ProbeState,
    ProbeActionView,
) {
    match (s.stage, event) {
        (ProbeStage::Pacing, ProbeEventView::Woke) => on_turn(plan, s, now),
        (ProbeStage::BindingIceSocket, ProbeEventView::IceSocket(error)) => on_ice_socket(
            plan,
            s,
            error,
            now,
        ),
        (
            ProbeStage::CheckingPath,
            ProbeEventView::PathChecked { round_trip, mapped_address },
        ) => to_carrier(
            plan,
            ProbeState {
                ice_round_trip: Some(round_trip),
                peer_reflexive_address: mapped_address,
                ..s
            },
            now,
        ),
        (ProbeStage::CheckingPath, ProbeEventView::PathRefused(e)) => finished(
            plan,
            s,
            ProbeOutcomeView::IceFailed(error_text(e)),
            None,
            now,
        ),
        (ProbeStage::ConnectingCarrier, ProbeEventView::Carrier(o)) => on_carrier(plan, s, o, now),
        (ProbeStage::AssertingIdentity, ProbeEventView::Assertion(o)) => on_assertion(
            plan,
            s,
            o,
            now,
        ),
        (ProbeStage::SecuringSession, ProbeEventView::Session(o)) => on_session(plan, s, o, now),
        _ => (s, ProbeActionView::Wait),
    }
}

impl ProbeState {
    pub fn new(plan: &ProbePlan) -> (s: ProbeState)
        ensures
            s == initial_state(*plan),
    {
        ProbeState {
            stage: ProbeStage::Pacing,
            probe_started: plan.connect_started,
            carrier_started: plan.connect_started,
            assertion_started: plan.connect_started,
            quic_connect_elapsed: None,
            identity_assertion_elapsed: None,
            ice_round_trip: None,
            peer_reflexive_address: None,
        }
    }

    fn left(&self, plan: &ProbePlan, now: Instant) -> (d: Duration)
        ensures
            d == span(left(*plan, *self, now)),
            d.nanos == left(*plan, *self, now),
    {
        remaining_probe_budget(
            now,
            plan.connect_started,
            self.probe_started,
            plan.probe_timeout,
            plan.overall_deadline,
        )
    }

    fn finish(
        &mut self,
        plan: &ProbePlan,
        outcome: ProbeOutcome,
        close: Option<&'static str>,
        now: Instant,
    ) -> (a: ProbeAction)
        ensures
            (*final(self), a@) == finished(
                *plan,
                *old(self),
                outcome@,
                match close {
                    Some(reason) => Some(reason@),
                    None => None,
                },
                now,
            ),
    {
        let record = ProbeOutcomeRecord {
            candidate_type: plan.candidate_type,
            address: Some(plan.address),
            launched: true,
            elapsed: now.saturating_duration_since(self.probe_started),
            outcome,
            quic_connect_elapsed: self.quic_connect_elapsed,
            identity_assertion_elapsed: self.identity_assertion_elapsed,
            ice_round_trip: self.ice_round_trip,
            peer_reflexive_address: self.peer_reflexive_address,
        };
        self.stage = ProbeStage::Finished;
        ProbeAction::Finish { record, close }
    }

    fn give_up_turn(&mut self, plan: &ProbePlan) -> (a: ProbeAction)
        ensures
            (*final(self), a@) == never_launched(*plan, *old(self)),
    {
        self.stage = ProbeStage::Finished;
        ProbeAction::Finish {
            record: ProbeOutcomeRecord::from_parts(
                plan.candidate_type,
                Some(plan.address),
                false,
                Duration { nanos: 0 },
                ProbeOutcome::TimedOut,
            ),
            close: None,
        }
    }

    fn go_to_carrier(&mut self, plan: &ProbePlan, now: Instant) -> (a: ProbeAction)
        ensures
            (*final(self), a@) == to_carrier(*plan, *old(self), now),
    {
        let timeout = self.left(plan, now);
        if timeout.is_zero() {
            return self.finish(plan, ProbeOutcome::TimedOut, None, now);
        }
        self.stage = ProbeStage::ConnectingCarrier;
        self.carrier_started = now;
        ProbeAction::ConnectCarrier { timeout }
    }

    fn take_turn(&mut self, plan: &ProbePlan, now: Instant) -> (a: ProbeAction)
        ensures
            (*final(self), a@) == on_turn(*plan, *old(self), now),
    {
        if now.saturating_duration_since(plan.connect_started).nanos
            >= plan.overall_deadline.nanos {
            return self.give_up_turn(plan);
        }
        self.probe_started = now;
        if self.left(plan, now).is_zero() {
            return self.give_up_turn(plan);
        }
        if plan.check_path {
            self.stage = ProbeStage::BindingIceSocket;
            let ip = match plan.address.ip {
                IpAddr::V4(_) => IpAddr::V4(0),
                IpAddr::V6(_) => IpAddr::V6(0),
            };
            return ProbeAction::BindIceSocket { local: SocketAddr { ip, port: 0 } };
        }
        self.go_to_carrier(plan, now)
    }

    fn ice_socket(&mut self, plan: &ProbePlan, error: Option<String>, now: Instant) -> (a:
        ProbeAction)
        ensures
            (*final(self), a@) == on_ice_socket(*plan, *old(self), optional_text(error), now),
    {
        if let Some(reason) = error {
            let text = join2("could not bind ICE socket: ", reason.as_str());
            return self.finish(plan, ProbeOutcome::IceFailed(text), None, now);
        }
        let timeout = plan.ice_check_timeout.min(self.left(plan, now));
        if timeout.is_zero() {
            return self.finish(plan, ProbeOutcome::TimedOut, None, now);
        }
        self.stage = ProbeStage::CheckingPath;
        ProbeAction::CheckPath { timeout }
    }

    fn carrier(&mut self, plan: &ProbePlan, outcome: StageOutcome, now: Instant) -> (a: ProbeAction)
        ensures
            (*final(self), a@) == on_carrier(*plan, *old(self), outcome@, now),
    {
        self.quic_connect_elapsed = Some(now.saturating_duration_since(self.carrier_started));
        match outcome {
            StageOutcome::Failed(e) => {
                let text = e.to_string();
                self.finish(plan, ProbeOutcome::Failed(text), None, now)
            },
            StageOutcome::TimedOut => self.finish(plan, ProbeOutcome::TimedOut, None, now),
            StageOutcome::Done => {
                let timeout = self.left(plan, now);
                self.assertion_started = now;
                if timeout.is_zero() {
                    self.identity_assertion_elapsed = Some(Duration { nanos: 0 });
                    return self.finish(
                        plan,
                        ProbeOutcome::TimedOut,
                        Some("assertion send timed out"),
                        now,
                    );
                }
                self.stage = ProbeStage::AssertingIdentity;
                ProbeAction::SendAssertion { timeout }
            },
        }
    }

    fn assertion(&mut self, plan: &ProbePlan, outcome: StageOutcome, now: Instant) -> (a:
        ProbeAction)
        ensures
            (*final(self), a@) == on_assertion(*plan, *old(self), outcome@, now),
    {
        self.identity_assertion_elapsed =
        Some(now.saturating_duration_since(self.assertion_started));
        match outcome {
            StageOutcome::Failed(e) => {
                let reason = e.to_string();
                let text = join2("inbound assertion send failed: ", reason.as_str());
                self.finish(
                    plan,
                    ProbeOutcome::Failed(text),
                    Some("assertion send failed"),
                    now,
                )
            },
            StageOutcome::TimedOut => self.finish(
                plan,
                ProbeOutcome::TimedOut,
                Some("assertion send timed out"),
                now,
            ),
            StageOutcome::Done => {
                let timeout = self.left(plan, now);
                if timeout.is_zero() {
                    return self.finish(
                        plan,
                        ProbeOutcome::TimedOut,
                        Some("pqc session timed out"),
                        now,
                    );
                }
                self.stage = ProbeStage::SecuringSession;
                ProbeAction::RunSession { timeout }
            },
        }
    }

    fn session(&mut self, plan: &ProbePlan, outcome: StageOutcome, now: Instant) -> (a: ProbeAction)
        ensures
            (*final(self), a@) == on_session(*plan, *old(self), outcome@, now),
    {
        match outcome {
            StageOutcome::Failed(e) => {
                let reason = e.to_string();
                let text = join2("PQC session failed: ", reason.as_str());
                self.finish(plan, ProbeOutcome::Failed(text), Some("pqc session failed"), now)
            },
            StageOutcome::TimedOut => self.finish(
                plan,
                ProbeOutcome::TimedOut,
                Some("pqc session timed out"),
                now,
            ),
            StageOutcome::Done => self.finish(plan, ProbeOutcome::Established, None, now),
        }
    }

    /// Tells the probe what happened at `now` and asks what to do next.
    pub fn step(&mut self, plan: &ProbePlan, event: ProbeEvent, now: Instant) -> (a: ProbeAction)
        ensures
            (*final(self), a@) == next_step(*plan, *old(self), event@, now),
    {
        match (self.stage, event) {
            (ProbeStage::Pacing, ProbeEvent::Woke) => self.take_turn(plan, now),
            (ProbeStage::BindingIceSocket, ProbeEvent::IceSocket(error)) => self.ice_socket(
                plan,
                error,
                now,
            ),
            (ProbeStage::CheckingPath, ProbeEvent::PathChecked(found)) => {
                self.ice_round_trip = Some(found.round_trip);
                self.peer_reflexive_address = found.mapped_address;
                self.go_to_carrier(plan, now)
            },
            (ProbeStage::CheckingPath, ProbeEvent::PathRefused(e)) => {
                let text = e.to_string();
                self.finish(plan, ProbeOutcome::IceFailed(text), None, now)
            },
            (ProbeStage::ConnectingCarrier, ProbeEvent::Carrier(o)) => self.carrier(plan, o, now),
            (ProbeStage::AssertingIdentity, ProbeEvent::Assertion(o)) => self.assertion(
                plan,
                o,
                now,
            ),
            (ProbeStage::SecuringSession, ProbeEvent::Session(o)) => self.session(plan, o, now),
            _ => ProbeAction::Wait,
        }
    }
}

// ---------------------------------------------------------------------------
// Laws
// ---------------------------------------------------------------------------

/// How far each stage has come: a carrier is only tried over a path that was
/// checked, where paths are checked; an identity is asserted over an open
/// carrier; a session is secured after that.
pub open spec fn is_sound(plan: ProbePlan, s: ProbeState) -> bool {
    let past_path = s.stage is ConnectingCarrier || s.stage is AssertingIdentity
        || s.stage is SecuringSession;
    &&& past_path && plan.check_path ==> s.ice_round_trip is Some
    &&& s.stage is AssertingIdentity || s.stage is SecuringSession ==> s.quic_connect_elapsed
        is Some
    &&& s.stage is SecuringSession ==> s.identity_assertion_elapsed is Some
}

/// A probe starts soundly and stays sound, whatever it is told.
pub proof fn law_probe_stays_sound(
    plan: ProbePlan,
    s: ProbeState,
    event: ProbeEventView,
    now: Instant,
)
    ensures
        is_sound(plan, initial_state(plan)),
        is_sound(plan, s) ==> is_sound(plan, next_step(plan, s, event, now).0),
{
}

/// A direct link is only ever established over a checked path, an open carrier,
/// an asserted identity and a secured session.
pub proof fn law_established_means_secured(
    plan: ProbePlan,
    s: ProbeState,
    event: ProbeEventView,
    now: Instant,
)
    requires
        is_sound(plan, s),
    ensures
        next_step(plan, s, event, now).1 matches ProbeActionView::Finish { record, close } ==> (
        record.outcome is Established ==> {
            &&& event == ProbeEventView::Session(StageOutcomeView::Done)
            &&& s.stage is SecuringSession
            &&& record.launched
            &&& record.address == Some(plan.address)
            &&& record.quic_connect_elapsed is Some
            &&& record.identity_assertion_elapsed is Some
            &&& (plan.check_path ==> record.ice_round_trip is Some)
            &&& close is None
        }),
{
}

/// Where paths are checked, the carrier is tried only after a passed check.
pub proof fn law_no_carrier_without_checked_path(
    plan: ProbePlan,
    s: ProbeState,
    event: ProbeEventView,
    now: Instant,
)
    requires
        plan.check_path,
    ensures
        next_step(plan, s, event, now).1 is ConnectCarrier ==> s.stage is CheckingPath
            && event is PathChecked,
{
}

/// Every timeout that a probe hands out is positive and within both its own
/// timeout and what is left of the deadline of the whole attempt; that of a path
/// check is also within the timeout of path checks.
pub proof fn law_timeouts_are_bounded(
    plan: ProbePlan,
    s: ProbeState,
    event: ProbeEventView,
    now: Instant,
)
    ensures
        match next_step(plan, s, event, now).1 {
            ProbeActionView::CheckPath { timeout } => 0 < timeout.nanos
                <= plan.ice_check_timeout.nanos && timeout.nanos <= plan.probe_timeout.nanos
                && timeout.nanos + elapsed(plan.connect_started, now)
                <= plan.overall_deadline.nanos,
            ProbeActionView::ConnectCarrier { timeout } => 0 < timeout.nanos
                <= plan.probe_timeout.nanos && timeout.nanos + elapsed(plan.connect_started, now)
                <= plan.overall_deadline.nanos,
            ProbeActionView::SendAssertion { timeout } => 0 < timeout.nanos
                <= plan.probe_timeout.nanos && timeout.nanos + elapsed(plan.connect_started, now)
                <= plan.overall_deadline.nanos,
            ProbeActionView::RunSession { timeout } => 0 < timeout.nanos
                <= plan.probe_timeout.nanos && timeout.nanos + elapsed(plan.connect_started, now)
                <= plan.overall_deadline.nanos,
            _ => true,
        },
{
}

/// A probe's budget is never more than its own timeout or the deadline, and it
/// only shrinks as time goes by.
pub proof fn law_budget_shrinks(
    earlier: Instant,
    later: Instant,
    connect_started: Instant,
    probe_started: Instant,
    probe_timeout: Duration,
    overall_deadline: Duration,
)
    requires
        earlier.nanos <= later.nanos,
    ensures
        budget(earlier, connect_started, probe_started, probe_timeout, overall_deadline)
            <= probe_timeout.nanos,
        budget(earlier, connect_started, probe_started, probe_timeout, overall_deadline)
            <= overall_deadline.nanos,
        budget(later, connect_started, probe_started, probe_timeout, overall_deadline) <= budget(
            earlier,
            connect_started,
            probe_started,
            probe_timeout,
            overall_deadline,
        ),
{
}

/// A finished probe stays finished and asks for nothing more.
pub proof fn law_finished_is_final(
    plan: ProbePlan,
    s: ProbeState,
    event: ProbeEventView,
    now: Instant,
)
    requires
        s.stage is Finished,
    ensures
        next_step(plan, s, event, now) == (s, ProbeActionView::Wait),
{
}

/// A carrier that was opened is either handed over or closed: a probe that ends
/// after the carrier came up names the reason, unless it is established.
pub proof fn law_open_carrier_is_closed(
    plan: ProbePlan,
    s: ProbeState,
    event: ProbeEventView,
    now: Instant,
)
    requires
        s.stage is AssertingIdentity || s.stage is SecuringSession || (s.stage is ConnectingCarrier
            && event == ProbeEventView::Carrier(StageOutcomeView::Done)),
    ensures
        next_step(plan, s, event, now).1 matches ProbeActionView::Finish { record, close } ==> (
        close is Some || record.outcome is Established),
{
}

} // verus!
