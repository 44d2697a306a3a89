//! What holds of every probe of an address, stage by stage.

use crate::error::{QlinkErrorView, error_text};
use crate::ice::{IceCheckRequest, IceCredentials};
use crate::net::{IpAddr, SocketAddr};
use crate::probe::{
    ProbeAction, ProbeActionView, ProbeEvent, ProbeEventView, ProbeOutcomeView, ProbePlan,
    ProbeState, StageOutcomeView, next_step, remaining_probe_budget,
};
use crate::time::{Duration, Instant};
use vstd::prelude::*;

verus! {

/// What is left of a span of time at `now`, when it started to run at `start`.
pub open spec fn rest_of(span: Duration, start: Instant, now: Instant) -> int {
    if now.nanos <= start.nanos {
        span.nanos as int
    } else if now.nanos - start.nanos >= span.nanos {
        0
    } else {
        span.nanos - (now.nanos - start.nanos)
    }
}

/// What a probe has left: of its own time and of the whole attempt's, whichever is
/// less.
pub open spec fn time_left(plan: ProbePlan, probe_started: Instant, now: Instant) -> int {
    let own = rest_of(plan.probe_timeout, probe_started, now);
    let whole = rest_of(plan.overall_deadline, plan.connect_started, now);
    if own <= whole {
        own
    } else {
        whole
    }
}

/// The budget of a probe is what is left of both its times.
pub proof fn law_budget_is_what_is_left(
    now: Instant,
    connect_started: Instant,
    probe_started: Instant,
    probe_timeout: Duration,
    overall_deadline: Duration,
    d: Duration,
)
    requires
        call_ensures(
            remaining_probe_budget,
            (now, connect_started, probe_started, probe_timeout, overall_deadline),
            d,
        ),
    ensures
        d.nanos <= rest_of(probe_timeout, probe_started, now),
        d.nanos <= rest_of(overall_deadline, connect_started, now),
        d.nanos == rest_of(probe_timeout, probe_started, now) || d.nanos == rest_of(
            overall_deadline,
            connect_started,
            now,
        ),
{
}

/// A probe ended: it says how it ended and how long it took, and takes its
/// measurements along.
pub open spec fn has_ended(
    plan: ProbePlan,
    s: ProbeState,
    step: (ProbeState, ProbeActionView),
    outcome: ProbeOutcomeView,
    close: Option<Seq<char>>,
    now: Instant,
) -> bool {
    &&& step.0.stage is Finished
    &&& step.1 matches ProbeActionView::Finish { record, close: c } && {
        &&& c == close
        &&& record.candidate_type == plan.candidate_type
        &&& record.address == Some(plan.address)
        &&& record.launched
        &&& record.outcome == outcome
        &&& record.elapsed.nanos == if now.nanos >= s.probe_started.nanos {
            now.nanos - s.probe_started.nanos
        } else {
            0
        }
        &&& record.ice_round_trip == step.0.ice_round_trip
        &&& record.peer_reflexive_address == step.0.peer_reflexive_address
        &&& record.quic_connect_elapsed == step.0.quic_connect_elapsed
        &&& record.identity_assertion_elapsed == step.0.identity_assertion_elapsed
    }
}

/// A probe whose turn comes too late is never launched. One with time left checks
/// its path first where it is to, on a socket of the address's family, and goes to
/// the carrier otherwise.
pub proof fn law_probe_starts_while_there_is_time(plan: ProbePlan, s: ProbeState, now: Instant)
    requires
        s.stage is Pacing,
    ensures
        ({
            let step = next_step(plan, s, ProbeEventView::Woke, now);
            let left = time_left(plan, now, now);
            &&& left == 0 ==> step.0.stage is Finished && (step.1 matches ProbeActionView::Finish {
                record,
                close,
            } && close is None && !record.launched && record.outcome is TimedOut && record.address
                == Some(plan.address) && record.elapsed.nanos == 0)
            &&& left > 0 && plan.check_path ==> step.0.stage is BindingIceSocket
                && step.0.probe_started == now && (step.1 matches ProbeActionView::BindIceSocket {
                local,
            } && local.port == 0 && (plan.address.ip is V4 ==> local.ip == IpAddr::V4(0)) && (
            plan.address.ip is V6 ==> local.ip == IpAddr::V6(0)))
            &&& left > 0 && !plan.check_path ==> step.0.stage is ConnectingCarrier
                && step.0.probe_started == now && step.0.carrier_started == now && (step.1 matches
                ProbeActionView::ConnectCarrier { timeout } && timeout.nanos == left)
        }),
{
}

/// A bound socket checks the path within the shorter of the check's time and what
/// is left; an unbound one ends the probe.
pub proof fn law_path_check_takes_its_time(
    plan: ProbePlan,
    s: ProbeState,
    reason: Seq<char>,
    now: Instant,
)
    requires
        s.stage is BindingIceSocket,
    ensures
        ({
            let step = next_step(plan, s, ProbeEventView::IceSocket(None), now);
            let left = time_left(plan, s.probe_started, now);
            let time = if plan.ice_check_timeout.nanos <= left {
                plan.ice_check_timeout.nanos as int
            } else {
                left
            };
            &&& time > 0 ==> step.0.stage is CheckingPath && (step.1 matches
                ProbeActionView::CheckPath { timeout } && timeout.nanos == time)
            &&& time == 0 ==> has_ended(plan, s, step, ProbeOutcomeView::TimedOut, None, now)
        }),
        has_ended(
            plan,
            s,
            next_step(plan, s, ProbeEventView::IceSocket(Some(reason)), now),
            ProbeOutcomeView::IceFailed("could not bind ICE socket: "@ + reason),
            None,
            now,
        ),
{
}

/// A checked path goes to the carrier with what the check measured; a refused one
/// ends the probe with the reason.
pub proof fn law_checked_path_goes_to_the_carrier(
    plan: ProbePlan,
    s: ProbeState,
    round_trip: Duration,
    mapped_address: Option<SocketAddr>,
    why: QlinkErrorView,
    now: Instant,
)
    requires
        s.stage is CheckingPath,
    ensures
        ({
            let step = next_step(
                plan,
                s,
                ProbeEventView::PathChecked { round_trip, mapped_address },
                now,
            );
            let left = time_left(plan, s.probe_started, now);
            &&& step.0.ice_round_trip == Some(round_trip)
            &&& step.0.peer_reflexive_address == mapped_address
            &&& left > 0 ==> step.0.stage is ConnectingCarrier && step.0.carrier_started == now && (
            step.1 matches ProbeActionView::ConnectCarrier { timeout } && timeout.nanos == left)
            &&& left == 0 ==> has_ended(plan, s, step, ProbeOutcomeView::TimedOut, None, now)
        }),
        has_ended(
            plan,
            s,
            next_step(plan, s, ProbeEventView::PathRefused(why), now),
            ProbeOutcomeView::IceFailed(error_text(why)),
            None,
            now,
        ),
{
}

/// A connected carrier sends the identity, a failed or late one ends the probe; in
/// each case the time that it took is kept. A carrier that is open is closed where
/// no time is left.
pub proof fn law_connected_carrier_sends_the_identity(
    plan: ProbePlan,
    s: ProbeState,
    why: QlinkErrorView,
    now: Instant,
)
    requires
        s.stage is ConnectingCarrier,
    ensures
        ({
            let step = next_step(plan, s, ProbeEventView::Carrier(StageOutcomeView::Done), now);
            let left = time_left(plan, s.probe_started, now);
            &&& step.0.quic_connect_elapsed matches Some(d) && d.nanos == if now.nanos
                >= s.carrier_started.nanos {
                now.nanos - s.carrier_started.nanos
            } else {
                0
            }
            &&& left > 0 ==> step.0.stage is AssertingIdentity && step.0.assertion_started == now
                && (step.1 matches ProbeActionView::SendAssertion { timeout } && timeout.nanos
                == left)
            &&& left == 0 ==> has_ended(
                plan,
                s,
                step,
                ProbeOutcomeView::TimedOut,
                Some("assertion send timed out"@),
                now,
            ) && (step.0.identity_assertion_elapsed matches Some(d) && d.nanos == 0)
        }),
        has_ended(
            plan,
            s,
            next_step(plan, s, ProbeEventView::Carrier(StageOutcomeView::Failed(why)), now),
            ProbeOutcomeView::Failed(error_text(why)),
            None,
            now,
        ),
        has_ended(
            plan,
            s,
            next_step(plan, s, ProbeEventView::Carrier(StageOutcomeView::TimedOut), now),
            ProbeOutcomeView::TimedOut,
            None,
            now,
        ),
{
}

/// A sent identity secures the session; a failed or late one ends the probe and
/// closes the carrier.
pub proof fn law_sent_identity_secures_the_session(
    plan: ProbePlan,
    s: ProbeState,
    why: QlinkErrorView,
    now: Instant,
)
    requires
        s.stage is AssertingIdentity,
    ensures
        ({
            let step = next_step(plan, s, ProbeEventView::Assertion(StageOutcomeView::Done), now);
            let left = time_left(plan, s.probe_started, now);
            &&& step.0.identity_assertion_elapsed matches Some(d) && d.nanos == if now.nanos
                >= s.assertion_started.nanos {
                now.nanos - s.assertion_started.nanos
            } else {
                0
            }
            &&& left > 0 ==> step.0.stage is SecuringSession && (step.1 matches
                ProbeActionView::RunSession { timeout } && timeout.nanos == left)
            &&& left == 0 ==> has_ended(
                plan,
                s,
                step,
                ProbeOutcomeView::TimedOut,
                Some("pqc session timed out"@),
                now,
            )
        }),
        has_ended(
            plan,
            s,
            next_step(plan, s, ProbeEventView::Assertion(StageOutcomeView::Failed(why)), now),
            ProbeOutcomeView::Failed("inbound assertion send failed: "@ + error_text(why)),
            Some("assertion send failed"@),
            now,
        ),
        has_ended(
            plan,
            s,
            next_step(plan, s, ProbeEventView::Assertion(StageOutcomeView::TimedOut), now),
            ProbeOutcomeView::TimedOut,
            Some("assertion send timed out"@),
            now,
        ),
{
}

/// A secured session establishes the probe and keeps its carrier open; a failed or
/// late one ends it and closes the carrier.
pub proof fn law_secured_session_establishes_the_probe(
    plan: ProbePlan,
    s: ProbeState,
    why: QlinkErrorView,
    now: Instant,
)
    requires
        s.stage is SecuringSession,
    ensures
        has_ended(
            plan,
            s,
            next_step(plan, s, ProbeEventView::Session(StageOutcomeView::Done), now),
            ProbeOutcomeView::Established,
            None,
            now,
        ),
        has_ended(
            plan,
            s,
            next_step(plan, s, ProbeEventView::Session(StageOutcomeView::Failed(why)), now),
            ProbeOutcomeView::Failed("PQC session failed: "@ + error_text(why)),
            Some("pqc session failed"@),
            now,
        ),
        has_ended(
            plan,
            s,
            next_step(plan, s, ProbeEventView::Session(StageOutcomeView::TimedOut), now),
            ProbeOutcomeView::TimedOut,
            Some("pqc session timed out"@),
            now,
        ),
{
}

/// An event that a probe does not wait for changes nothing.
pub proof fn law_untimely_probe_event_changes_nothing(
    plan: ProbePlan,
    s: ProbeState,
    event: ProbeEventView,
    now: Instant,
)
    requires
        !(s.stage is Pacing && event is Woke),
        !(s.stage is BindingIceSocket && event is IceSocket),
        !(s.stage is CheckingPath && (event is PathChecked || event is PathRefused)),
        !(s.stage is ConnectingCarrier && event is Carrier),
        !(s.stage is AssertingIdentity && event is Assertion),
        !(s.stage is SecuringSession && event is Session),
    ensures
        next_step(plan, s, event, now) == (s, ProbeActionView::Wait),
{
}

/// A new probe waits for its turn and has measured nothing.
pub proof fn law_new_probe_waits_for_its_turn(plan: &ProbePlan, s: ProbeState)
    requires
        call_ensures(ProbeState::new, (plan,), s),
    ensures
        s.stage is Pacing,
        s.ice_round_trip is None,
        s.peer_reflexive_address is None,
        s.quic_connect_elapsed is None,
        s.identity_assertion_elapsed is None,
{
}

/// A probe goes by its plan: where its state and the action come from is what
/// every other law of probes speaks of.
pub proof fn law_probe_goes_step_by_step(
    s: &mut ProbeState,
    plan: &ProbePlan,
    event: ProbeEvent,
    now: Instant,
    a: ProbeAction,
)
    requires
        call_ensures(ProbeState::step, (s, plan, event, now), a),
    ensures
        (*final(s), a@) == next_step(*plan, *old(s), event@, now),
        old(s).stage is SecuringSession ==> (event matches ProbeEvent::Session(outcome) ==> (
        a matches ProbeAction::Finish { record, close } && (record@.outcome is Established
            <==> outcome is Done) && (close is None <==> outcome is Done))),
        a matches ProbeAction::Finish { record, .. } ==> (record@.outcome is Established
            ==> old(s).stage is SecuringSession),
        old(s).stage is Finished ==> *final(s) == *old(s) && a is Wait,
{
}

/// A check asks with the plan's priority and nominates its path.
pub proof fn law_probe_asks_with_its_priority(
    plan: &ProbePlan,
    remote: &IceCredentials,
    local_ufrag: &str,
    tiebreaker: u64,
    request: IceCheckRequest,
)
    requires
        call_ensures(ProbePlan::ice_request, (plan, remote, local_ufrag, tiebreaker), request),
    ensures
        request.local_priority == plan.priority,
        request.controlling_tiebreaker == tiebreaker,
        request.use_candidate,
        request.remote_credentials.ufrag@ == remote.ufrag@,
        request.remote_credentials.password@ == remote.password@,
        request.local_ufrag@ == local_ufrag@,
{
}

} // verus!
