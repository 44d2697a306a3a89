//! What holds of every choice of a path and of every packet on it.

use crate::bytes::be_value;
use crate::error::Result;
use crate::flow_stability::{
    CandidateDecision, ControllerView, FlowBinding, FlowErrorView, FlowKey, FlowPathController,
    FlowPathSnapshot, FlowStabilityConfig, FlowStabilityError, PacketDecision, PathChangeReason,
    PathId, PathMetrics, PathMtuController, StablePathKind, busy_flows, flow_of, observed,
};
use vstd::prelude::*;

verus! {

// ---------------------------------------------------------------------------
// Which path
// ---------------------------------------------------------------------------

/// What a path costs: the round trip, four times the jitter, a quarter of a
/// millisecond for each basis point of loss, the penalty for address translation,
/// and thirty more for a relay.
pub open spec fn cost(m: PathMetrics, kind: StablePathKind) -> int {
    m.median_rtt_ms as int + 4 * m.jitter_ms as int + (m.packet_loss_basis_points as int / 4)
        + m.nat_penalty_ms as int + if kind is Relay {
        30int
    } else {
        0
    }
}

/// A path is scored by what it costs.
pub proof fn law_score_is_the_cost(m: PathMetrics, kind: StablePathKind, s: u64)
    requires
        call_ensures(PathMetrics::score, (m, kind), s),
    ensures
        s == cost(m, kind),
{
}

/// A sample of the path in use renews its measure and ends the wait of any other
/// candidate; the path, its flows and its packet size stay.
pub proof fn law_sample_of_the_active_path_renews_its_measure(
    s: ControllerView,
    active: PathId,
    sample: PathMetrics,
)
    requires
        s.active_path == Some(active),
    ensures
        ({
            let t = observed(s, active, sample);
            &&& t.1 is KeptCurrent
            &&& t.0.active_metrics == Some(sample)
            &&& t.0.pending_candidate is None
            &&& t.0.active_path == s.active_path
            &&& t.0.flows == s.flows
            &&& t.0.path_mtu == s.path_mtu
            &&& t.0.last_change_reason == s.last_change_reason
            &&& t.0.config == s.config
        }),
{
}

/// Another path is held against the latest sample of the path in use: it is passed
/// over exactly where it does not improve on that sample by as much as is asked.
pub proof fn law_candidate_is_held_against_the_latest_sample(
    s: ControllerView,
    active: PathId,
    latest: PathMetrics,
    candidate: PathId,
    sample: PathMetrics,
)
    requires
        s.active_path == Some(active),
        candidate != active,
        s.config.required_better_samples > 0,
    ensures
        ({
            let t = observed(s, active, latest).0;
            let decision = observed(t, candidate, sample).1;
            let improves = cost(sample, candidate.kind) + s.config.minimum_score_improvement
                <= cost(latest, active.kind);
            &&& decision is KeptCurrent <==> !improves
            &&& improves && s.config.required_better_samples == 1 ==> decision is Switched
            &&& improves && s.config.required_better_samples > 1 ==> decision == (
            CandidateDecision::Pending {
                observed: 1,
                required: s.config.required_better_samples,
            })
        }),
{
}

/// What a sample of another path leads to: nothing where it is no improvement; a
/// longer run of improvements, or a new one; and a switch once the run is as long
/// as is asked.
pub proof fn law_run_of_improvements_switches(
    s: ControllerView,
    active: PathId,
    measure: PathMetrics,
    candidate: PathId,
    sample: PathMetrics,
)
    requires
        s.active_path == Some(active),
        s.active_metrics == Some(measure),
        candidate != active,
        s.config.required_better_samples > 0,
        s.pending_candidate matches Some(o) ==> o.consecutive_better_samples
            < s.config.required_better_samples,
    ensures
        ({
            let t = observed(s, candidate, sample);
            let improves = cost(sample, candidate.kind) + s.config.minimum_score_improvement
                <= cost(measure, active.kind);
            let run: int = if s.pending_candidate is Some && s.pending_candidate->0.path
                == candidate {
                s.pending_candidate->0.consecutive_better_samples + 1
            } else {
                1
            };
            &&& t.0.config == s.config
            &&& !improves || run < s.config.required_better_samples ==> {
                &&& t.0.active_path == s.active_path
                &&& t.0.active_metrics == s.active_metrics
                &&& t.0.flows == s.flows
                &&& t.0.path_mtu == s.path_mtu
                &&& t.0.last_change_reason == s.last_change_reason
            }
            &&& !improves ==> t.1 is KeptCurrent && t.0.pending_candidate is None
            &&& improves && run < s.config.required_better_samples ==> {
                &&& t.1 matches CandidateDecision::Pending { observed: n, required } && n == run
                    && required == s.config.required_better_samples
                &&& t.0.pending_candidate matches Some(o) && o.path == candidate
                    && o.consecutive_better_samples == run
            }
            &&& improves && run >= s.config.required_better_samples ==> {
                &&& t.1 is Switched
                &&& has_switched(s, t.0, candidate, sample)
                &&& t.0.last_change_reason == Some(PathChangeReason::SustainedImprovement)
            }
        }),
{
    if s.pending_candidate is Some {
        assert(s.pending_candidate->0.consecutive_better_samples < 255);
    }
    let t = observed(s, candidate, sample);
    if t.1 is Switched {
        assert(t.0.flows.dom() =~= s.flows.dom());
    }
}

/// One state follows another by a switch: every flow goes to the new path with the
/// time at which it was last seen, and the search for the packet size starts anew.
pub open spec fn has_switched(
    s: ControllerView,
    t: ControllerView,
    path: PathId,
    metrics: PathMetrics,
) -> bool {
    &&& t.active_path == Some(path)
    &&& t.active_metrics == Some(metrics)
    &&& t.pending_candidate is None
    &&& t.flows.dom() == s.flows.dom()
    &&& forall|k: FlowKey| #[trigger]
        t.flows.dom().contains(k) ==> t.flows[k].path == path && t.flows[k].last_seen_ms
            == s.flows[k].last_seen_ms
    &&& is_searched_anew(s.path_mtu, t.path_mtu)
    &&& t.config == s.config
}

/// A search for the packet size stands at its start, with the bounds that it had.
pub open spec fn is_searched_anew(before: PathMtuController, after: PathMtuController) -> bool {
    &&& after.base == before.base
    &&& after.maximum == before.maximum
    &&& after.step == before.step
    &&& after.confirmed == before.base
    &&& after.upper_bound == before.maximum
    &&& after.outstanding_probe is None
    &&& after.state is BaseOnly
}

/// Without a path the first candidate is taken at once, as the first path or as
/// the first after a change of the network.
pub proof fn law_first_candidate_is_taken_at_once(
    s: ControllerView,
    candidate: PathId,
    sample: PathMetrics,
)
    requires
        s.active_path is None,
    ensures
        observed(s, candidate, sample).1 is Switched,
        has_switched(s, observed(s, candidate, sample).0, candidate, sample),
        observed(s, candidate, sample).0.last_change_reason == Some(
            if s.last_change_reason == Some(PathChangeReason::NetworkChange) {
                PathChangeReason::NetworkChange
            } else {
                PathChangeReason::Initial
            },
        ),
{
    let t = observed(s, candidate, sample).0;
    assert(t.flows.dom() =~= s.flows.dom());
}

/// A failed path is left at once, whatever its successor costs.
pub proof fn law_failed_path_is_left_at_once(
    c: &mut FlowPathController,
    path: PathId,
    metrics: PathMetrics,
)
    requires
        call_ensures(FlowPathController::switch_after_failure, (c, path, metrics), ()),
    ensures
        has_switched(old(c)@, final(c)@, path, metrics),
        final(c)@.last_change_reason == Some(PathChangeReason::PathFailure),
{
    assert(final(c)@.flows.dom() =~= old(c)@.flows.dom());
}

/// An initial path is taken at once.
pub proof fn law_initial_path_is_taken_at_once(
    c: &mut FlowPathController,
    path: PathId,
    metrics: PathMetrics,
)
    requires
        call_ensures(FlowPathController::activate_initial, (c, path, metrics), ()),
    ensures
        has_switched(old(c)@, final(c)@, path, metrics),
        final(c)@.last_change_reason == Some(
            if old(c)@.last_change_reason == Some(PathChangeReason::NetworkChange) {
                PathChangeReason::NetworkChange
            } else {
                PathChangeReason::Initial
            },
        ),
{
    assert(final(c)@.flows.dom() =~= old(c)@.flows.dom());
}

/// A change of the network takes the path, its measure, every wait and every flow
/// away, and the packet size back to its start.
pub proof fn law_network_change_takes_everything_away(c: &mut FlowPathController)
    requires
        call_ensures(FlowPathController::invalidate_for_network_change, (c,), ()),
    ensures
        final(c)@.active_path is None,
        final(c)@.active_metrics is None,
        final(c)@.pending_candidate is None,
        final(c)@.flows == Map::<FlowKey, FlowBinding>::empty(),
        final(c)@.last_change_reason == Some(PathChangeReason::NetworkChange),
        final(c)@.config == old(c)@.config,
        is_searched_anew(old(c)@.path_mtu, final(c)@.path_mtu),
{
}

/// A sample goes into the controller as the decision on it says.
pub proof fn law_controller_follows_its_samples(
    c: &mut FlowPathController,
    candidate: PathId,
    sample: PathMetrics,
    d: CandidateDecision,
)
    requires
        call_ensures(FlowPathController::observe_candidate, (c, candidate, sample), d),
    ensures
        old(c)@.active_path == Some(candidate) ==> d is KeptCurrent && final(c)@.active_metrics
            == Some(sample) && final(c)@.active_path == Some(candidate) && final(c)@.flows == old(
            c,
        )@.flows,
        old(c)@.active_path is None ==> d is Switched && final(c)@.active_path == Some(candidate)
            && final(c)@.active_metrics == Some(sample),
        d is Switched <==> final(c)@.active_path == Some(candidate) && old(c)@.active_path != Some(
            candidate,
        ),
        d is Switched ==> has_switched(old(c)@, final(c)@, candidate, sample),
        !(d is Switched) ==> final(c)@.active_path == old(c)@.active_path && final(c)@.flows == old(
            c,
        )@.flows,
{
    if d is Switched {
        assert(final(c)@.flows.dom() =~= old(c)@.flows.dom());
    }
}

// ---------------------------------------------------------------------------
// Packets
// ---------------------------------------------------------------------------

/// A packet of version four, with its header, its full length and no fragment.
pub open spec fn is_whole_packet(p: Seq<u8>) -> bool {
    &&& p.len() >= 20
    &&& p[0] as int / 16 == 4
    &&& p[0] as int % 16 >= 5
    &&& p.len() >= 4 * (p[0] as int % 16)
    &&& 4 * (p[0] as int % 16) <= p[2] as int * 256 + p[3] as int <= p.len()
    &&& (p[6] as int * 256 + p[7] as int) % 0x4000 == 0
    &&& (p[9] == 6 || p[9] == 17) ==> p[2] as int * 256 + p[3] as int >= 4 * (p[0] as int % 16) + 4
}

pub(crate) proof fn lemma_two_bytes(p: Seq<u8>, at: int)
    requires
        0 <= at,
        at + 2 <= p.len(),
    ensures
        be_value(p.subrange(at, at + 2)) == p[at] as int * 256 + p[at + 1] as int,
{
    let s = p.subrange(at, at + 2);
    reveal_with_fuel(be_value, 3);
    assert(s.drop_last().drop_last() =~= Seq::<u8>::empty());
    assert(s.drop_last().last() == p[at]);
    assert(s.last() == p[at + 1]);
}

pub(crate) proof fn lemma_four_bytes(p: Seq<u8>, at: int)
    requires
        0 <= at,
        at + 4 <= p.len(),
    ensures
        be_value(p.subrange(at, at + 4)) == p[at] as int * 0x100_0000 + p[at + 1] as int * 0x1_0000
            + p[at + 2] as int * 0x100 + p[at + 3] as int,
{
    let s = p.subrange(at, at + 4);
    reveal_with_fuel(be_value, 3);
    assert(s.drop_last().drop_last() =~= p.subrange(at, at + 2));
    lemma_two_bytes(p, at);
    assert(s.drop_last().last() == p[at + 2]);
    assert(s.last() == p[at + 3]);
}

/// A packet is told by its addresses, its protocol and, where that has them, its
/// ports; only whole packets of version four are told at all.
pub proof fn law_flow_is_read_from_the_header(p: Seq<u8>)
    ensures
        flow_of(p) is Ok <==> is_whole_packet(p),
        flow_of(p) matches Ok(flow) ==> {
            let h = 4 * (p[0] as int % 16);
            &&& flow.source == p[12] as int * 0x100_0000 + p[13] as int * 0x1_0000 + p[14] as int
                * 0x100 + p[15] as int
            &&& flow.destination == p[16] as int * 0x100_0000 + p[17] as int * 0x1_0000
                + p[18] as int * 0x100 + p[19] as int
            &&& flow.protocol == p[9]
            &&& p[9] == 6 || p[9] == 17 ==> flow.source_port == p[h] as int * 256 + p[h + 1] as int
                && flow.destination_port == p[h + 2] as int * 256 + p[h + 3] as int
            &&& p[9] != 6 && p[9] != 17 ==> flow.source_port == 0 && flow.destination_port == 0
        },
{
    if p.len() >= 20 {
        lemma_two_bytes(p, 2);
        lemma_two_bytes(p, 6);
        lemma_four_bytes(p, 12);
        lemma_four_bytes(p, 16);
        let h = 4 * (p[0] as int % 16);
        if h + 4 <= p.len() {
            lemma_two_bytes(p, h);
            lemma_two_bytes(p, h + 2);
        }
    }
}

/// What becomes of a packet. Flows that were idle for longer than the timeout are
/// forgotten first. Without a path, on another path than the one in use, or above
/// the confirmed size it is dropped; otherwise a whole packet passes and marks its
/// flow as seen now, and no other flow is touched.
pub proof fn law_packets_pass_on_the_active_path_alone(
    c: &mut FlowPathController,
    packet: &[u8],
    path: PathId,
    now_ms: u64,
    r: Result<PacketDecision, FlowStabilityError>,
)
    requires
        call_ensures(FlowPathController::authorize_ipv4_packet, (c, packet, path, now_ms), r),
    ensures
        ({
            let s = old(c)@;
            let t = final(c)@;
            let fits = s.active_path == Some(path) && packet@.len() <= s.path_mtu.confirmed;
            let busy = |k: FlowKey|
                s.flows.dom().contains(k) && now_ms <= s.flows[k].last_seen_ms
                    + s.config.flow_idle_timeout_ms;
            &&& s.active_path is None ==> (r matches Ok(PacketDecision::DroppedNoPath))
            &&& s.active_path is Some && s.active_path != Some(path) ==> (r matches Ok(
                PacketDecision::DroppedPathMismatch,
            ))
            &&& s.active_path == Some(path) && packet@.len() > s.path_mtu.confirmed ==> (r matches
                Ok(PacketDecision::DroppedOversize { packet_len, path_mtu }) && packet_len
                == packet@.len() && path_mtu == s.path_mtu.confirmed)
            &&& fits && !is_whole_packet(packet@) ==> r is Err
            &&& fits && is_whole_packet(packet@) ==> (r matches Ok(
                PacketDecision::Allowed { flow, path: on },
            ) && flow_of(packet@) == Ok::<FlowKey, FlowErrorView>(flow) && on == path
                && t.flows.dom().contains(flow) && t.flows[flow].path == path
                && t.flows[flow].last_seen_ms == now_ms && (forall|k: FlowKey|
                k != flow ==> (#[trigger] t.flows.dom().contains(k) <==> busy(k)) && (
                t.flows.dom().contains(k) ==> t.flows[k] == s.flows[k])))
            &&& !(fits && is_whole_packet(packet@)) ==> forall|k: FlowKey|
                (#[trigger] t.flows.dom().contains(k) <==> busy(k)) && (t.flows.dom().contains(k)
                    ==> t.flows[k] == s.flows[k])
            &&& t.active_path == s.active_path
            &&& t.active_metrics == s.active_metrics
            &&& t.pending_candidate == s.pending_candidate
            &&& t.path_mtu == s.path_mtu
            &&& t.last_change_reason == s.last_change_reason
            &&& t.config == s.config
        }),
{
    law_flow_is_read_from_the_header(packet@);
    let s = old(c)@;
    let t = final(c)@;
    assert(packet@.len() == vstd::slice::spec_slice_len(packet));
    assert forall|k: FlowKey| busy_flows(s, now_ms).dom().contains(k) <==> (
    #[trigger] s.flows.dom().contains(k) && now_ms <= s.flows[k].last_seen_ms
        + s.config.flow_idle_timeout_ms) by {}
}

// ---------------------------------------------------------------------------
// The packet size
// ---------------------------------------------------------------------------

/// A search asks for one size at a time: a step above the confirmed one, or the
/// bound where that is nearer. It asks for nothing more once the bound is reached.
pub proof fn law_search_asks_one_step_up(c: &mut PathMtuController, r: Option<u16>)
    requires
        call_ensures(PathMtuController::next_probe, (c,), r),
    ensures
        final(c).confirmed == old(c).confirmed,
        final(c).upper_bound == old(c).upper_bound,
        final(c).base == old(c).base && final(c).maximum == old(c).maximum && final(c).step == old(
            c,
        ).step,
        r == final(c).outstanding_probe,
        old(c).outstanding_probe is Some ==> r == old(c).outstanding_probe && final(c).state == old(
            c,
        ).state,
        old(c).outstanding_probe is None && old(c).confirmed >= old(c).upper_bound ==> r is None
            && final(c).state is Confirmed,
        old(c).outstanding_probe is None && old(c).confirmed < old(c).upper_bound ==> r is Some
            && final(c).state is Searching && r->0 == if old(c).confirmed + old(c).step <= old(
            c,
        ).upper_bound {
            old(c).confirmed + old(c).step
        } else {
            old(c).upper_bound as int
        },
{
}

/// An answered probe confirms its size or lowers the bound below it; an answer to
/// another size than the one that was asked for counts for nothing.
pub proof fn law_answers_confirm_or_lower_the_bound(
    c: &mut PathMtuController,
    probe: u16,
    succeeded: bool,
    r: Result<(), FlowStabilityError>,
)
    requires
        call_ensures(PathMtuController::record_probe_result, (c, probe, succeeded), r),
    ensures
        r is Ok <==> old(c).outstanding_probe == Some(probe),
        r is Err ==> *final(c) == *old(c),
        r is Ok ==> final(c).outstanding_probe is None && final(c).base == old(c).base
            && final(c).maximum == old(c).maximum && final(c).step == old(c).step,
        r is Ok && succeeded ==> final(c).confirmed == probe && final(c).upper_bound == old(
            c,
        ).upper_bound && (probe >= old(c).maximum ==> final(c).state is Confirmed) && (probe < old(
            c,
        ).maximum ==> final(c).state == old(c).state),
        r is Ok && !succeeded ==> final(c).confirmed == old(c).confirmed
            && final(c).state is Confirmed && (old(c).confirmed < probe ==> final(c).upper_bound
            == probe - 1),
{
}

/// Starting anew goes back to the base size and the full range.
pub proof fn law_reset_search_starts_anew(c: &mut PathMtuController)
    requires
        call_ensures(PathMtuController::reset, (c,), ()),
    ensures
        is_searched_anew(*old(c), *final(c)),
{
}

// ---------------------------------------------------------------------------
// Settings and reports
// ---------------------------------------------------------------------------

/// Settings are taken exactly where they ask for a sample, a timeout and a step,
/// and their sizes are ordered and allowed by the protocol.
pub proof fn law_settings_make_sense(
    config: FlowStabilityConfig,
    r: Result<FlowStabilityConfig, FlowStabilityError>,
)
    requires
        call_ensures(FlowStabilityConfig::validate, (config,), r),
    ensures
        r is Ok <==> config.required_better_samples > 0 && config.flow_idle_timeout_ms > 0
            && config.base_path_mtu >= 576 && config.maximum_path_mtu >= config.base_path_mtu
            && config.mtu_probe_step > 0,
        r matches Ok(c) ==> c == config,
{
}

/// A new controller has no path, no measure and no flow, and starts its search.
pub proof fn law_new_controller_has_no_path(
    config: FlowStabilityConfig,
    r: Result<FlowPathController, FlowStabilityError>,
)
    requires
        call_ensures(FlowPathController::new, (config,), r),
    ensures
        r matches Ok(c) ==> {
            &&& c@.config == config
            &&& c@.active_path is None
            &&& c@.active_metrics is None
            &&& c@.pending_candidate is None
            &&& c@.last_change_reason is None
            &&& c@.flows == Map::<FlowKey, FlowBinding>::empty()
            &&& c@.path_mtu.confirmed == config.base_path_mtu
            &&& c@.path_mtu.upper_bound == config.maximum_path_mtu
            &&& c@.path_mtu.step == config.mtu_probe_step
            &&& c@.path_mtu.outstanding_probe is None
            &&& c@.path_mtu.state is BaseOnly
        },
{
}

/// A report tells the path in use, the latest sample of it, the flows and the
/// packet size.
pub proof fn law_report_tells_the_latest_sample(c: &FlowPathController, s: FlowPathSnapshot)
    requires
        call_ensures(FlowPathController::snapshot, (c,), s),
    ensures
        s.active_path == c@.active_path,
        s.active_flow_count == c@.flows.dom().len(),
        s.last_change_reason == c@.last_change_reason,
        s.path_mtu.confirmed_mtu == c@.path_mtu.confirmed,
        c@.active_metrics matches Some(m) ==> s.median_rtt_ms == Some(m.median_rtt_ms)
            && s.jitter_ms == Some(m.jitter_ms) && s.packet_loss_basis_points == Some(
            m.packet_loss_basis_points,
        ),
        c@.active_metrics is None ==> s.median_rtt_ms is None && s.jitter_ms is None
            && s.packet_loss_basis_points is None,
{
}

/// The settings by default: fifteen better by three samples, two minutes of
/// idleness, and a packet size from 1280 to 1472 in steps of 32.
pub proof fn law_default_settings(c: FlowStabilityConfig)
    requires
        call_ensures(FlowStabilityConfig::default, (), c),
    ensures
        c.minimum_score_improvement == 15,
        c.required_better_samples == 3,
        c.flow_idle_timeout_ms == 120_000,
        c.base_path_mtu == 1280,
        c.maximum_path_mtu == 1472,
        c.mtu_probe_step == 32,
{
}

/// Nothing is held against a path of which nothing is known.
pub proof fn law_unknown_path_costs_nothing(m: PathMetrics)
    requires
        call_ensures(PathMetrics::unknown, (), m),
    ensures
        cost(m, StablePathKind::Direct) == 0,
        m.median_rtt_ms == 0 && m.jitter_ms == 0 && m.packet_loss_basis_points == 0
            && m.nat_penalty_ms == 0,
{
}

/// A path in use without a measure is not left for another.
pub proof fn law_unmeasured_path_is_kept(s: ControllerView, candidate: PathId, sample: PathMetrics)
    requires
        s.active_path is Some,
        s.active_path->0.kind is Direct,
        s.active_path != Some(candidate),
        s.active_metrics is None,
        s.config.minimum_score_improvement > 0,
    ensures
        observed(s, candidate, sample).1 is KeptCurrent,
{
}

/// A controller asks for sizes and takes answers as its search does, and nothing
/// else of it changes.
pub proof fn law_controller_searches_its_packet_size(
    c: &mut FlowPathController,
    r: Option<u16>,
    d: &mut FlowPathController,
    probe: u16,
    succeeded: bool,
    answer: Result<(), FlowStabilityError>,
)
    requires
        call_ensures(FlowPathController::next_mtu_probe, (c,), r),
        call_ensures(FlowPathController::record_mtu_probe_result, (d, probe, succeeded), answer),
    ensures
        r == final(c)@.path_mtu.outstanding_probe,
        final(c)@.path_mtu.confirmed == old(c)@.path_mtu.confirmed,
        final(c)@.flows == old(c)@.flows,
        final(c)@.active_path == old(c)@.active_path,
        final(c)@.active_metrics == old(c)@.active_metrics,
        answer is Ok <==> old(d)@.path_mtu.outstanding_probe == Some(probe),
        answer is Ok && succeeded ==> final(d)@.path_mtu.confirmed == probe,
        answer is Ok && !succeeded ==> final(d)@.path_mtu.confirmed == old(d)@.path_mtu.confirmed,
        answer is Ok ==> final(d)@.path_mtu.outstanding_probe is None,
        answer is Err ==> final(d)@ == old(d)@,
        final(d)@.flows == old(d)@.flows,
        final(d)@.active_path == old(d)@.active_path,
{
}

/// A packet's flow is the one that its header tells, and a packet without one is
/// refused.
pub proof fn law_packet_gives_its_flow(packet: &[u8], r: Result<FlowKey, FlowStabilityError>)
    requires
        call_ensures(FlowKey::from_ipv4_packet, (packet,), r),
    ensures
        r is Ok <==> is_whole_packet(packet@),
        r matches Ok(flow) ==> flow_of(packet@) == Ok::<FlowKey, FlowErrorView>(flow),
        packet@.len() >= 20 && packet@[0] == 0x45 && packet@[2] as int * 256 + packet@[3] as int
            == packet@.len() && (packet@[6] as int * 256 + packet@[7] as int) % 0x4000 != 0
            ==> r is Err && r->Err_0@ is FragmentedPacket,
{
    law_flow_is_read_from_the_header(packet@);
    if packet@.len() >= 20 {
        lemma_two_bytes(packet@, 2);
        lemma_two_bytes(packet@, 6);
    }
}

} // verus!
