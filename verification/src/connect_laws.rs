//! What holds of every attempt to connect: which candidates are tried and in
//! what order, which record is dialled, who wins the race.

use crate::connect::{
    ConnectBasis, ConnectPlan, DirectProbeResult, Race, RaceEvent, RacePlan, RaceSettings, RaceStep,
    admit_by_acl, attempts_after, by_priority, candidate_matches_addr, choose_peer_record,
    conclude_connect, dial_verdict, direct_of, direct_order, exhausted_refusal, first_for,
    fold_observations, join_probe, keyless_attempts, latest_probe_failure_summary, law_direct_order,
    law_ranking_sorts, lemma_first_for_bounds, lemma_rank_splits, names, order_direct_candidates,
    order_plan, plan_race, probe_plans, race_result, race_window, rank, should_store, stands_for,
    weigh_registry_lookup, with_addresses, with_observations,
};
use crate::discovery::{
    CandidateEndpoint, CandidateType, CandidateView, PeerRecord, candidate_views,
};
use crate::dytallix_identity::{
    MeshTrustPolicy, RegistryDecision, RegistryNodeRecord, binding_verdict,
};
use crate::error::{QlinkError, QlinkErrorView, Result, error_text};
use crate::mdns_discovery::MdnsPeerObservation;
use crate::mesh_connection::{
    ConnectionOutcome, LastGoodCache, ObservationView, PeerRecordSource, ProbeAttempt,
    ProbeAttemptView, attempt_views, observation_views,
};
use crate::net::{SocketAddr, ip_text};
use crate::probe::{ProbeOutcomeRecord, ProbeOutcomeView, ProbeRecordView};
use crate::probe_laws::rest_of;
use crate::time::{Duration, Instant, MAX_NANOS};
use vstd::multiset::*;
use vstd::prelude::*;
use vstd::seq_lib::*;

verus! {

/// A live record is taken whenever the rendezvous has one, the stored one in every
/// other case, and without either nothing is dialled.
pub proof fn law_live_record_before_stored_one(
    remote_peer_id: &str,
    mesh_id: &str,
    lookup: Result<Option<PeerRecord>>,
    stored: Option<PeerRecord>,
    r: Result<(PeerRecord, PeerRecordSource)>,
)
    requires
        call_ensures(choose_peer_record, (remote_peer_id, mesh_id, lookup, stored), r),
    ensures
        r is Ok <==> (stored is Some || (lookup is Ok && lookup->Ok_0 is Some)),
        r is Ok && lookup is Ok && lookup->Ok_0 is Some ==> r->Ok_0.0 == lookup->Ok_0->0 && r->Ok_0.1
            == PeerRecordSource::RendezvousLive,
        r is Ok && !(lookup is Ok && lookup->Ok_0 is Some) ==> r->Ok_0.0 == stored->0 && r->Ok_0.1
            == PeerRecordSource::PeerStoreCache,
        r is Err && lookup is Err ==> r->Err_0@ == lookup->Err_0@,
{
}

// ---------------------------------------------------------------------------
// Which candidates are tried
// ---------------------------------------------------------------------------

proof fn lemma_direct_counts(endpoints: Seq<CandidateView>, c: CandidateView)
    ensures
        direct_of(endpoints).to_multiset().count(c) == if c.candidate_type == CandidateType::Relay {
            0
        } else {
            endpoints.to_multiset().count(c)
        },
    decreases endpoints.len(),
{
    endpoints.to_multiset_ensures();
    direct_of(endpoints).to_multiset_ensures();
    if endpoints.len() > 0 {
        let front = endpoints.drop_last();
        let x = endpoints.last();
        lemma_direct_counts(front, c);
        front.to_multiset_ensures();
        direct_of(front).to_multiset_ensures();
        assert(endpoints =~= front.push(x));
    }
}

/// What is tried are the host and server-reflexive candidates, each as often as
/// it is listed, and no relay.
pub proof fn law_all_but_relays_are_tried(
    endpoints: Seq<CandidateView>,
    cached: Option<SocketAddr>,
    c: CandidateView,
)
    ensures
        c.candidate_type == CandidateType::Host || c.candidate_type
            == CandidateType::ServerReflexive ==> direct_order(
            endpoints,
            cached,
        ).to_multiset().count(c) == endpoints.to_multiset().count(c),
        c.candidate_type == CandidateType::Relay ==> direct_order(
            endpoints,
            cached,
        ).to_multiset().count(c) == 0,
{
    law_direct_order(endpoints, cached);
    lemma_direct_counts(endpoints, c);
}

/// Without a cached address candidates are tried by falling priority.
pub proof fn law_higher_priority_is_tried_first(endpoints: Seq<CandidateView>, i: int, j: int)
    requires
        0 <= i < j < direct_order(endpoints, None).len(),
    ensures
        direct_order(endpoints, None)[i].priority >= direct_order(endpoints, None)[j].priority,
{
    law_direct_order(endpoints, None);
}

proof fn lemma_none_pass(s: Seq<CandidateView>, p: spec_fn(CandidateView) -> bool)
    requires
        forall|i: int| 0 <= i < s.len() ==> !p(#[trigger] s[i]),
    ensures
        s.filter(p) == Seq::<CandidateView>::empty(),
    decreases s.len(),
{
    reveal(Seq::filter);
    if s.len() > 0 {
        assert forall|i: int| 0 <= i < s.drop_last().len() implies !p(
            #[trigger] s.drop_last()[i],
        ) by {
            assert(s.drop_last()[i] == s[i]);
        }
        lemma_none_pass(s.drop_last(), p);
        assert(!p(s[s.len() - 1]));
    }
}

proof fn lemma_filter_one(x: CandidateView, p: spec_fn(CandidateView) -> bool)
    ensures
        seq![x].filter(p) == if p(x) {
            seq![x]
        } else {
            Seq::empty()
        },
{
    reveal(Seq::filter);
    assert(seq![x].drop_last() =~= Seq::<CandidateView>::empty());
    assert(Seq::<CandidateView>::empty().push(x) =~= seq![x]);
    assert(Seq::<CandidateView>::empty().filter(p) =~= Seq::<CandidateView>::empty());
}

proof fn lemma_filter_last(s: Seq<CandidateView>, p: spec_fn(CandidateView) -> bool)
    requires
        s.len() > 0,
    ensures
        s.filter(p) == if p(s.last()) {
            s.drop_last().filter(p).push(s.last())
        } else {
            s.drop_last().filter(p)
        },
{
    reveal(Seq::filter);
}

proof fn lemma_ranking_is_stable(candidates: Seq<CandidateView>, priority: u32)
    ensures
        by_priority(candidates).filter(|c: CandidateView| c.priority == priority)
            == candidates.filter(|c: CandidateView| c.priority == priority),
    decreases candidates.len(),
{
    let p = |c: CandidateView| c.priority == priority;
    if candidates.len() > 0 {
        let front = by_priority(candidates.drop_last());
        let x = candidates.last();
        lemma_ranking_is_stable(candidates.drop_last(), priority);
        law_ranking_sorts(candidates.drop_last());
        lemma_rank_splits(front, x.priority);
        let k = rank(front, x.priority);
        let head = front.subrange(0, k);
        let tail = front.subrange(k, front.len() as int);
        assert(front =~= head + tail);
        assert(front.insert(k, x) =~= (head + seq![x]) + tail);
        Seq::filter_distributes_over_add(head, tail, p);
        Seq::filter_distributes_over_add(head + seq![x], tail, p);
        Seq::filter_distributes_over_add(head, seq![x], p);
        lemma_filter_one(x, p);
        lemma_filter_last(candidates, p);
        if p(x) {
            assert forall|i: int| 0 <= i < tail.len() implies !p(#[trigger] tail[i]) by {
                assert(tail[i] == front[k + i]);
            }
            lemma_none_pass(tail, p);
            assert(front.filter(p) =~= head.filter(p));
            assert(front.insert(k, x).filter(p) =~= front.filter(p).push(x));
        } else {
            assert(front.insert(k, x).filter(p) =~= front.filter(p));
        }
    } else {
        assert(by_priority(candidates) =~= candidates);
    }
}

proof fn lemma_direct_keeps_order(endpoints: Seq<CandidateView>, priority: u32)
    ensures
        direct_of(endpoints).filter(|c: CandidateView| c.priority == priority)
            == endpoints.filter(
            |c: CandidateView|
                c.candidate_type != CandidateType::Relay && c.priority == priority,
        ),
    decreases endpoints.len(),
{
    let p = |c: CandidateView| c.priority == priority;
    let q = |c: CandidateView| c.candidate_type != CandidateType::Relay && c.priority == priority;
    if endpoints.len() > 0 {
        lemma_direct_keeps_order(endpoints.drop_last(), priority);
        lemma_filter_last(endpoints, q);
        let before = direct_of(endpoints.drop_last());
        if endpoints.last().candidate_type != CandidateType::Relay {
            let all = before.push(endpoints.last());
            assert(all.drop_last() =~= before);
            lemma_filter_last(all, p);
        }
    } else {
        assert(direct_of(endpoints) =~= endpoints);
        reveal(Seq::filter);
    }
}

/// Candidates of one priority are tried in the order in which they are listed.
pub proof fn law_equals_are_tried_in_their_order(endpoints: Seq<CandidateView>, priority: u32)
    ensures
        direct_order(endpoints, None).filter(|c: CandidateView| c.priority == priority)
            == endpoints.filter(
            |c: CandidateView|
                c.candidate_type != CandidateType::Relay && c.priority == priority,
        ),
{
    lemma_ranking_is_stable(direct_of(endpoints), priority);
    lemma_direct_keeps_order(endpoints, priority);
}

/// A cached address moves one candidate: the first that stands for it comes to
/// the front and the others stay as they were. Where none stands for it, nothing
/// moves.
pub proof fn law_cached_address_moves_one_candidate(endpoints: Seq<CandidateView>, addr: SocketAddr)
    ensures
        ({
            let plain = direct_order(endpoints, None);
            let tried = direct_order(endpoints, Some(addr));
            ||| {
                &&& tried == plain
                &&& forall|i: int|
                    0 <= i < plain.len() ==> !((#[trigger] plain[i]).ip == Some(addr.ip)
                        && plain[i].port == addr.port)
            }
            ||| exists|k: int|
                {
                    &&& 0 <= k < plain.len()
                    &&& (#[trigger] plain[k]).ip == Some(addr.ip)
                    &&& plain[k].port == addr.port
                    &&& forall|i: int|
                        0 <= i < k ==> !((#[trigger] plain[i]).ip == Some(addr.ip) && plain[i].port
                            == addr.port)
                    &&& tried == seq![plain[k]] + plain.subrange(0, k) + plain.subrange(
                        k + 1,
                        plain.len() as int,
                    )
                }
        }),
{
    let plain = direct_order(endpoints, None);
    lemma_first_for_bounds(plain, addr);
    let k = first_for(plain, addr);
    if k < plain.len() {
        assert(plain[k].ip == Some(addr.ip) && plain[k].port == addr.port);
        assert forall|i: int| 0 <= i < k implies !((#[trigger] plain[i]).ip == Some(addr.ip)
            && plain[i].port == addr.port) by {
            assert(!stands_for(plain[i], addr));
        }
        assert(direct_order(endpoints, Some(addr)) =~= seq![plain[k]] + plain.subrange(0, k)
            + plain.subrange(k + 1, plain.len() as int));
    } else {
        assert forall|i: int| 0 <= i < plain.len() implies !((#[trigger] plain[i]).ip == Some(
            addr.ip,
        ) && plain[i].port == addr.port) by {
            assert(!stands_for(plain[i], addr));
        }
    }
}

// ---------------------------------------------------------------------------
// What the local network adds
// ---------------------------------------------------------------------------

/// The candidates hold one that names an address.
pub open spec fn is_named(all: Seq<CandidateView>, addr: SocketAddr) -> bool {
    exists|i: int|
        0 <= i < all.len() && (#[trigger] all[i]).port == addr.port && all[i].address == ip_text(
            addr.ip,
        )
}

/// A candidate was made of an address that an observation with the right
/// fingerprint gives.
pub open spec fn was_observed(
    c: CandidateView,
    observations: Seq<ObservationView>,
    fingerprint: Seq<char>,
) -> bool {
    exists|k: int, j: int|
        0 <= k < observations.len() && 0 <= j < observations[k].addresses.len()
            && observations[k].announcement.public_key_fingerprint == fingerprint && c.ip == Some(
            (#[trigger] observations[k].addresses[j]).ip,
        ) && c.port == observations[k].addresses[j].port && c.address == ip_text(
            observations[k].addresses[j].ip,
        )
}

/// From a place on, no candidate repeats the address and port of one before it.
pub open spec fn is_new_from(all: Seq<CandidateView>, from: int) -> bool {
    forall|i: int, j: int|
        0 <= j < i < all.len() && from <= i ==> !((#[trigger] all[j]).port == (
        #[trigger] all[i]).port && all[j].address == all[i].address)
}

proof fn lemma_with_addresses(
    endpoints: Seq<CandidateView>,
    addresses: Seq<SocketAddr>,
    host_priority: u32,
)
    ensures
        ({
            let all = with_addresses(endpoints, addresses, host_priority);
            &&& all.len() >= endpoints.len()
            &&& all.subrange(0, endpoints.len() as int) == endpoints
            &&& forall|j: int|
                0 <= j < addresses.len() ==> is_named(all, #[trigger] addresses[j])
            &&& forall|i: int|
                endpoints.len() <= i < all.len() ==> {
                    let c = #[trigger] all[i];
                    &&& c.candidate_type == CandidateType::Host
                    &&& c.priority == host_priority
                    &&& exists|j: int|
                        0 <= j < addresses.len() && c.ip == Some((#[trigger] addresses[j]).ip)
                            && c.port == addresses[j].port && c.address == ip_text(addresses[j].ip)
                }
            &&& is_new_from(all, endpoints.len() as int)
        }),
    decreases addresses.len(),
{
    let all = with_addresses(endpoints, addresses, host_priority);
    if addresses.len() == 0 {
        assert(all.subrange(0, endpoints.len() as int) =~= endpoints);
    } else {
        let front = addresses.drop_last();
        let last = addresses.last();
        let before = with_addresses(endpoints, front, host_priority);
        lemma_with_addresses(endpoints, front, host_priority);
        assert(all.subrange(0, endpoints.len() as int) =~= before.subrange(
            0,
            endpoints.len() as int,
        ));
        assert forall|j: int| 0 <= j < addresses.len() implies is_named(
            all,
            #[trigger] addresses[j],
        ) by {
            if j < front.len() {
                assert(front[j] == addresses[j]);
                assert(is_named(before, front[j]));
                let i = choose|i: int|
                    0 <= i < before.len() && (#[trigger] before[i]).port == addresses[j].port
                        && before[i].address == ip_text(addresses[j].ip);
                assert(all[i] == before[i]);
            } else if exists|i: int| 0 <= i < before.len() && names(#[trigger] before[i], last) {
                let i = choose|i: int| 0 <= i < before.len() && names(#[trigger] before[i], last);
                assert(all[i] == before[i]);
            } else {
                assert(all[all.len() - 1].address == ip_text(last.ip));
            }
        }
        assert forall|i: int| endpoints.len() <= i < all.len() implies ({
            let c = #[trigger] all[i];
            &&& c.candidate_type == CandidateType::Host
            &&& c.priority == host_priority
            &&& exists|j: int|
                0 <= j < addresses.len() && c.ip == Some((#[trigger] addresses[j]).ip) && c.port
                    == addresses[j].port && c.address == ip_text(addresses[j].ip)
        }) by {
            let c = all[i];
            if i < before.len() {
                assert(c == before[i]);
                let j = choose|j: int|
                    0 <= j < front.len() && c.ip == Some((#[trigger] front[j]).ip) && c.port
                        == front[j].port && c.address == ip_text(front[j].ip);
                assert(addresses[j] == front[j]);
            } else {
                assert(c.ip == Some(addresses[addresses.len() - 1].ip));
            }
        }
        assert(is_new_from(all, endpoints.len() as int)) by {
            assert forall|i: int, j: int|
                0 <= j < i < all.len() && endpoints.len() <= i implies !((#[trigger] all[j]).port
                == (#[trigger] all[i]).port && all[j].address == all[i].address) by {
                assert(all[j] == before[j]);
                if i < before.len() {
                    assert(all[i] == before[i]);
                } else {
                    assert(!names(before[j], last));
                }
            }
        }
    }
}

/// The listed candidates come first and unchanged. Every address that was seen
/// with the right fingerprint is named afterwards. What was added is a host
/// candidate of the given priority for such an address, and for none that was named
/// already.
pub proof fn law_observations_add_seen_hosts(
    endpoints: Seq<CandidateView>,
    observations: Seq<ObservationView>,
    fingerprint: Seq<char>,
    host_priority: u32,
)
    ensures
        ({
            let all = with_observations(endpoints, observations, fingerprint, host_priority);
            &&& all.len() >= endpoints.len()
            &&& all.subrange(0, endpoints.len() as int) == endpoints
            &&& forall|k: int, j: int|
                0 <= k < observations.len() && 0 <= j < observations[k].addresses.len()
                    && observations[k].announcement.public_key_fingerprint == fingerprint
                    ==> is_named(all, #[trigger] observations[k].addresses[j])
            &&& forall|i: int|
                endpoints.len() <= i < all.len() ==> (#[trigger] all[i]).candidate_type
                    == CandidateType::Host && all[i].priority == host_priority && was_observed(
                    all[i],
                    observations,
                    fingerprint,
                )
            &&& is_new_from(all, endpoints.len() as int)
        }),
    decreases observations.len(),
{
    let all = with_observations(endpoints, observations, fingerprint, host_priority);
    if observations.len() == 0 {
        assert(all.subrange(0, endpoints.len() as int) =~= endpoints);
    } else {
        let front = observations.drop_last();
        let last = observations.last();
        let before = with_observations(endpoints, front, fingerprint, host_priority);
        law_observations_add_seen_hosts(endpoints, front, fingerprint, host_priority);
        lemma_with_addresses(before, last.addresses, host_priority);
        assert(all.len() >= before.len());
        assert forall|i: int| 0 <= i < before.len() implies all[i] == before[i] by {
            if all.len() > before.len() {
                assert(all.subrange(0, before.len() as int)[i] == all[i]);
            }
        }
        assert(all.subrange(0, endpoints.len() as int) =~= before.subrange(
            0,
            endpoints.len() as int,
        ));
        assert forall|k: int, j: int|
            0 <= k < observations.len() && 0 <= j < observations[k].addresses.len()
                && observations[k].announcement.public_key_fingerprint
                == fingerprint implies is_named(all, #[trigger] observations[k].addresses[j]) by {
            let addr = observations[k].addresses[j];
            if k < front.len() {
                assert(front[k] == observations[k]);
                assert(is_named(before, front[k].addresses[j]));
                let i = choose|i: int|
                    0 <= i < before.len() && (#[trigger] before[i]).port == addr.port
                        && before[i].address == ip_text(addr.ip);
                assert(all[i] == before[i]);
            } else {
                assert(last.addresses[j] == addr);
                assert(is_named(all, last.addresses[j]));
            }
        }
        assert forall|i: int| endpoints.len() <= i < all.len() implies (
        #[trigger] all[i]).candidate_type == CandidateType::Host && all[i].priority == host_priority
            && was_observed(all[i], observations, fingerprint) by {
            let c = all[i];
            if i < before.len() {
                assert(c == before[i]);
                let (k, j) = choose|k: int, j: int|
                    0 <= k < front.len() && 0 <= j < front[k].addresses.len()
                        && front[k].announcement.public_key_fingerprint == fingerprint && c.ip
                        == Some((#[trigger] front[k].addresses[j]).ip) && c.port
                        == front[k].addresses[j].port && c.address == ip_text(
                        front[k].addresses[j].ip,
                    );
                assert(observations[k] == front[k]);
                assert(c.ip == Some(observations[k].addresses[j].ip));
            } else {
                let j = choose|j: int|
                    0 <= j < last.addresses.len() && c.ip == Some(
                        (#[trigger] last.addresses[j]).ip,
                    ) && c.port == last.addresses[j].port && c.address == ip_text(
                        last.addresses[j].ip,
                    );
                let k = observations.len() - 1;
                assert(c.ip == Some(observations[k].addresses[j].ip));
            }
        }
        assert(is_new_from(all, endpoints.len() as int)) by {
            assert forall|i: int, j: int|
                0 <= j < i < all.len() && endpoints.len() <= i implies !((#[trigger] all[j]).port
                == (#[trigger] all[i]).port && all[j].address == all[i].address) by {
                if i < before.len() {
                    assert(all[j] == before[j]);
                    assert(all[i] == before[i]);
                } else {
                    assert(is_new_from(all, before.len() as int));
                }
            }
        }
    }
}

// ---------------------------------------------------------------------------
// The race
// ---------------------------------------------------------------------------

/// The candidates whose address can be dialled as it stands.
pub open spec fn dialable(candidates: Seq<CandidateView>) -> Seq<CandidateView> {
    candidates.filter(|c: CandidateView| c.ip is Some)
}

proof fn lemma_dialable_last(candidates: Seq<CandidateView>)
    requires
        candidates.len() > 0,
    ensures
        dialable(candidates) == if candidates.last().ip is Some {
            dialable(candidates.drop_last()).push(candidates.last())
        } else {
            dialable(candidates.drop_last())
        },
{
    lemma_filter_last(candidates, |c: CandidateView| c.ip is Some);
}

/// Every candidate with an address gets one probe, in the order of the candidates
/// and with the settings' limits.
pub proof fn law_every_dialable_candidate_gets_a_probe(
    settings: RaceSettings,
    candidates: Seq<CandidateView>,
)
    ensures
        probe_plans(settings, candidates).len() == dialable(candidates).len(),
        forall|n: int|
            0 <= n < dialable(candidates).len() ==> {
                let probe = #[trigger] probe_plans(settings, candidates)[n];
                let c = dialable(candidates)[n];
                &&& Some(probe.address.ip) == c.ip
                &&& probe.address.port == c.port
                &&& probe.candidate_type == c.candidate_type
                &&& probe.priority == c.priority
                &&& probe.probe_timeout == settings.direct_probe_timeout
                &&& probe.overall_deadline == settings.overall_deadline
                &&& probe.connect_started == settings.connect_started
                &&& probe.check_path == settings.check_path
                &&& settings.ice_check_timeout is Some ==> Some(probe.ice_check_timeout)
                    == settings.ice_check_timeout
                &&& settings.ice_check_timeout is None ==> probe.ice_check_timeout
                    == settings.direct_probe_timeout
            },
    decreases candidates.len(),
{
    if candidates.len() > 0 {
        law_every_dialable_candidate_gets_a_probe(settings, candidates.drop_last());
        lemma_dialable_last(candidates);
    } else {
        reveal(Seq::filter);
    }
}

proof fn lemma_dialable_grows(candidates: Seq<CandidateView>, i: int, j: int)
    requires
        0 <= i <= j <= candidates.len(),
    ensures
        dialable(candidates.take(i)).len() <= dialable(candidates.take(j)).len(),
    decreases j - i,
{
    if i < j {
        let t = candidates.take(j);
        assert(t.drop_last() =~= candidates.take(j - 1));
        lemma_dialable_last(t);
        lemma_dialable_grows(candidates, i, j - 1);
    }
}

/// A candidate's probe waits for as many pacing intervals as candidates stand
/// before it, dialable or not, and never for longer than a duration can say.
pub proof fn law_probes_wait_their_turn(
    settings: RaceSettings,
    candidates: Seq<CandidateView>,
    i: int,
)
    requires
        0 <= i < candidates.len(),
        i < 0x1_0000_0000,
        candidates[i].ip is Some,
    ensures
        ({
            let n = dialable(candidates.take(i)).len() as int;
            let wait = probe_plans(settings, candidates)[n].pacing_offset.nanos;
            &&& n < probe_plans(settings, candidates).len()
            &&& settings.probe_pacing.nanos * i <= MAX_NANOS ==> wait
                == settings.probe_pacing.nanos * i
            &&& settings.probe_pacing.nanos * i > MAX_NANOS ==> wait == MAX_NANOS
        }),
    decreases candidates.len(),
{
    law_every_dialable_candidate_gets_a_probe(settings, candidates);
    let front = candidates.drop_last();
    let n = dialable(candidates.take(i)).len() as int;
    lemma_dialable_last(candidates);
    law_every_dialable_candidate_gets_a_probe(settings, front);
    if i < candidates.len() - 1 {
        law_probes_wait_their_turn(settings, front, i);
        assert(front.take(i) =~= candidates.take(i));
        let t = candidates.take(i + 1);
        assert(t.drop_last() =~= candidates.take(i));
        lemma_dialable_last(t);
        lemma_dialable_grows(candidates, i + 1, candidates.len() - 1);
        assert(candidates.take(candidates.len() - 1) =~= front);
        assert(n < dialable(front).len());
        assert(probe_plans(settings, candidates)[n] == probe_plans(settings, front)[n]);
    } else {
        assert(candidates.take(i) =~= front);
        assert(i % 0x1_0000_0000 == i);
        assert(settings.probe_pacing.nanos * i >= 0) by (nonlinear_arith)
            requires
                i >= 0,
        ;
    }
}

/// Without a device key every dialable candidate is reported as a failure, in the
/// order of the candidates.
pub proof fn law_keyless_race_fails_everywhere(candidates: Seq<CandidateView>)
    ensures
        keyless_attempts(candidates).len() == dialable(candidates).len(),
        forall|n: int|
            0 <= n < dialable(candidates).len() ==> {
                let attempt = #[trigger] keyless_attempts(candidates)[n];
                let c = dialable(candidates)[n];
                &&& Some(attempt.address.ip) == c.ip
                &&& attempt.address.port == c.port
                &&& attempt.candidate_type == c.candidate_type
                &&& attempt.elapsed.nanos == 0
                &&& attempt.outcome == ProbeOutcomeView::Failed(
                    "direct PQC session requires local_device_keypair"@,
                )
                &&& attempt.quic_connect_elapsed is None
                &&& attempt.identity_assertion_elapsed is None
                &&& attempt.ice_round_trip is None
                &&& attempt.peer_reflexive_address is None
            },
    decreases candidates.len(),
{
    if candidates.len() > 0 {
        law_keyless_race_fails_everywhere(candidates.drop_last());
        lemma_dialable_last(candidates);
    } else {
        reveal(Seq::filter);
    }
}

/// Probes start exactly where there is a candidate, a certificate of the peer and
/// a device key.
pub proof fn law_race_needs_candidate_certificate_and_key(
    settings: &RaceSettings,
    candidates: &Vec<CandidateEndpoint>,
    plan: RacePlan,
)
    requires
        call_ensures(plan_race, (settings, candidates), plan),
    ensures
        plan is Launch <==> candidates@.len() > 0 && settings.has_certificate
            && settings.has_keypair,
        plan is Exhausted && (candidates@.len() == 0 || !settings.has_certificate)
            ==> plan->attempts@.len() == 0,
        plan is Exhausted && candidates@.len() > 0 && settings.has_certificate
            ==> plan->attempts@.len() == dialable(candidate_views(candidates@)).len(),
{
    law_keyless_race_fails_everywhere(candidate_views(candidates@));
    if plan is Exhausted && candidates@.len() > 0 && settings.has_certificate {
        assert(attempt_views(plan->attempts@).len() == plan->attempts@.len());
    }
}

/// What is reported of ended probes: those that were launched and have an address.
pub open spec fn reported(records: Seq<ProbeRecordView>) -> Seq<ProbeAttemptView> {
    records.filter(|r: ProbeRecordView| r.launched && r.address is Some).map_values(
        |r: ProbeRecordView|
            ProbeAttemptView {
                candidate_type: r.candidate_type,
                address: r.address->0,
                elapsed: r.elapsed,
                outcome: r.outcome,
                quic_connect_elapsed: r.quic_connect_elapsed,
                identity_assertion_elapsed: r.identity_assertion_elapsed,
                ice_round_trip: r.ice_round_trip,
                peer_reflexive_address: r.peer_reflexive_address,
            },
    )
}

proof fn lemma_reported_last(records: Seq<ProbeRecordView>)
    requires
        records.len() > 0,
    ensures
        reported(records) == attempts_after(reported(records.drop_last()), records.last()),
{
    reveal(Seq::filter);
    assert(reported(records) =~= attempts_after(reported(records.drop_last()), records.last()));
}

/// As long as no probe with an address was established, nobody has won and every
/// launched probe is reported.
pub proof fn law_race_goes_on_without_a_winner(records: Seq<ProbeRecordView>)
    requires
        forall|i: int|
            0 <= i < records.len() ==> !((#[trigger] records[i]).outcome is Established
                && records[i].address is Some),
    ensures
        race_result(records).0 is None,
        race_result(records).1 == reported(records),
    decreases records.len(),
{
    if records.len() > 0 {
        let front = records.drop_last();
        assert forall|i: int| 0 <= i < front.len() implies !((
        #[trigger] front[i]).outcome is Established && front[i].address is Some) by {
            assert(front[i] == records[i]);
        }
        law_race_goes_on_without_a_winner(front);
        assert(records.last() == records[records.len() - 1]);
        lemma_reported_last(records);
    } else {
        reveal(Seq::filter);
        assert(reported(records) =~= Seq::empty());
    }
}

/// The first established probe wins: its address is the result, and what came
/// after it changes nothing.
pub proof fn law_first_established_probe_wins(records: Seq<ProbeRecordView>, k: int)
    requires
        0 <= k < records.len(),
        records[k].outcome is Established,
        records[k].address is Some,
        forall|i: int|
            0 <= i < k ==> !((#[trigger] records[i]).outcome is Established
                && records[i].address is Some),
    ensures
        race_result(records).0 == records[k].address,
        race_result(records).1 == reported(records.take(k + 1)),
    decreases records.len(),
{
    let front = records.drop_last();
    if k < records.len() - 1 {
        assert forall|i: int| 0 <= i < k implies !((#[trigger] front[i]).outcome is Established
            && front[i].address is Some) by {
            assert(front[i] == records[i]);
        }
        assert(front[k] == records[k]);
        law_first_established_probe_wins(front, k);
        assert(front.take(k + 1) =~= records.take(k + 1));
    } else {
        assert(records.take(k + 1) =~= records);
        assert forall|i: int| 0 <= i < front.len() implies !((
        #[trigger] front[i]).outcome is Established && front[i].address is Some) by {
            assert(front[i] == records[i]);
        }
        law_race_goes_on_without_a_winner(front);
        lemma_reported_last(records);
    }
}

/// A step of the race ends it with the address of an established probe, ends it
/// without one where none is left or time is up, and otherwise waits.
pub proof fn law_race_ends_by_a_winner_or_by_exhaustion(race: Race, event: RaceEvent, step: RaceStep)
    requires
        call_ensures(Race::next, (race, event), step),
    ensures
        ({
            let won = match event {
                RaceEvent::Ended(record) => record@.outcome is Established
                    && record@.address is Some,
                _ => false,
            };
            let spent = event is NoneLeft || event is DeadlinePassed;
            &&& won ==> (step matches RaceStep::Over(
                DirectProbeResult::Established { address, .. },
            ) && Some(address) == event->Ended_0@.address)
            &&& spent ==> (step matches RaceStep::Over(
                DirectProbeResult::Exhausted { attempts },
            ) && attempts == race.attempts)
            &&& !won && !spent ==> step is Wait
        }),
{
}

// ---------------------------------------------------------------------------
// Who may be dialled
// ---------------------------------------------------------------------------

/// An access list that says no is obeyed; without a list, or where it says yes,
/// the peer passes.
pub proof fn law_access_list_is_obeyed(
    remote_peer_id: &str,
    decision: Option<(bool, String)>,
    r: Result<()>,
)
    requires
        call_ensures(admit_by_acl, (remote_peer_id, decision), r),
    ensures
        decision is None ==> r is Ok,
        decision matches Some(said) ==> (r is Ok <==> said.0),
        decision matches Some(said) ==> (r matches Err(e) ==> e@ == QlinkErrorView::Protocol(
            "peer "@ + remote_peer_id@ + " rejected by ACL: "@ + said.1@,
        )),
{
}

/// A record is stored exactly where it came live and was verified.
pub proof fn law_only_verified_live_records_are_stored(
    source: PeerRecordSource,
    verified: bool,
    b: bool,
)
    requires
        call_ensures(should_store, (source, verified), b),
    ensures
        b <==> source is RendezvousLive && verified,
{
}

/// A peer is judged by the record that a lookup gave, and as one without a record
/// where there was no lookup. A failed lookup ends the dial on a public mesh and
/// counts as no record on the others.
pub proof fn law_verdict_goes_by_the_lookup(
    record: PeerRecord,
    answer: Option<RegistryNodeRecord>,
    failure: QlinkError,
    policy: MeshTrustPolicy,
    now_unix: u64,
)
    ensures
        dial_verdict(record, Some(Ok(answer)), policy, now_unix) == binding_verdict(
            record,
            answer,
            policy,
            now_unix,
        ),
        dial_verdict(record, None, policy, now_unix) == binding_verdict(
            record,
            None,
            policy,
            now_unix,
        ),
        policy is PublicRequired ==> dial_verdict(record, Some(Err(failure)), policy, now_unix)
            == Err::<RegistryDecision, QlinkErrorView>(
            QlinkErrorView::Protocol("identity registry lookup failed: "@ + error_text(failure@)),
        ),
        !(policy is PublicRequired) ==> dial_verdict(record, Some(Err(failure)), policy, now_unix)
            == binding_verdict(record, None, policy, now_unix),
{
}

/// A failed dial says who was dialled and whether a relay stands by, and ends its
/// account with the last attempt where there was one.
pub proof fn law_failed_dial_tells_its_last_attempt(
    peer_id: Seq<char>,
    attempts: Seq<ProbeAttemptView>,
    reason: Seq<char>,
    server: Seq<char>,
)
    ensures
        attempts.len() == 0 ==> exhausted_refusal(peer_id, attempts, None)
            == QlinkErrorView::Protocol(
            "no direct candidate for peer "@ + peer_id
                + " succeeded and no relay server is configured"@,
        ),
        attempts.len() > 0 && (attempts.last().outcome == ProbeOutcomeView::Failed(reason)
            || attempts.last().outcome == ProbeOutcomeView::IceFailed(reason)
            || (attempts.last().outcome is TimedOut && reason == "timed out"@))
            ==> exhausted_refusal(peer_id, attempts, None) == QlinkErrorView::Protocol(
            "no direct candidate for peer "@ + peer_id + " succeeded; last direct failure: "@
                + reason + " and no relay server is configured"@,
        ),
        attempts.len() > 0 && (attempts.last().outcome == ProbeOutcomeView::Failed(reason)
            || attempts.last().outcome == ProbeOutcomeView::IceFailed(reason)
            || (attempts.last().outcome is TimedOut && reason == "timed out"@))
            ==> exhausted_refusal(peer_id, attempts, Some(server)) == QlinkErrorView::Protocol(
            "relay PQC session is required for peer "@ + peer_id + "; raw relay fallback via "@
                + server + " is disabled; last direct failure: "@ + reason,
        ),
        attempts.len() == 0 ==> exhausted_refusal(peer_id, attempts, Some(server))
            == QlinkErrorView::Protocol(
            "relay PQC session is required for peer "@ + peer_id + "; raw relay fallback via "@
                + server + " is disabled"@,
        ),
{
    reveal_strlit(" succeeded");
    reveal_strlit(" and no relay server is configured");
    reveal_strlit(" succeeded and no relay server is configured");
    reveal_strlit("; last direct failure: ");
    reveal_strlit(" succeeded; last direct failure: ");
    reveal_strlit(" is disabled");
    reveal_strlit(" is disabled; last direct failure: ");
    assert(" succeeded"@ + " and no relay server is configured"@
        =~= " succeeded and no relay server is configured"@);
    assert(" succeeded"@ + "; last direct failure: "@ =~= " succeeded; last direct failure: "@);
    assert(" is disabled"@ + "; last direct failure: "@
        =~= " is disabled; last direct failure: "@);
    let a = "no direct candidate for peer "@ + peer_id;
    let b = "relay PQC session is required for peer "@ + peer_id + "; raw relay fallback via "@
        + server;
    assert(a + " succeeded"@ + Seq::empty() + " and no relay server is configured"@ =~= a + (
    " succeeded"@ + " and no relay server is configured"@));
    assert(a + " succeeded"@ + ("; last direct failure: "@ + reason)
        + " and no relay server is configured"@ =~= a + (" succeeded"@
        + "; last direct failure: "@) + reason + " and no relay server is configured"@);
    assert(b + " is disabled"@ + ("; last direct failure: "@ + reason) =~= b + (" is disabled"@
        + "; last direct failure: "@) + reason);
    assert(b + " is disabled"@ + Seq::empty() =~= b + " is disabled"@);
}

/// A won race is remembered as the peer's last good path, and the outcome tells
/// that path.
pub proof fn law_won_path_is_remembered(
    cache: &mut LastGoodCache,
    remote_peer_id: &str,
    basis: ConnectBasis,
    race: DirectProbeResult,
    relay_server: Option<&str>,
    total_elapsed: Duration,
    now: Instant,
    r: Result<ConnectionOutcome>,
)
    requires
        call_ensures(
            conclude_connect,
            (cache, remote_peer_id, basis, race, relay_server, total_elapsed, now),
            r,
        ),
    ensures
        r is Ok <==> race is Established,
        race is Established ==> final(cache)@.dom().contains(remote_peer_id@)
            && final(cache)@[remote_peer_id@].address == race->address
            && final(cache)@[remote_peer_id@].last_used == now,
        race is Exhausted && basis.had_direct_candidates ==> !final(cache)@.dom().contains(
            remote_peer_id@,
        ),
        race is Exhausted && !basis.had_direct_candidates ==> final(cache)@ == old(cache)@,
        forall|other: Seq<char>|
            other != remote_peer_id@ ==> (final(cache)@.dom().contains(other) <==> old(
                cache,
            )@.dom().contains(other)),
        r matches Ok(outcome) ==> outcome.path_kind is Direct && outcome.remote_addr == Some(
            race->address,
        ) && outcome.remote_peer_id@ == remote_peer_id@ && outcome.total_elapsed == total_elapsed
            && outcome.used_cached_path == basis.used_cached_path && outcome.registry_decision
            == basis.registry_decision && outcome.peer_record_source == basis.peer_record_source,
{
}

/// The order of tries holds every host and server-reflexive endpoint as often as
/// it is listed and no relay; without a cached address it falls in priority, and
/// with one that an endpoint stands for it starts there.
pub proof fn law_order_of_tries(
    endpoints: &Vec<CandidateEndpoint>,
    cached: Option<SocketAddr>,
    direct: Vec<CandidateEndpoint>,
)
    requires
        call_ensures(order_direct_candidates, (endpoints, cached), direct),
    ensures
        ({
            let listed = candidate_views(endpoints@);
            let tried = candidate_views(direct@);
            &&& forall|c: CandidateView|
                c.candidate_type != CandidateType::Relay ==> #[trigger] tried.to_multiset().count(c)
                    == listed.to_multiset().count(c)
            &&& forall|c: CandidateView|
                c.candidate_type == CandidateType::Relay ==> #[trigger] tried.to_multiset().count(c)
                    == 0
            &&& cached is None ==> forall|i: int, j: int|
                0 <= i < j < direct@.len() ==> (#[trigger] direct@[i]).priority >= (
                #[trigger] direct@[j]).priority
            &&& cached matches Some(addr) ==> forall|i: int|
                0 <= i < direct@.len() && (#[trigger] direct@[i])@.ip == Some(addr.ip)
                    && direct@[i]@.port == addr.port ==> direct@[0]@.ip == Some(addr.ip)
                    && direct@[0]@.port == addr.port
        }),
{
    let listed = candidate_views(endpoints@);
    let tried = candidate_views(direct@);
    assert forall|c: CandidateView| c.candidate_type != CandidateType::Relay implies #[trigger] tried
        .to_multiset().count(c) == listed.to_multiset().count(c) by {
        law_all_but_relays_are_tried(listed, cached, c);
    }
    assert forall|c: CandidateView| c.candidate_type == CandidateType::Relay implies #[trigger] tried
        .to_multiset().count(c) == 0 by {
        law_all_but_relays_are_tried(listed, cached, c);
    }
    if cached is None {
        assert forall|i: int, j: int| 0 <= i < j < direct@.len() implies (
        #[trigger] direct@[i]).priority >= (#[trigger] direct@[j]).priority by {
            law_higher_priority_is_tried_first(listed, i, j);
            assert(tried[i] == direct@[i]@ && tried[j] == direct@[j]@);
        }
    }
    if let Some(addr) = cached {
        law_cached_address_moves_one_candidate(listed, addr);
        let plain = direct_order(listed, None);
        assert forall|i: int|
            0 <= i < direct@.len() && (#[trigger] direct@[i])@.ip == Some(addr.ip)
                && direct@[i]@.port == addr.port implies direct@[0]@.ip == Some(addr.ip)
            && direct@[0]@.port == addr.port by {
            assert(tried[i] == direct@[i]@);
            assert(tried[0] == direct@[0]@);
            if tried == plain {
                assert(plain[i].ip == Some(addr.ip));
            }
        }
    }
}

/// The endpoints with what the local network adds start as they were listed, name
/// every address that was seen with the right fingerprint, and hold nothing else.
pub proof fn law_folded_observations(
    endpoints: &Vec<CandidateEndpoint>,
    observations: &Vec<MdnsPeerObservation>,
    fingerprint: &str,
    host_priority: u32,
    all: Vec<CandidateEndpoint>,
)
    requires
        call_ensures(fold_observations, (endpoints, observations, fingerprint, host_priority), all),
    ensures
        all@.len() >= endpoints@.len(),
        forall|i: int| 0 <= i < endpoints@.len() ==> (#[trigger] all@[i])@ == endpoints@[i]@,
        forall|k: int, j: int|
            0 <= k < observations@.len() && 0 <= j < observations@[k].addresses@.len()
                && observations@[k].announcement.public_key_fingerprint@ == fingerprint@
                ==> is_named(candidate_views(all@), #[trigger] observations@[k].addresses@[j]),
        forall|i: int|
            endpoints@.len() <= i < all@.len() ==> (
            #[trigger] all@[i])@.candidate_type is Host && all@[i]@.priority == host_priority
                && was_observed(all@[i]@, observation_views(observations@), fingerprint@),
        is_new_from(candidate_views(all@), endpoints@.len() as int),
{
    let listed = candidate_views(endpoints@);
    let seen = observation_views(observations@);
    let views = candidate_views(all@);
    law_observations_add_seen_hosts(listed, seen, fingerprint@, host_priority);
    assert(views.len() == all@.len());
    assert forall|i: int| 0 <= i < endpoints@.len() implies (#[trigger] all@[i])@
        == endpoints@[i]@ by {
        assert(views.subrange(0, listed.len() as int)[i] == listed[i]);
        assert(views[i] == all@[i]@);
    }
    assert forall|k: int, j: int|
        0 <= k < observations@.len() && 0 <= j < observations@[k].addresses@.len()
            && observations@[k].announcement.public_key_fingerprint@
            == fingerprint@ implies is_named(views, #[trigger] observations@[k].addresses@[j]) by {
        assert(seen[k] == observations@[k]@);
        assert(is_named(views, seen[k].addresses[j]));
    }
    assert forall|i: int| endpoints@.len() <= i < all@.len() implies (
    #[trigger] all@[i])@.candidate_type is Host && all@[i]@.priority == host_priority
        && was_observed(all@[i]@, seen, fingerprint@) by {
        assert(views[i] == all@[i]@);
    }
}

/// A plan rests on what it was made of: the registry's decision, where the record
/// came from, whether a path was cached and whether there is anything to dial.
pub proof fn law_plan_tells_its_basis(
    record: &PeerRecord,
    source: PeerRecordSource,
    decision: RegistryDecision,
    observations: &Vec<MdnsPeerObservation>,
    cached_addr: Option<SocketAddr>,
    host_priority: u32,
    plan: ConnectPlan,
)
    requires
        call_ensures(
            order_plan,
            (record, source, decision, observations, cached_addr, host_priority),
            plan,
        ),
    ensures
        plan.basis.registry_decision == decision,
        plan.basis.peer_record_source == source,
        plan.basis.used_cached_path <==> cached_addr is Some,
        plan.basis.had_direct_candidates <==> plan.candidates@.len() > 0,
        forall|i: int|
            0 <= i < record.body.endpoints@.len() && (
            #[trigger] record.body.endpoints@[i]).candidate_type != CandidateType::Relay
                ==> candidate_views(plan.candidates@).contains(record.body.endpoints@[i]@),
{
    let listed = candidate_views(record.body.endpoints@);
    let seen = observation_views(observations@);
    let fingerprint = record.body.device_public_key.fingerprint@;
    let all = with_observations(listed, seen, fingerprint, host_priority);
    let order = candidate_views(plan.candidates@);
    law_observations_add_seen_hosts(listed, seen, fingerprint, host_priority);
    all.to_multiset_ensures();
    order.to_multiset_ensures();
    assert forall|i: int|
        0 <= i < record.body.endpoints@.len() && (
        #[trigger] record.body.endpoints@[i]).candidate_type
            != CandidateType::Relay implies order.contains(record.body.endpoints@[i]@) by {
        assert(all.subrange(0, listed.len() as int)[i] == listed[i]);
        assert(all[i] == record.body.endpoints@[i]@);
        law_all_but_relays_are_tried(all, cached_addr, all[i]);
        assert(all.contains(all[i]));
        assert(all.to_multiset().count(all[i]) > 0);
    }
}

/// A candidate matches an address by its own address and port.
pub proof fn law_candidate_matches_by_address_and_port(
    candidate: &CandidateEndpoint,
    addr: SocketAddr,
    b: bool,
)
    requires
        call_ensures(candidate_matches_addr, (candidate, addr), b),
    ensures
        b <==> candidate.ip == Some(addr.ip) && candidate.port == addr.port,
{
}

/// An ended probe is reported where it was launched and has an address, and wins
/// where it was established.
pub proof fn law_joined_probe_is_reported(
    attempts: &mut Vec<ProbeAttempt>,
    record: ProbeOutcomeRecord,
    won: Option<SocketAddr>,
)
    requires
        call_ensures(join_probe, (attempts, record), won),
    ensures
        won is Some <==> record@.outcome is Established && record@.address is Some,
        won is Some ==> won == record@.address,
        record@.launched && record@.address is Some ==> final(attempts)@.len() == old(
            attempts,
        )@.len() + 1 && Some(final(attempts)@.last()@.address) == record@.address
            && final(attempts)@.last()@.outcome == record@.outcome
            && final(attempts)@.last()@.elapsed == record@.elapsed,
        !record@.launched || record@.address is None ==> final(attempts)@.len() == old(
            attempts,
        )@.len(),
{
    let after = attempt_views(final(attempts)@);
    let before = attempt_views(old(attempts)@);
    assert(after.len() == final(attempts)@.len());
    assert(before.len() == old(attempts)@.len());
    if record@.launched && record@.address is Some {
        assert(after.last() == final(attempts)@.last()@);
    }
}

/// A race may take what is left of the whole attempt.
pub proof fn law_race_takes_what_is_left(
    overall_deadline: Duration,
    connect_started: Instant,
    now: Instant,
    d: Duration,
)
    requires
        call_ensures(race_window, (overall_deadline, connect_started, now), d),
    ensures
        d.nanos == rest_of(overall_deadline, connect_started, now),
{
}

/// The last attempt tells why a race was lost.
pub proof fn law_last_attempt_tells_why(attempts: &Vec<ProbeAttempt>, r: Option<String>)
    requires
        call_ensures(latest_probe_failure_summary, (attempts,), r),
    ensures
        r is None <==> attempts@.len() == 0,
        attempts@.len() > 0 ==> (attempts@.last().outcome@ matches ProbeOutcomeView::Failed(reason)
            ==> r->0@ == reason),
        attempts@.len() > 0 ==> (attempts@.last().outcome@ matches ProbeOutcomeView::IceFailed(
            reason,
        ) ==> r->0@ == reason),
        attempts@.len() > 0 && attempts@.last().outcome@ is TimedOut ==> r->0@ == "timed out"@,
{
}

/// A failed lookup in the registry ends the dial on a public mesh alone.
pub proof fn law_weighed_lookup(
    lookup: Option<Result<Option<RegistryNodeRecord>>>,
    policy: MeshTrustPolicy,
    r: Result<Option<RegistryNodeRecord>>,
)
    requires
        call_ensures(weigh_registry_lookup, (lookup, policy), r),
    ensures
        r is Err <==> lookup is Some && lookup->0 is Err && policy is PublicRequired,
        lookup is None ==> r == Ok::<Option<RegistryNodeRecord>, QlinkError>(None),
        lookup matches Some(Ok(record)) ==> r == Ok::<Option<RegistryNodeRecord>, QlinkError>(
            record,
        ),
        lookup matches Some(Err(_)) ==> (!(policy is PublicRequired) ==> r == Ok::<
            Option<RegistryNodeRecord>,
            QlinkError,
        >(None)),
{
}

} // verus!
