//! A connector: what it remembers, and how it goes from a peer id to a link.
//! The caller does the outside work that each step asks for.

use crate::connect::{
    ConnectBasis, ConnectPlan, DirectProbeResult, Race, RacePlan, RaceSettings, admit_by_acl,
    choose_peer_record, conclude_connect, dial_verdict, direct_order, exhausted_refusal,
    keyless_attempts, law_public_mesh_dials_only_the_bound, order_plan, plan_race, probe_plans,
    should_store, weigh_registry_lookup, with_observations,
};
use crate::discovery::{CandidateView, PeerRecord, candidate_views};
use crate::dytallix_identity::{
    MeshTrustPolicy, RegistryDecision, RegistryNodeRecord, binding_verdict, verify_registry_binding,
};
use crate::error::{QlinkError, QlinkErrorView, Result};
use crate::mdns_discovery::MdnsPeerObservation;
use crate::mesh_connection::{
    CachedPath, ConnectionOutcome, DEFAULT_MDNS_OBSERVATION_TTL_NANOS, LastGoodCache,
    MdnsObservationCache, MeshConnectorConfig, NetworkEvent, NetworkEventResponse, PathKind,
    PeerRecordSource, ProbeAttempt, ProbeAttemptView, StampedView, attempt_views, cached_address,
    clears_paths, entries_of, fresh_entries, recommends_probing, unstamped, with_other_addresses,
};
use crate::net::SocketAddr;
use crate::probe::ProbePlan;
use crate::time::{Instant, elapsed};
use vstd::prelude::*;
use vstd::string::*;

verus! {

/// A connector with its settings, the paths that worked and what it has seen on
/// the local network.
pub struct MeshConnector<A, K, R> {
    pub config: MeshConnectorConfig<A, K, R>,
    pub cache: LastGoodCache,
    pub mdns_cache: MdnsObservationCache,
}

/// What an attempt to connect has come to.
pub enum Dial {
    /// The access list is asked.
    Admitting,
    /// The rendezvous is asked for the peer's record.
    LookingUp,
    /// The local store is asked, because the rendezvous had no record, or could
    /// not be asked for the reason that stands here.
    Loading { failure: Option<QlinkError> },
    /// The record that was found is verified.
    Verifying { record: PeerRecord, source: PeerRecordSource },
    /// The registry is asked about a verified record.
    AskingRegistry { record: PeerRecord, source: PeerRecordSource },
    /// The addresses of the peer are probed.
    Racing { record: PeerRecord, basis: ConnectBasis },
    Finished,
}

/// What an attempt is told.
pub enum DialEvent {
    /// What the access list says, where there is one: whether the peer is
    /// allowed, and why.
    Admission(Option<(bool, String)>),
    /// What the rendezvous said.
    Looked(Result<Option<PeerRecord>>),
    /// What the local store holds.
    Loaded(Option<PeerRecord>),
    /// Why the record is not genuine, if it is not.
    Verified(Option<QlinkError>),
    /// What the registry said, where there is one.
    Registry(Option<Result<Option<RegistryNodeRecord>>>),
    /// What the race of probes came to.
    Raced(DirectProbeResult),
}

/// What an attempt asks for next.
pub enum DialAction {
    LookUp,
    LoadStored,
    Verify,
    /// Asks the registry, and first puts the record into the local store where
    /// `store` says so.
    AskRegistry { store: bool },
    Race { probes: Vec<ProbePlan> },
    Finish(Result<ConnectionOutcome>),
    /// The event was none that the attempt waited for.
    Wait,
}

/// The time of a step.
#[derive(Debug, Clone, Copy, PartialEq, Eq, Structural)]
pub struct Clock {
    pub now: Instant,
    pub now_unix: u64,
}

/// What a step leads to.
pub enum DialMove {
    LookUp,
    LoadStored { failure: Option<QlinkError> },
    Verify { record: PeerRecord, source: PeerRecordSource },
    AskRegistry { record: PeerRecord, source: PeerRecordSource },
    /// The registry's answer lets the peer be dialled.
    Dial { record: PeerRecord, source: PeerRecordSource, decision: RegistryDecision },
    /// The race is over.
    Conclude { basis: ConnectBasis, race: DirectProbeResult },
    Refuse(QlinkErrorView),
    Stay,
}

/// Where an attempt goes from here. A peer that the list denies is not looked up,
/// a record that is not genuine is not asked about, and a peer that the registry's
/// answer does not let through is not dialled.
pub open spec fn dial_move(
    dial: Dial,
    event: DialEvent,
    mesh_id: Seq<char>,
    remote_peer_id: Seq<char>,
    policy: MeshTrustPolicy,
    now_unix: u64,
) -> DialMove {
    match (dial, event) {
        (Dial::Admitting, DialEvent::Admission(decision)) => match decision {
            Some(d) => if d.0 {
                DialMove::LookUp
            } else {
                DialMove::Refuse(
                    QlinkErrorView::Protocol(
                        "peer "@ + remote_peer_id + " rejected by ACL: "@ + d.1@,
                    ),
                )
            },
            None => DialMove::LookUp,
        },
        (Dial::LookingUp, DialEvent::Looked(looked)) => match looked {
            Ok(Some(record)) => DialMove::Verify {
                record,
                source: PeerRecordSource::RendezvousLive,
            },
            Ok(None) => DialMove::LoadStored { failure: None },
            Err(e) => DialMove::LoadStored { failure: Some(e) },
        },
        (Dial::Loading { failure }, DialEvent::Loaded(stored)) => match (stored, failure) {
            (Some(record), _) => DialMove::Verify {
                record,
                source: PeerRecordSource::PeerStoreCache,
            },
            (None, Some(e)) => DialMove::Refuse(e@),
            (None, None) => DialMove::Refuse(
                QlinkErrorView::Protocol(
                    "peer "@ + remote_peer_id + " not found in rendezvous "@ + mesh_id,
                ),
            ),
        },
        (Dial::Verifying { record, source }, DialEvent::Verified(error)) => match error {
            None => DialMove::AskRegistry { record, source },
            Some(e) => DialMove::Refuse(e@),
        },
        (Dial::AskingRegistry { record, source }, DialEvent::Registry(lookup)) => match dial_verdict(
            record,
            lookup,
            policy,
            now_unix,
        ) {
            Ok(decision) => DialMove::Dial { record, source, decision },
            Err(why) => DialMove::Refuse(why),
        },
        (Dial::Racing { basis, .. }, DialEvent::Raced(race)) => DialMove::Conclude { basis, race },
        _ => DialMove::Stay,
    }
}

/// How many steps an attempt may still take.
pub open spec fn dial_rank(dial: Dial) -> nat {
    match dial {
        Dial::Admitting => 6,
        Dial::LookingUp => 5,
        Dial::Loading { .. } => 4,
        Dial::Verifying { .. } => 3,
        Dial::AskingRegistry { .. } => 2,
        Dial::Racing { .. } => 1,
        Dial::Finished => 0,
    }
}

/// An attempt may go on from `dial` to `next` when it is told of `event`.
pub open spec fn dial_follows(
    dial: Dial,
    event: DialEvent,
    next: Dial,
    mesh_id: Seq<char>,
    remote_peer_id: Seq<char>,
    policy: MeshTrustPolicy,
    now_unix: u64,
) -> bool {
    match dial_move(dial, event, mesh_id, remote_peer_id, policy, now_unix) {
        DialMove::LookUp => next == Dial::LookingUp,
        DialMove::LoadStored { failure } => next == (Dial::Loading { failure }),
        DialMove::Verify { record, source } => next == (Dial::Verifying { record, source }),
        DialMove::AskRegistry { record, source } => next == (Dial::AskingRegistry {
            record,
            source,
        }),
        DialMove::Dial { record, source, decision } => next is Finished || (next matches
            Dial::Racing { record: raced, basis } && raced == record && basis.registry_decision
            == decision && basis.peer_record_source == source),
        DialMove::Conclude { .. } | DialMove::Refuse(_) => next is Finished,
        DialMove::Stay => next == dial,
    }
}

/// The addresses to try, in their order.
pub open spec fn dial_order(
    record: PeerRecord,
    seen: Seq<StampedView>,
    cached_addr: Option<SocketAddr>,
    host_priority: u32,
) -> Seq<CandidateView> {
    direct_order(
        with_observations(
            candidate_views(record.body.endpoints@),
            unstamped(seen),
            record.body.device_public_key.fingerprint@,
            host_priority,
        ),
        cached_addr,
    )
}

/// What an attempt rests on before it dials.
pub open spec fn dial_basis(
    source: PeerRecordSource,
    decision: RegistryDecision,
    cached_addr: Option<SocketAddr>,
    order: Seq<CandidateView>,
) -> ConnectBasis {
    ConnectBasis {
        registry_decision: decision,
        peer_record_source: source,
        used_cached_path: cached_addr is Some,
        had_direct_candidates: order.len() > 0,
    }
}

/// An attempt that ended with a link says what it rests on.
pub open spec fn linked(
    result: Result<ConnectionOutcome>,
    remote_peer_id: Seq<char>,
    basis: ConnectBasis,
    address: SocketAddr,
    attempts: Vec<ProbeAttempt>,
    total_elapsed: nat,
) -> bool {
    result matches Ok(outcome) && outcome.remote_peer_id@ == remote_peer_id && outcome.path_kind
        == PathKind::Direct && outcome.remote_addr == Some(address) && outcome.attempts == attempts
        && outcome.total_elapsed.nanos == total_elapsed && outcome.used_cached_path
        == basis.used_cached_path && outcome.registry_decision == basis.registry_decision
        && outcome.peer_record_source == basis.peer_record_source
}

/// A refusal with this reason.
pub open spec fn refused(action: DialAction, why: QlinkErrorView) -> bool {
    action matches DialAction::Finish(Err(e)) && e@ == why
}

/// The relay server that is configured, as text.
pub open spec fn relay_text(server: Option<String>) -> Option<Seq<char>> {
    match server {
        Some(s) => Some(s@),
        None => None,
    }
}

/// The cached paths after a race that nobody won.
pub open spec fn paths_after_defeat(
    paths: Map<Seq<char>, CachedPath>,
    remote_peer_id: Seq<char>,
    basis: ConnectBasis,
) -> Map<Seq<char>, CachedPath> {
    if basis.had_direct_candidates {
        paths.remove(remote_peer_id)
    } else {
        paths
    }
}

/// What the probes of an attempt go by.
pub open spec fn race_settings<A, K, R>(
    config: MeshConnectorConfig<A, K, R>,
    record: PeerRecord,
    started: Instant,
) -> RaceSettings {
    RaceSettings {
        probe_pacing: config.probe_pacing,
        direct_probe_timeout: config.direct_probe_timeout,
        overall_deadline: config.overall_deadline,
        ice_check_timeout: config.ice_check_timeout,
        connect_started: started,
        check_path: config.local_ice_credentials is Some,
        has_certificate: record.body.device_certificate_der@.len() > 0,
        has_keypair: config.local_device_keypair is Some,
    }
}

/// The attempts of a race that is over before it starts, if it is.
pub open spec fn early_defeat(settings: RaceSettings, order: Seq<CandidateView>) -> Option<
    Seq<ProbeAttemptView>,
> {
    if order.len() == 0 || !settings.has_certificate {
        Some(Seq::empty())
    } else if !settings.has_keypair {
        Some(keyless_attempts(order))
    } else {
        None
    }
}

impl<A, K, R> MeshConnector<A, K, R> {
    pub open spec fn wf(&self) -> bool {
        self.cache.wf() && self.mdns_cache.wf()
    }

    /// A connector that remembers nothing yet.
    pub fn new(config: MeshConnectorConfig<A, K, R>) -> (c: MeshConnector<A, K, R>)
        ensures
            c.wf(),
            c.config == config,
            c.cache@ == Map::<Seq<char>, CachedPath>::empty(),
            c.mdns_cache@ == Map::<Seq<char>, Seq<StampedView>>::empty(),
            c.mdns_cache.window().nanos == DEFAULT_MDNS_OBSERVATION_TTL_NANOS,
    {
        MeshConnector {
            config,
            cache: LastGoodCache::new(),
            mdns_cache: MdnsObservationCache::default(),
        }
    }

    pub fn config(&self) -> (c: &MeshConnectorConfig<A, K, R>)
        ensures
            *c == self.config,
    {
        &self.config
    }

    pub fn cache(&self) -> (c: &LastGoodCache)
        ensures
            *c == self.cache,
    {
        &self.cache
    }

    pub fn mdns_cache(&self) -> (c: &MdnsObservationCache)
        ensures
            *c == self.mdns_cache,
    {
        &self.mdns_cache
    }

    /// Takes note of what was seen on the local network.
    pub fn record_mdns_observation(&mut self, observation: MdnsPeerObservation, now: Instant)
        requires
            old(self).wf(),
        ensures
            final(self).wf(),
            final(self).config == old(self).config,
            final(self).cache == old(self).cache,
            final(self).mdns_cache.window() == old(self).mdns_cache.window(),
            ({
                let peer_id = observation@.announcement.peer_id;
                final(self).mdns_cache@ == old(self).mdns_cache@.insert(
                    peer_id,
                    with_other_addresses(
                        entries_of(old(self).mdns_cache@, peer_id),
                        observation@.addresses,
                    ).push(StampedView { observation: observation@, recorded_at: now }),
                )
            }),
    {
        self.mdns_cache.record(observation, now);
    }

    /// Takes note of a network event.
    pub fn handle_network_event(&mut self, event: NetworkEvent) -> (r: NetworkEventResponse)
        requires
            old(self).wf(),
        ensures
            final(self).wf(),
            final(self).config == old(self).config,
            final(self).mdns_cache == old(self).mdns_cache,
            final(self).cache@ == if clears_paths(event) {
                Map::<Seq<char>, CachedPath>::empty()
            } else {
                old(self).cache@
            },
            r.cache_entries_invalidated == if clears_paths(event) {
                old(self).cache@.dom().len()
            } else {
                0
            },
            r.reprobe_recommended == recommends_probing(event),
    {
        self.cache.handle_network_event(event)
    }

    /// Starts an attempt to connect.
    pub fn connect(&self) -> (dial: Dial)
        ensures
            dial == Dial::Admitting,
    {
        Dial::Admitting
    }

    /// Starts an attempt that does not go by the remembered path.
    pub fn reconnect(&mut self, remote_peer_id: &str) -> (dial: Dial)
        requires
            old(self).wf(),
        ensures
            final(self).wf(),
            final(self).config == old(self).config,
            final(self).mdns_cache == old(self).mdns_cache,
            final(self).cache@ == old(self).cache@.remove(remote_peer_id@),
            dial == Dial::Admitting,
    {
        self.cache.invalidate(remote_peer_id);
        self.connect()
    }

    /// What is fresh of what was seen of a peer.
    pub open spec fn seen(&self, peer_id: Seq<char>, now: Instant) -> Seq<StampedView> {
        fresh_entries(entries_of(self.mdns_cache@, peer_id), now, self.mdns_cache.window())
    }

    /// The addresses of a record and of the local network, in the order in which
    /// they are tried.
    pub open spec fn order(
        &self,
        record: PeerRecord,
        peer_id: Seq<char>,
        now: Instant,
        host_priority: u32,
    ) -> Seq<CandidateView> {
        dial_order(
            record,
            self.seen(peer_id, now),
            cached_address(self.cache@, peer_id),
            host_priority,
        )
    }

    /// Dials a peer whose record the registry's answer lets through.
    fn launch(
        &mut self,
        record: PeerRecord,
        plan: ConnectPlan,
        remote_peer_id: &str,
        started: Instant,
        now: Instant,
    ) -> (r: (Dial, DialAction))
        requires
            old(self).wf(),
        ensures
            final(self).wf(),
            final(self).config == old(self).config,
            final(self).mdns_cache == old(self).mdns_cache,
            match early_defeat(
                race_settings(old(self).config, record, started),
                candidate_views(plan.candidates@),
            ) {
                Some(attempts) => {
                    &&& r.0 == Dial::Finished
                    &&& refused(
                        r.1,
                        exhausted_refusal(
                            remote_peer_id@,
                            attempts,
                            relay_text(old(self).config.relay_server),
                        ),
                    )
                    &&& final(self).cache@ == paths_after_defeat(
                        old(self).cache@,
                        remote_peer_id@,
                        plan.basis,
                    )
                },
                None => {
                    &&& r.0 == (Dial::Racing { record, basis: plan.basis })
                    &&& r.1 matches DialAction::Race { probes } && probes@ == probe_plans(
                        race_settings(old(self).config, record, started),
                        candidate_views(plan.candidates@),
                    )
                    &&& final(self).cache == old(self).cache
                },
            },
    {
        let settings = RaceSettings {
            probe_pacing: self.config.probe_pacing,
            direct_probe_timeout: self.config.direct_probe_timeout,
            overall_deadline: self.config.overall_deadline,
            ice_check_timeout: self.config.ice_check_timeout,
            connect_started: started,
            check_path: self.config.local_ice_credentials.is_some(),
            has_certificate: record.body.device_certificate_der.len() > 0,
            has_keypair: self.config.local_device_keypair.is_some(),
        };
        assert(settings == race_settings(self.config, record, started));
        assert(candidate_views(plan.candidates@).len() == plan.candidates@.len());
        match plan_race(&settings, &plan.candidates) {
            RacePlan::Launch { probes } => (
                Dial::Racing { record, basis: plan.basis },
                DialAction::Race { probes },
            ),
            RacePlan::Exhausted { attempts } => {
                assert(attempts@.len() == 0 ==> attempt_views(attempts@) =~= Seq::empty());
                let result = self.conclude(
                    plan.basis,
                    DirectProbeResult::Exhausted { attempts },
                    remote_peer_id,
                    started,
                    now,
                );
                (Dial::Finished, DialAction::Finish(result))
            },
        }
    }

    /// Ends an attempt and remembers what came of it.
    fn conclude(
        &mut self,
        basis: ConnectBasis,
        race: DirectProbeResult,
        remote_peer_id: &str,
        started: Instant,
        now: Instant,
    ) -> (r: Result<ConnectionOutcome>)
        requires
            old(self).wf(),
        ensures
            final(self).wf(),
            final(self).config == old(self).config,
            final(self).mdns_cache == old(self).mdns_cache,
            match race {
                DirectProbeResult::Established { address, attempts } => {
                    &&& final(self).cache@ == old(self).cache@.insert(
                        remote_peer_id@,
                        (CachedPath { address, last_used: now }),
                    )
                    &&& linked(
                        r,
                        remote_peer_id@,
                        basis,
                        address,
                        attempts,
                        elapsed(started, now),
                    )
                },
                DirectProbeResult::Exhausted { attempts } => {
                    &&& final(self).cache@ == paths_after_defeat(
                        old(self).cache@,
                        remote_peer_id@,
                        basis,
                    )
                    &&& r matches Err(e) && e@ == exhausted_refusal(
                        remote_peer_id@,
                        attempt_views(attempts@),
                        relay_text(old(self).config.relay_server),
                    )
                },
            },
    {
        let relay_server = match &self.config.relay_server {
            Some(server) => Some(server.as_str()),
            None => None,
        };
        conclude_connect(
            &mut self.cache,
            remote_peer_id,
            basis,
            race,
            relay_server,
            now.saturating_duration_since(started),
            now,
        )
    }

    /// Goes on with an attempt to connect to a peer. `started` is when the attempt
    /// began, `host_priority` the priority of an address seen on the local network.
    pub fn dial(
        &mut self,
        dial: Dial,
        event: DialEvent,
        remote_peer_id: &str,
        started: Instant,
        clock: Clock,
        host_priority: u32,
    ) -> (r: (Dial, DialAction))
        requires
            old(self).wf(),
        ensures
            final(self).wf(),
            final(self).config == old(self).config,
            final(self).mdns_cache.window() == old(self).mdns_cache.window(),
            r.1 !is Wait ==> dial_rank(r.0) < dial_rank(dial),
            dial_follows(
                dial,
                event,
                r.0,
                old(self).config.mesh_id@,
                remote_peer_id@,
                old(self).config.mesh_trust_policy,
                clock.now_unix,
            ),
            match dial_move(
                dial,
                event,
                old(self).config.mesh_id@,
                remote_peer_id@,
                old(self).config.mesh_trust_policy,
                clock.now_unix,
            ) {
                DialMove::LookUp => r == (Dial::LookingUp, DialAction::LookUp) && *final(self)
                    == *old(self),
                DialMove::LoadStored { failure } => r == (
                    Dial::Loading { failure },
                    DialAction::LoadStored,
                ) && *final(self) == *old(self),
                DialMove::Verify { record, source } => r == (
                    Dial::Verifying { record, source },
                    DialAction::Verify,
                ) && *final(self) == *old(self),
                DialMove::AskRegistry { record, source } => r == (
                    Dial::AskingRegistry { record, source },
                    DialAction::AskRegistry { store: source == PeerRecordSource::RendezvousLive },
                ) && *final(self) == *old(self),
                DialMove::Dial { record, source, decision } => {
                    let seen = old(self).seen(remote_peer_id@, clock.now);
                    let order = old(self).order(record, remote_peer_id@, clock.now, host_priority);
                    let basis = dial_basis(
                        source,
                        decision,
                        cached_address(old(self).cache@, remote_peer_id@),
                        order,
                    );
                    let settings = race_settings(old(self).config, record, started);
                    &&& final(self).mdns_cache@ == if seen.len() == 0 {
                        old(self).mdns_cache@.remove(remote_peer_id@)
                    } else {
                        old(self).mdns_cache@.insert(remote_peer_id@, seen)
                    }
                    &&& match early_defeat(settings, order) {
                        Some(attempts) => {
                            &&& r.0 == Dial::Finished
                            &&& refused(
                                r.1,
                                exhausted_refusal(
                                    remote_peer_id@,
                                    attempts,
                                    relay_text(old(self).config.relay_server),
                                ),
                            )
                            &&& final(self).cache@ == paths_after_defeat(
                                old(self).cache@,
                                remote_peer_id@,
                                basis,
                            )
                        },
                        None => {
                            &&& r.0 == (Dial::Racing { record, basis })
                            &&& r.1 matches DialAction::Race { probes } && probes@ == probe_plans(
                                settings,
                                order,
                            )
                            &&& final(self).cache == old(self).cache
                        },
                    }
                },
                DialMove::Conclude { basis, race } => {
                    &&& r.0 == Dial::Finished
                    &&& final(self).mdns_cache == old(self).mdns_cache
                    &&& match race {
                        DirectProbeResult::Established { address, attempts } => {
                            &&& final(self).cache@ == old(self).cache@.insert(
                                remote_peer_id@,
                                (CachedPath { address, last_used: clock.now }),
                            )
                            &&& r.1 matches DialAction::Finish(result) && linked(
                                result,
                                remote_peer_id@,
                                basis,
                                address,
                                attempts,
                                elapsed(started, clock.now),
                            )
                        },
                        DirectProbeResult::Exhausted { attempts } => {
                            &&& final(self).cache@ == paths_after_defeat(
                                old(self).cache@,
                                remote_peer_id@,
                                basis,
                            )
                            &&& refused(
                                r.1,
                                exhausted_refusal(
                                    remote_peer_id@,
                                    attempt_views(attempts@),
                                    relay_text(old(self).config.relay_server),
                                ),
                            )
                        },
                    }
                },
                DialMove::Refuse(why) => r.0 == Dial::Finished && refused(r.1, why) && *final(self)
                    == *old(self),
                DialMove::Stay => r == (dial, DialAction::Wait) && *final(self) == *old(self),
            },
    {
        match (dial, event) {
            (Dial::Admitting, DialEvent::Admission(decision)) => match admit_by_acl(
                remote_peer_id,
                decision,
            ) {
                Ok(()) => (Dial::LookingUp, DialAction::LookUp),
                Err(e) => (Dial::Finished, DialAction::Finish(Err(e))),
            },
            (Dial::LookingUp, DialEvent::Looked(looked)) => match looked {
                Ok(Some(record)) => (
                    Dial::Verifying { record, source: PeerRecordSource::RendezvousLive },
                    DialAction::Verify,
                ),
                Ok(None) => (Dial::Loading { failure: None }, DialAction::LoadStored),
                Err(e) => (Dial::Loading { failure: Some(e) }, DialAction::LoadStored),
            },
            (Dial::Loading { failure }, DialEvent::Loaded(stored)) => {
                let looked = match failure {
                    Some(e) => Err(e),
                    None => Ok(None),
                };
                match choose_peer_record(
                    remote_peer_id,
                    self.config.mesh_id.as_str(),
                    looked,
                    stored,
                ) {
                    Ok((record, source)) => (
                        Dial::Verifying { record, source },
                        DialAction::Verify,
                    ),
                    Err(e) => (Dial::Finished, DialAction::Finish(Err(e))),
                }
            },
            (Dial::Verifying { record, source }, DialEvent::Verified(error)) => match error {
                None => {
                    let store = should_store(source, true);
                    (Dial::AskingRegistry { record, source }, DialAction::AskRegistry { store })
                },
                Some(e) => (Dial::Finished, DialAction::Finish(Err(e))),
            },
            (Dial::AskingRegistry { record, source }, DialEvent::Registry(lookup)) => {
                let cached_addr = self.cache.lookup(remote_peer_id);
                let decision = match weigh_registry_lookup(lookup, self.config.mesh_trust_policy) {
                    Ok(registry_record) => verify_registry_binding(
                        &record,
                        registry_record.as_ref(),
                        self.config.mesh_trust_policy,
                        clock.now_unix,
                    ),
                    Err(e) => Err(e),
                };
                match decision {
                    Err(e) => (Dial::Finished, DialAction::Finish(Err(e))),
                    Ok(decision) => {
                        let observations = self.mdns_cache.observations_for(
                            remote_peer_id,
                            clock.now,
                        );
                        let plan = order_plan(
                            &record,
                            source,
                            decision,
                            &observations,
                            cached_addr,
                            host_priority,
                        );
                        self.launch(record, plan, remote_peer_id, started, clock.now)
                    },
                }
            },
            (Dial::Racing { basis, .. }, DialEvent::Raced(race)) => {
                let result = self.conclude(basis, race, remote_peer_id, started, clock.now);
                (Dial::Finished, DialAction::Finish(result))
            },
            (dial, _) => (dial, DialAction::Wait),
        }
    }
}

// ---------------------------------------------------------------------------
// Laws
// ---------------------------------------------------------------------------

/// The event lets a peer in.
pub open spec fn admits(event: DialEvent) -> bool {
    event matches DialEvent::Admission(decision) && (decision matches Some(d) ==> d.0)
}

/// An attempt from its start: before the event `events[i]`, which came at
/// `times[i]`, it stood at `dials[i]`.
pub open spec fn is_attempt(
    dials: Seq<Dial>,
    events: Seq<DialEvent>,
    times: Seq<u64>,
    mesh_id: Seq<char>,
    remote_peer_id: Seq<char>,
    policy: MeshTrustPolicy,
) -> bool {
    &&& dials.len() == events.len() + 1
    &&& times.len() == events.len()
    &&& dials[0] == Dial::Admitting
    &&& forall|i: int|
        0 <= i < events.len() ==> #[trigger] dial_follows(
            dials[i],
            events[i],
            dials[i + 1],
            mesh_id,
            remote_peer_id,
            policy,
            times[i],
        )
}

/// The peer was let in before the `k`-th step.
pub open spec fn was_admitted(dials: Seq<Dial>, events: Seq<DialEvent>, k: int) -> bool {
    exists|i: int| 0 <= i < k && dials[i] == Dial::Admitting && admits(#[trigger] events[i])
}

/// A record was verified before the `k`-th step.
pub open spec fn was_verified(
    dials: Seq<Dial>,
    events: Seq<DialEvent>,
    record: PeerRecord,
    source: PeerRecordSource,
    k: int,
) -> bool {
    exists|i: int|
        0 <= i < k && dials[i] == (Dial::Verifying { record, source }) && #[trigger] events[i]
            == DialEvent::Verified(None)
}

/// The registry's answer let a record through before the `k`-th step.
pub open spec fn was_bound(
    dials: Seq<Dial>,
    events: Seq<DialEvent>,
    times: Seq<u64>,
    record: PeerRecord,
    basis: ConnectBasis,
    policy: MeshTrustPolicy,
    k: int,
) -> bool {
    exists|i: int|
        0 <= i < k && dials[i] == (Dial::AskingRegistry {
            record,
            source: basis.peer_record_source,
        }) && (#[trigger] events[i] matches DialEvent::Registry(lookup) && dial_verdict(
            record,
            lookup,
            policy,
            times[i],
        ) == Ok::<RegistryDecision, QlinkErrorView>(basis.registry_decision))
}

/// What an attempt that stands at `dials[k]` has behind it.
pub open spec fn earned(
    dials: Seq<Dial>,
    events: Seq<DialEvent>,
    times: Seq<u64>,
    policy: MeshTrustPolicy,
    k: int,
) -> bool {
    match dials[k] {
        Dial::Admitting | Dial::Finished => true,
        Dial::LookingUp | Dial::Loading { .. } | Dial::Verifying { .. } => was_admitted(
            dials,
            events,
            k,
        ),
        Dial::AskingRegistry { record, source } => was_admitted(dials, events, k) && was_verified(
            dials,
            events,
            record,
            source,
            k,
        ),
        Dial::Racing { record, basis } => was_admitted(dials, events, k) && was_verified(
            dials,
            events,
            record,
            basis.peer_record_source,
            k,
        ) && was_bound(dials, events, times, record, basis, policy, k),
    }
}

/// The rendezvous hears of a peer only after the access list let it in; the
/// registry only of a record that was verified; and a peer is dialled only after
/// the registry's answer let its verified record through.
pub proof fn law_nothing_is_dialled_unearned(
    dials: Seq<Dial>,
    events: Seq<DialEvent>,
    times: Seq<u64>,
    mesh_id: Seq<char>,
    remote_peer_id: Seq<char>,
    policy: MeshTrustPolicy,
    k: int,
)
    requires
        is_attempt(dials, events, times, mesh_id, remote_peer_id, policy),
        0 <= k < dials.len(),
    ensures
        earned(dials, events, times, policy, k),
    decreases k,
{
    if k > 0 {
        let i = k - 1;
        law_nothing_is_dialled_unearned(
            dials,
            events,
            times,
            mesh_id,
            remote_peer_id,
            policy,
            i,
        );
        assert(dial_follows(
            dials[i],
            events[i],
            dials[i + 1],
            mesh_id,
            remote_peer_id,
            policy,
            times[i],
        ));
        if was_admitted(dials, events, i) {
            let j = choose|j: int|
                0 <= j < i && dials[j] == Dial::Admitting && admits(#[trigger] events[j]);
            assert(admits(events[j]));
            assert(was_admitted(dials, events, k));
        }
        if admits(events[i]) && dials[i] == Dial::Admitting {
            assert(was_admitted(dials, events, k));
        }
    }
}

/// In a public mesh a peer is dialled only where the registry holds an active
/// record that binds the peer's own.
pub proof fn law_public_mesh_dials_the_bound_alone(
    dials: Seq<Dial>,
    events: Seq<DialEvent>,
    times: Seq<u64>,
    mesh_id: Seq<char>,
    remote_peer_id: Seq<char>,
    k: int,
)
    requires
        is_attempt(
            dials,
            events,
            times,
            mesh_id,
            remote_peer_id,
            MeshTrustPolicy::PublicRequired,
        ),
        0 <= k < dials.len(),
    ensures
        dials[k] matches Dial::Racing { record, basis } ==> basis.registry_decision
            == RegistryDecision::Accepted && exists|i: int|
            0 <= i < k && (#[trigger] events[i] matches DialEvent::Registry(Some(Ok(Some(bound))))
                && binding_verdict(record, Some(bound), MeshTrustPolicy::PublicRequired, times[i])
                == Ok::<RegistryDecision, QlinkErrorView>(RegistryDecision::Accepted)),
{
    law_nothing_is_dialled_unearned(
        dials,
        events,
        times,
        mesh_id,
        remote_peer_id,
        MeshTrustPolicy::PublicRequired,
        k,
    );
    if let Dial::Racing { record, basis } = dials[k] {
        let policy = MeshTrustPolicy::PublicRequired;
        let i = choose|i: int|
            0 <= i < k && dials[i] == (Dial::AskingRegistry {
                record,
                source: basis.peer_record_source,
            }) && (#[trigger] events[i] matches DialEvent::Registry(lookup) && dial_verdict(
                record,
                lookup,
                policy,
                times[i],
            ) == Ok::<RegistryDecision, QlinkErrorView>(basis.registry_decision));
        if let DialEvent::Registry(lookup) = events[i] {
            law_public_mesh_dials_only_the_bound(record, lookup, times[i]);
        }
    }
}

/// An attempt takes at most as many steps as its rank says; one that waits for
/// nothing has finished.
pub proof fn law_attempts_end(
    dial: Dial,
    event: DialEvent,
    next: Dial,
    mesh_id: Seq<char>,
    remote_peer_id: Seq<char>,
    policy: MeshTrustPolicy,
    now_unix: u64,
)
    requires
        dial_follows(dial, event, next, mesh_id, remote_peer_id, policy, now_unix),
    ensures
        next == dial || dial_rank(next) < dial_rank(dial),
        dial_rank(dial) == 0 <==> dial is Finished,
        dial is Finished ==> next is Finished,
{
}

} // verus!
