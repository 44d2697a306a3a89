use qlink_core::connect::{
    direct_keypair_required_attempts, fold_observations, latest_probe_failure_summary,
    order_direct_candidates, race_window, rand_u64, tiebreaker, DirectProbeResult, Race, RaceEvent,
    RaceStep,
};
use qlink_core::connector::{Clock, Dial, DialAction, DialEvent, MeshConnector};
use qlink_core::discovery::{
    CandidateEndpoint, CandidateType, DevicePublicKey, PeerRecord, UnsignedPeerRecord,
};
use qlink_core::dytallix_identity::{
    MeshTrustPolicy, RegistryDecision, RegistryNodeRecord, RegistryNodeStatus,
};
use qlink_core::error::QlinkError;
use qlink_core::ice::{IceCheckResult, IceCredentials};
use qlink_core::mdns_discovery::{
    compute_public_key_fingerprint, MdnsPeerAnnouncement, MdnsPeerObservation,
};
use qlink_core::mesh_connection::{
    relay_frame, ConnectionOutcome, DirectLink, LastGoodCache, MdnsObservationCache,
    MeshConnectorConfig, MeshLink, NetworkEvent, PathKind, PeerRecordSource, RelayLink,
};
use qlink_core::net::{IpAddr, SocketAddr};
use qlink_core::probe::{
    remaining_probe_budget, ProbeAction, ProbeEvent, ProbeOutcome, ProbeOutcomeRecord, ProbePlan,
    ProbeState, StageOutcome,
};
use qlink_core::time::{Duration, Instant};

const MESH_ID: &str = "devmesh";
const NOW: u64 = 1_725_000_100;
const REMOTE: &str = "qlink_remote";

fn local(port: u16) -> SocketAddr {
    SocketAddr { ip: IpAddr::V4(0x7f00_0001), port }
}

fn at(millis: u128) -> Instant {
    Instant { nanos: 1_000_000_000_000 + millis * 1_000_000 }
}

fn host(addr: SocketAddr, priority: u32) -> CandidateEndpoint {
    CandidateEndpoint {
        candidate_type: CandidateType::Host,
        address: addr.ip.to_string(),
        ip: Some(addr.ip),
        port: addr.port,
        priority,
    }
}

// A stand-in for the digest: it depends on the label and on every part.
fn toy_digest(label: &[u8], parts: &[&[u8]]) -> [u8; 8] {
    let mut digest = [label.len() as u8; 8];
    for part in parts {
        for (i, byte) in part.iter().enumerate() {
            digest[i % 8] = digest[i % 8].wrapping_mul(31).wrapping_add(*byte);
        }
    }
    digest
}

fn remote_key() -> DevicePublicKey {
    DevicePublicKey::new(
        "ML-DSA-65".to_string(),
        vec![7; 4],
        REMOTE.to_string(),
        b"{\"key\":7}".to_vec(),
        toy_digest,
    )
}

fn signed_record(endpoints: Vec<CandidateEndpoint>, certificate: &[u8]) -> PeerRecord {
    PeerRecord {
        body: UnsignedPeerRecord {
            mesh_id: MESH_ID.to_string(),
            peer_id: REMOTE.to_string(),
            alias: "test-peer".to_string(),
            device_public_key: remote_key(),
            endpoints,
            routes: vec!["100.127.0.10/32".to_string()],
            issued_at_unix: NOW,
            expires_at_unix: NOW + 60,
            sequence: 1,
            ice_credentials: IceCredentials { ufrag: "u".to_string(), password: "p".to_string() },
            device_certificate_der: certificate.to_vec(),
        },
        record_hash: vec![3; 32],
        signature_error: None,
    }
}

fn active(record: &PeerRecord) -> RegistryNodeRecord {
    RegistryNodeRecord::from_peer_record(
        "daddr:owner:connector-test",
        record,
        RegistryNodeStatus::Active,
        1_725_000_000,
    )
    .unwrap()
}

// A network in which only some addresses answer, and only some path checks pass.
struct World {
    open: Vec<SocketAddr>,
    checked: Vec<SocketAddr>,
}

// Runs one probe to its end and says when that was.
fn run_probe(plan: &ProbePlan, world: &World) -> (u128, ProbeOutcomeRecord) {
    let mut state = ProbeState::new(plan);
    let mut now = plan.connect_started.nanos + plan.pacing_offset.nanos;
    let mut action = state.step(plan, ProbeEvent::Woke, Instant { nanos: now });
    loop {
        let reachable = world.open.contains(&plan.address);
        let event = match action {
            ProbeAction::Finish { record, .. } => return (now, record),
            ProbeAction::BindIceSocket { local } => {
                assert_eq!(local.port, 0);
                ProbeEvent::IceSocket(None)
            }
            ProbeAction::CheckPath { timeout } => {
                if world.checked.contains(&plan.address) {
                    now += 1_000_000;
                    ProbeEvent::PathChecked(IceCheckResult {
                        mapped_address: None,
                        round_trip: Duration::from_millis(1),
                    })
                } else {
                    now += timeout.nanos;
                    ProbeEvent::PathRefused(QlinkError::Protocol("ICE check timed out".to_string()))
                }
            }
            ProbeAction::ConnectCarrier { timeout } => {
                if reachable {
                    now += 1_000_000;
                    ProbeEvent::Carrier(StageOutcome::Done)
                } else {
                    now += timeout.nanos;
                    ProbeEvent::Carrier(StageOutcome::TimedOut)
                }
            }
            ProbeAction::SendAssertion { .. } => {
                now += 1_000_000;
                ProbeEvent::Assertion(StageOutcome::Done)
            }
            ProbeAction::RunSession { .. } => {
                now += 1_000_000;
                ProbeEvent::Session(StageOutcome::Done)
            }
            ProbeAction::Wait => unreachable!(),
        };
        action = state.step(plan, event, Instant { nanos: now });
    }
}

// A connector with the outside world that a test gives it.
struct Connector {
    mesh: MeshConnector<(), (), ()>,
    acl: Option<(bool, String)>,
    registry: Option<Result<Option<RegistryNodeRecord>, String>>,
    asked: Vec<&'static str>,
}

impl Connector {
    fn new() -> Connector {
        let config = MeshConnectorConfig::new(MESH_ID, "qlink_local")
            .with_local_device_keypair(())
            .with_direct_probe_timeout(Duration::from_millis(150))
            .with_ice_check_timeout(Duration::from_millis(150));
        Connector { mesh: MeshConnector::new(config), acl: None, registry: None, asked: Vec::new() }
    }

    fn connect(
        &mut self,
        lookup: Result<Option<PeerRecord>, QlinkError>,
        stored: Option<PeerRecord>,
        world: &World,
    ) -> Result<ConnectionOutcome, QlinkError> {
        let dial = self.mesh.connect();
        self.run(dial, lookup, stored, world)
    }

    fn reconnect(
        &mut self,
        lookup: Result<Option<PeerRecord>, QlinkError>,
        world: &World,
    ) -> Result<ConnectionOutcome, QlinkError> {
        let dial = self.mesh.reconnect(REMOTE);
        self.run(dial, lookup, None, world)
    }

    fn run(
        &mut self,
        start: Dial,
        lookup: Result<Option<PeerRecord>, QlinkError>,
        stored: Option<PeerRecord>,
        world: &World,
    ) -> Result<ConnectionOutcome, QlinkError> {
        let clock = Clock { now: at(10), now_unix: NOW };
        let mut lookup = Some(lookup);
        let mut dial = start;
        let mut event = DialEvent::Admission(self.acl.clone());
        loop {
            let (next, action) = self.mesh.dial(dial, event, REMOTE, at(0), clock, 120);
            dial = next;
            event = match action {
                DialAction::LookUp => {
                    self.asked.push("rendezvous");
                    DialEvent::Looked(lookup.take().unwrap())
                }
                DialAction::LoadStored => {
                    self.asked.push("store");
                    DialEvent::Loaded(stored.clone())
                }
                DialAction::Verify => match &dial {
                    Dial::Verifying { record, .. } => {
                        DialEvent::Verified(record.signature_error.clone())
                    }
                    _ => unreachable!(),
                },
                DialAction::AskRegistry { store } => {
                    self.asked.push(if store { "registry, stored" } else { "registry" });
                    DialEvent::Registry(match &self.registry {
                        None => None,
                        Some(Ok(found)) => Some(Ok(found.clone())),
                        Some(Err(why)) => Some(Err(QlinkError::Protocol(why.clone()))),
                    })
                }
                DialAction::Race { probes } => {
                    self.asked.push("race");
                    DialEvent::Raced(run_race(&probes, world))
                }
                DialAction::Finish(result) => return result,
                DialAction::Wait => unreachable!(),
            };
        }
    }
}

fn run_race(probes: &[ProbePlan], world: &World) -> DirectProbeResult {
    let mut finished: Vec<(u128, ProbeOutcomeRecord)> =
        probes.iter().map(|probe| run_probe(probe, world)).collect();
    finished.sort_by_key(|(when, _)| *when);
    let mut race = Race::new();
    for (_, record) in finished {
        match race.next(RaceEvent::Ended(record)) {
            RaceStep::Wait(going) => race = going,
            RaceStep::Over(over) => return over,
        }
    }
    match race.next(RaceEvent::NoneLeft) {
        RaceStep::Over(over) => over,
        RaceStep::Wait(_) => unreachable!(),
    }
}

fn nowhere() -> World {
    World { open: Vec::new(), checked: Vec::new() }
}

fn only(addr: SocketAddr) -> World {
    World { open: vec![addr], checked: Vec::new() }
}

#[test]
fn direct_path_succeeds_and_caches_address() {
    let mut connector = Connector::new();
    let record = signed_record(vec![host(local(4433), 120)], b"cert");
    let outcome = connector.connect(Ok(Some(record)), None, &only(local(4433))).unwrap();
    assert_eq!(outcome.path_kind, PathKind::Direct);
    assert_eq!(outcome.remote_addr, Some(local(4433)));
    assert_eq!(outcome.registry_decision, RegistryDecision::AcceptedWithoutRegistryDevelopment);
    assert_eq!(connector.mesh.cache.lookup(REMOTE), Some(local(4433)));
    assert_eq!(outcome.attempts.len(), 1);
    assert!(matches!(outcome.attempts[0].outcome, ProbeOutcome::Established));
    assert!(outcome.attempts[0].quic_connect_elapsed.is_some());
    assert!(outcome.attempts[0].identity_assertion_elapsed.is_some());
    assert!(!outcome.used_cached_path);
}

#[test]
fn remaining_probe_budget_is_bounded_by_candidate_deadline() {
    let now = at(1_000);
    let connect_started = at(900);
    let probe_started = at(920);

    let remaining = remaining_probe_budget(
        now,
        connect_started,
        probe_started,
        Duration::from_millis(100),
        Duration::from_millis(900),
    );

    assert_eq!(remaining, Duration::from_millis(20));
}

#[test]
fn direct_probe_caps_identity_and_pqc_with_candidate_timeout() {
    let plan = ProbePlan {
        candidate_type: CandidateType::Host,
        address: local(1),
        priority: 100,
        pacing_offset: Duration::from_millis(0),
        probe_timeout: Duration::from_millis(100),
        overall_deadline: Duration::from_millis(3_000),
        ice_check_timeout: Duration::from_millis(100),
        connect_started: at(0),
        check_path: false,
    };
    let mut state = ProbeState::new(&plan);
    assert!(matches!(
        state.step(&plan, ProbeEvent::Woke, at(0)),
        ProbeAction::ConnectCarrier { timeout } if timeout == Duration::from_millis(100)
    ));
    assert!(matches!(
        state.step(&plan, ProbeEvent::Carrier(StageOutcome::Done), at(60)),
        ProbeAction::SendAssertion { timeout } if timeout == Duration::from_millis(40)
    ));
    assert!(matches!(
        state.step(&plan, ProbeEvent::Assertion(StageOutcome::Done), at(90)),
        ProbeAction::RunSession { timeout } if timeout == Duration::from_millis(10)
    ));
    match state.step(&plan, ProbeEvent::Session(StageOutcome::TimedOut), at(100)) {
        ProbeAction::Finish { record, close } => {
            assert!(matches!(record.outcome, ProbeOutcome::TimedOut));
            assert_eq!(record.elapsed, Duration::from_millis(100));
            assert_eq!(record.quic_connect_elapsed, Some(Duration::from_millis(60)));
            assert_eq!(close, Some("pqc session timed out"));
        }
        other => panic!("unexpected {other:?}"),
    }
}

#[test]
fn path_checks_carry_the_priority_of_their_candidate() {
    let plan = ProbePlan {
        candidate_type: CandidateType::Host,
        address: local(1),
        priority: 77,
        pacing_offset: Duration::from_millis(0),
        probe_timeout: Duration::from_millis(100),
        overall_deadline: Duration::from_millis(3_000),
        ice_check_timeout: Duration::from_millis(100),
        connect_started: at(0),
        check_path: true,
    };
    let remote = IceCredentials { ufrag: "r".to_string(), password: "secret".to_string() };
    let request = plan.ice_request(&remote, "l", 9);
    assert_eq!(request.remote_credentials.ufrag, "r");
    assert_eq!(request.remote_credentials.password, "secret");
    assert_eq!(request.local_ufrag, "l");
    assert_eq!(request.local_priority, 77);
    assert_eq!(request.controlling_tiebreaker, 9);
    assert!(request.use_candidate);
}

#[test]
fn failing_stages_say_what_failed() {
    let plan = ProbePlan {
        candidate_type: CandidateType::Host,
        address: local(1),
        priority: 100,
        pacing_offset: Duration::from_millis(0),
        probe_timeout: Duration::from_millis(100),
        overall_deadline: Duration::from_millis(3_000),
        ice_check_timeout: Duration::from_millis(100),
        connect_started: at(0),
        check_path: false,
    };
    let broken = || StageOutcome::Failed(QlinkError::Protocol("broken".to_string()));
    let mut state = ProbeState::new(&plan);
    state.step(&plan, ProbeEvent::Woke, at(0));
    assert!(matches!(
        state.step(&plan, ProbeEvent::Session(broken()), at(1)),
        ProbeAction::Wait
    ));
    state.step(&plan, ProbeEvent::Carrier(StageOutcome::Done), at(1));
    match state.step(&plan, ProbeEvent::Assertion(broken()), at(2)) {
        ProbeAction::Finish { record, close } => {
            assert!(matches!(record.outcome, ProbeOutcome::Failed(reason)
                if reason == "inbound assertion send failed: protocol error: broken"));
            assert_eq!(close, Some("assertion send failed"));
        }
        other => panic!("unexpected {other:?}"),
    }
}

#[test]
fn direct_failure_rejects_raw_relay_fallback() {
    let mut connector = Connector::new();
    connector.mesh.config.relay_server = Some("127.0.0.1:9500".to_string());
    let record = signed_record(vec![host(local(1), 120)], b"test-cert");
    let error = connector.connect(Ok(Some(record)), None, &nowhere()).unwrap_err();
    assert!(
        error.to_string().contains("relay PQC session"),
        "raw relay fallback must fail closed: {error:?}"
    );
    assert!(connector.mesh.cache.lookup(REMOTE).is_none());
}

#[test]
fn relay_fallback_is_rejected_without_pqc_session() {
    let mut connector = Connector::new();
    connector.mesh.config.relay_server = Some("127.0.0.1:9501".to_string());
    connector.mesh.cache.record(REMOTE, local(77), at(0));
    let record = signed_record(vec![host(local(1), 120)], b"test-cert");
    let error = connector.connect(Ok(Some(record)), None, &nowhere()).unwrap_err();
    assert_eq!(
        error.to_string(),
        "protocol error: relay PQC session is required for peer qlink_remote; raw relay fallback via 127.0.0.1:9501 is disabled; last direct failure: timed out"
    );
    assert!(connector.mesh.cache.lookup(REMOTE).is_none());
}

#[test]
fn missing_peer_returns_protocol_error() {
    let error = Connector::new().connect(Ok(None), None, &nowhere()).unwrap_err();
    assert!(error.to_string().contains("not found in rendezvous"));
}

#[test]
fn cached_path_is_tried_first_on_subsequent_connect() {
    let working = local(4433);
    let record = signed_record(vec![host(local(1), 200), host(working, 100)], b"cert");
    let mut connector = Connector::new();
    connector.mesh.config.direct_probe_timeout = Duration::from_millis(750);

    let first = connector.connect(Ok(Some(record.clone())), None, &only(working)).unwrap();
    assert_eq!(first.path_kind, PathKind::Direct);
    assert!(!first.used_cached_path);
    let working_attempt = first
        .attempts
        .iter()
        .find(|attempt| attempt.address == working)
        .expect("working candidate should appear in first.attempts");
    assert!(matches!(working_attempt.outcome, ProbeOutcome::Established));
    assert_eq!(connector.mesh.cache.lookup(REMOTE), Some(working));

    let second = connector.connect(Ok(Some(record)), None, &only(working)).unwrap();
    assert_eq!(second.path_kind, PathKind::Direct);
    assert!(second.used_cached_path);
    assert_eq!(second.attempts[0].address, working);
    assert!(matches!(second.attempts[0].outcome, ProbeOutcome::Established));
}

#[test]
fn ice_pre_check_fails_when_no_responder_is_listening() {
    let mut connector = Connector::new();
    connector.mesh.config.local_ice_credentials =
        Some(IceCredentials { ufrag: "l".to_string(), password: "q".to_string() });
    let record = signed_record(vec![host(local(1), 120)], b"cert");
    let error = connector.connect(Ok(Some(record)), None, &only(local(1))).unwrap_err();
    assert!(error.to_string().contains("no direct candidate"));
    assert!(error.to_string().contains("ICE check timed out"));
}

#[test]
fn ice_pre_check_runs_before_quic_handshake() {
    let mut connector = Connector::new();
    connector.mesh.config.local_ice_credentials =
        Some(IceCredentials { ufrag: "l".to_string(), password: "q".to_string() });
    connector.mesh.config.relay_server = Some("127.0.0.1:9502".to_string());
    let record = signed_record(vec![host(local(2), 120)], b"cert");
    let world = World { open: Vec::new(), checked: vec![local(2)] };
    let error = connector.connect(Ok(Some(record)), None, &world).unwrap_err();
    assert!(error.to_string().contains("relay PQC session"));
    assert!(error.to_string().contains("timed out"));
}

#[test]
fn paced_probes_let_fast_candidate_beat_unreachable_one() {
    let black_hole = SocketAddr { ip: IpAddr::V4(0xc000_0201), port: 4433 };
    let working = local(5000);
    let record = signed_record(vec![host(black_hole, 1_000_000), host(working, 1)], b"cert");
    let mut connector = Connector::new();
    connector.mesh.config.direct_probe_timeout = Duration::from_millis(2_000);
    let outcome = connector.connect(Ok(Some(record)), None, &only(working)).unwrap();
    assert_eq!(outcome.path_kind, PathKind::Direct);
    assert_eq!(outcome.remote_addr, Some(working));
    // The working candidate starts 50 ms after the black hole and wins long before
    // the probe timeout of the other.
    assert_eq!(outcome.attempts.len(), 1);
    assert!(outcome.attempts[0].elapsed.as_millis() < 1_500);
}

#[test]
fn last_good_cache_clear_drops_all_entries_and_returns_count() {
    let mut cache = LastGoodCache::default();
    cache.record("peer-a", local(1), at(0));
    cache.record("peer-b", local(2), at(0));
    cache.record("peer-c", local(3), at(0));
    assert_eq!(cache.len(), 3);

    let dropped = cache.clear();
    assert_eq!(dropped, 3);
    assert!(cache.is_empty());
    assert!(cache.lookup("peer-a").is_none());
}

#[test]
fn handle_network_event_path_changed_clears_cache_and_recommends_reprobe() {
    let mut cache = LastGoodCache::new();
    cache.record("peer-x", local(9), at(0));
    cache.record("peer-y", local(10), at(0));

    let response = cache.handle_network_event(NetworkEvent::PathChanged);
    assert_eq!(response.cache_entries_invalidated, 2);
    assert!(response.reprobe_recommended);
    assert!(cache.is_empty());
}

#[test]
fn handle_network_event_post_wake_clears_cache_and_recommends_reprobe() {
    let mut cache = LastGoodCache::new();
    cache.record("peer-z", local(11), at(0));

    let response = cache.handle_network_event(NetworkEvent::PostWake);
    assert_eq!(response.cache_entries_invalidated, 1);
    assert!(response.reprobe_recommended);
    assert!(cache.is_empty());
}

#[test]
fn handle_network_event_pre_sleep_preserves_cache_and_pauses_probing() {
    let mut cache = LastGoodCache::new();
    cache.record("peer-w", local(12), at(0));

    let response = cache.handle_network_event(NetworkEvent::PreSleep);
    assert_eq!(response.cache_entries_invalidated, 0);
    assert!(!response.reprobe_recommended);
    assert_eq!(cache.len(), 1, "PreSleep must not drop cache");
}

#[test]
fn handle_network_event_offline_preserves_cache_and_does_not_reprobe() {
    let mut cache = LastGoodCache::new();
    cache.record("peer-v", local(13), at(0));

    let response =
        cache.handle_network_event(NetworkEvent::ReachabilityChanged { reachable: false });
    assert_eq!(response.cache_entries_invalidated, 0);
    assert!(!response.reprobe_recommended);
    assert_eq!(cache.len(), 1);
}

#[test]
fn handle_network_event_back_online_recommends_reprobe_without_clearing() {
    let mut cache = LastGoodCache::new();
    cache.record("peer-u", local(14), at(0));

    let response =
        cache.handle_network_event(NetworkEvent::ReachabilityChanged { reachable: true });
    assert_eq!(response.cache_entries_invalidated, 0);
    assert!(response.reprobe_recommended);
    assert_eq!(cache.len(), 1);
}

#[test]
fn reconnect_invalidates_cache_then_runs_full_connect() {
    let record = signed_record(vec![host(local(4433), 120)], b"cert");
    let mut connector = Connector::new();
    let first = connector.connect(Ok(Some(record.clone())), None, &only(local(4433))).unwrap();
    assert_eq!(first.path_kind, PathKind::Direct);
    assert!(connector.mesh.cache.lookup(REMOTE).is_some());

    let second = connector.reconnect(Ok(Some(record)), &only(local(4433))).unwrap();
    assert_eq!(second.path_kind, PathKind::Direct);
    assert!(!second.used_cached_path, "reconnect must invalidate the cache before probing");
    assert_eq!(connector.mesh.cache.lookup(REMOTE), Some(local(4433)));
    assert_eq!(connector.mesh.cache.last_used(REMOTE), Some(at(10)));
}

#[test]
fn public_registry_policy_rejects_missing_record_before_probing() {
    let mut connector = Connector::new();
    connector.mesh.config.mesh_trust_policy = MeshTrustPolicy::PublicRequired;
    connector.registry = Some(Ok(None));
    let record = signed_record(vec![host(local(4433), 120)], b"cert");
    let error = connector.connect(Ok(Some(record)), None, &only(local(4433))).unwrap_err();
    assert!(error
        .to_string()
        .contains("registry record required by public mesh trust policy"));
    assert_eq!(connector.asked, vec!["rendezvous", "registry, stored"]);
}

#[test]
fn public_registry_policy_accepts_active_matching_record_before_later_connect_failure() {
    let record = signed_record(vec![], b"cert");
    let mut connector = Connector::new();
    connector.mesh.config.mesh_trust_policy = MeshTrustPolicy::PublicRequired;
    connector.registry = Some(Ok(Some(active(&record))));
    let error = connector.connect(Ok(Some(record)), None, &nowhere()).unwrap_err();
    assert!(error.to_string().contains("no direct candidate"));
}

#[test]
fn public_registry_policy_rejects_revoked_or_mismatched_record() {
    for expected in ["registry record is revoked", "latest_peer_record_hash_hex mismatch"] {
        let record = signed_record(vec![], b"cert");
        let mut registry_record = active(&record);
        if expected == "registry record is revoked" {
            registry_record.status = RegistryNodeStatus::Revoked;
        } else {
            registry_record.latest_peer_record_hash_hex = "00".repeat(32);
        }
        let mut connector = Connector::new();
        connector.mesh.config.mesh_trust_policy = MeshTrustPolicy::PublicRequired;
        connector.registry = Some(Ok(Some(registry_record)));
        let error = connector.connect(Ok(Some(record)), None, &nowhere()).unwrap_err();
        assert!(error.to_string().contains(expected), "expected `{expected}`, got {error:?}");
    }
}

#[test]
fn private_registry_policy_accepts_missing_record() {
    let mut connector = Connector::new();
    connector.mesh.config.mesh_trust_policy = MeshTrustPolicy::PrivatePreferred;
    connector.registry = Some(Ok(None));
    let error = connector
        .connect(Ok(Some(signed_record(vec![], b"cert"))), None, &nowhere())
        .unwrap_err();
    assert!(error.to_string().contains("no direct candidate"));
}

#[test]
fn private_registry_policy_treats_lookup_error_as_missing_record() {
    let mut connector = Connector::new();
    connector.mesh.config.mesh_trust_policy = MeshTrustPolicy::PrivatePreferred;
    connector.registry = Some(Err("registry unavailable".to_string()));
    let error = connector
        .connect(Ok(Some(signed_record(vec![], b"cert"))), None, &nowhere())
        .unwrap_err();
    assert!(error.to_string().contains("no direct candidate"));
}

#[test]
fn development_registry_policy_treats_lookup_error_as_missing_record() {
    let mut connector = Connector::new();
    connector.registry = Some(Err("registry unavailable".to_string()));
    let error = connector
        .connect(Ok(Some(signed_record(vec![], b"cert"))), None, &nowhere())
        .unwrap_err();
    assert!(error.to_string().contains("no direct candidate"));
}

#[test]
fn public_registry_policy_rejects_lookup_error_before_probing() {
    let mut connector = Connector::new();
    connector.mesh.config.mesh_trust_policy = MeshTrustPolicy::PublicRequired;
    connector.registry = Some(Err("registry unavailable".to_string()));
    let record = signed_record(vec![host(local(4433), 120)], b"cert");
    let error = connector.connect(Ok(Some(record)), None, &only(local(4433))).unwrap_err();
    assert!(error.to_string().contains("registry unavailable"));
    assert!(!connector.asked.contains(&"race"), "nothing may be probed before the refusal");
}

#[test]
fn peer_acl_denylist_short_circuits_before_rendezvous_lookup() {
    let mut connector = Connector::new();
    connector.acl = Some((false, "peer is on the deny list".to_string()));
    let record = signed_record(vec![host(local(4433), 120)], b"cert");
    let error = connector.connect(Ok(Some(record)), None, &only(local(4433))).unwrap_err();
    assert!(connector.asked.is_empty(), "a denied peer must not reach the network");
    let message = error.to_string();
    assert!(
        message.contains("rejected by ACL") && message.contains("deny"),
        "ACL rejection must surface a clear reason: {message}"
    );
}

#[test]
fn peer_acl_allowlist_excludes_unlisted_peers() {
    let mut connector = Connector::new();
    connector.acl = Some((false, "peer is not on the allow list".to_string()));
    let error = connector.connect(Ok(None), None, &nowhere()).unwrap_err();
    assert!(connector.asked.is_empty());
    assert!(error.to_string().contains("not on the allow list"));
}

#[test]
fn peer_acl_allowlist_permits_listed_peers_to_proceed() {
    let mut connector = Connector::new();
    connector.acl = Some((true, String::new()));
    let error = connector.connect(Ok(None), None, &nowhere()).unwrap_err();
    let message = error.to_string();
    assert!(
        message.contains("not found in rendezvous"),
        "ACL must let the request through to rendezvous; got: {message}"
    );
    assert!(!message.contains("rejected by ACL"));
}

#[test]
fn expired_peer_record_from_rendezvous_is_rejected_before_direct_probe() {
    let mut expired = signed_record(vec![host(local(1), 120)], b"test-cert");
    expired.body.expires_at_unix = NOW;
    let lookup = Err(QlinkError::Io("connection refused".to_string()));
    let error = Connector::new().connect(lookup, Some(expired), &only(local(1))).unwrap_err();
    assert!(matches!(error, QlinkError::RecordExpired));
}

fn observation(peer_id: &str, fingerprint: &str, addr: SocketAddr) -> MdnsPeerObservation {
    MdnsPeerObservation {
        announcement: MdnsPeerAnnouncement {
            peer_id: peer_id.to_string(),
            mesh_id: MESH_ID.to_string(),
            alias: "peer-mdns".to_string(),
            sequence: 1,
            public_key_fingerprint: fingerprint.to_string(),
        },
        addresses: vec![addr],
    }
}

#[test]
fn mdns_observation_with_matching_fingerprint_adds_extra_host_candidate() {
    let working_addr = local(6000);
    let mut connector = Connector::new();
    let fingerprint = compute_public_key_fingerprint(&remote_key(), toy_digest);
    connector.mesh.record_mdns_observation(observation(REMOTE, &fingerprint, working_addr), at(0));
    let record = signed_record(vec![host(local(1), 120)], b"cert");
    let outcome = connector.connect(Ok(Some(record)), None, &only(working_addr)).unwrap();
    assert_eq!(outcome.path_kind, PathKind::Direct);
    let established = outcome
        .attempts
        .iter()
        .find(|attempt| matches!(attempt.outcome, ProbeOutcome::Established))
        .expect("at least one probe must succeed");
    assert_eq!(established.address, working_addr);
}

#[test]
fn mdns_observation_with_wrong_fingerprint_is_silently_discarded() {
    let mut connector = Connector::new();
    connector.mesh.record_mdns_observation(observation(REMOTE, "0000000000000000", local(2)), at(0));
    let record = signed_record(vec![host(local(1), 120)], b"cert");
    let error = connector.connect(Ok(Some(record)), None, &only(local(2))).unwrap_err();
    assert!(error.to_string().contains("no direct candidate"), "unexpected error: {error:?}");
}

#[test]
fn observed_addresses_are_not_doubled() {
    let endpoints = vec![host(local(1), 5)];
    let seen = vec![observation(REMOTE, "fp", local(1)), observation(REMOTE, "fp", local(2))];
    let all = fold_observations(&endpoints, &seen, "fp", 9);
    assert_eq!(all.len(), 2);
    assert_eq!((all[1].port, all[1].priority), (2, 9));
    assert_eq!(fold_observations(&endpoints, &seen, "other", 9).len(), 1);
}

#[test]
fn mdns_cache_purges_stale_observations_past_ttl() {
    let mut cache = MdnsObservationCache::with_ttl(Duration::from_millis(50));
    cache.record(observation("qlink_aged", "deadbeefdeadbeef", local(9)), at(0));

    assert_eq!(cache.observations_for("qlink_aged", at(0)).len(), 1);

    // Lookup past the TTL must purge the stale entry and return empty.
    assert!(cache.observations_for("qlink_aged", at(80)).is_empty());
    assert_eq!(cache.len(), 0);
}

#[test]
fn mdns_cache_replaces_duplicate_observation_for_same_addresses() {
    let mut cache = MdnsObservationCache::default();
    cache.record(observation("qlink_dup", "abcdef0123456789", local(1234)), at(0));
    cache.record(observation("qlink_dup", "abcdef0123456789", local(1234)), at(1));

    assert_eq!(cache.observations_for("qlink_dup", at(1)).len(), 1);
    cache.record(observation("qlink_dup", "abcdef0123456789", local(1235)), at(2));
    assert_eq!(cache.observations_for("qlink_dup", at(2)).len(), 2);
    assert_eq!(cache.ttl(), Duration::from_secs(300));
    cache.clear();
    assert_eq!(cache.len(), 0);
}

#[test]
fn connect_writes_through_to_peer_store_on_rendezvous_hit() {
    let record = signed_record(vec![host(local(4433), 120)], b"cert");
    let mut connector = Connector::new();
    let outcome = connector.connect(Ok(Some(record)), None, &only(local(4433))).unwrap();
    assert_eq!(outcome.peer_record_source, PeerRecordSource::RendezvousLive);
    assert_eq!(connector.asked, vec!["rendezvous", "registry, stored", "race"]);
}

#[test]
fn forged_records_are_neither_stored_nor_asked_about() {
    let mut record = signed_record(vec![host(local(4433), 120)], b"cert");
    record.signature_error = Some(QlinkError::SignatureVerification);
    let mut connector = Connector::new();
    let error = connector.connect(Ok(Some(record)), None, &only(local(4433))).unwrap_err();
    assert_eq!(error.to_string(), "signature verification failed");
    assert_eq!(connector.asked, vec!["rendezvous"]);
}

#[test]
fn stored_records_are_not_stored_again() {
    let cached = signed_record(vec![host(local(4433), 120)], b"cert");
    let mut connector = Connector::new();
    connector.connect(Ok(None), Some(cached), &only(local(4433))).unwrap();
    assert_eq!(connector.asked, vec!["rendezvous", "store", "registry", "race"]);
}

#[test]
fn connectors_ignore_events_that_they_do_not_wait_for() {
    let mut connector = Connector::new();
    let dial = connector.mesh.connect();
    let clock = Clock { now: at(0), now_unix: NOW };
    let (dial, action) =
        connector.mesh.dial(dial, DialEvent::Loaded(None), REMOTE, at(0), clock, 120);
    assert!(matches!(dial, Dial::Admitting));
    assert!(matches!(action, DialAction::Wait));
    assert_eq!(connector.mesh.config().mesh_id, MESH_ID);
    assert!(connector.mesh.cache().is_empty());
    assert_eq!(connector.mesh.mdns_cache().len(), 0);
}

#[test]
fn connect_falls_back_to_peer_store_when_rendezvous_unreachable() {
    let cached = signed_record(vec![host(local(4433), 120)], b"cert");
    let lookup = Err(QlinkError::Io("connection refused".to_string()));
    let outcome =
        Connector::new().connect(lookup, Some(cached), &only(local(4433))).unwrap();
    assert_eq!(outcome.path_kind, PathKind::Direct);
    assert_eq!(outcome.remote_addr, Some(local(4433)));
    assert_eq!(outcome.peer_record_source, PeerRecordSource::PeerStoreCache);
    assert_eq!(outcome.peer_record_source.trust_source_code(), 2);
}

#[test]
fn connect_falls_back_to_peer_store_when_rendezvous_returns_no_record() {
    let cached = signed_record(vec![host(local(4433), 120)], b"cert");
    let outcome =
        Connector::new().connect(Ok(None), Some(cached), &only(local(4433))).unwrap();
    assert_eq!(outcome.path_kind, PathKind::Direct);
    assert_eq!(outcome.peer_record_source, PeerRecordSource::PeerStoreCache);
}

#[test]
fn lookup_errors_are_passed_on_without_a_stored_record() {
    let lookup = Err(QlinkError::Io("connection refused".to_string()));
    let error = Connector::new().connect(lookup, None, &nowhere()).unwrap_err();
    assert_eq!(error.to_string(), "io error: connection refused");
}

#[test]
fn candidates_are_ranked_and_relays_left_out() {
    let mut relay = host(local(9), 999);
    relay.candidate_type = CandidateType::Relay;
    let endpoints = vec![host(local(1), 10), relay, host(local(2), 30), host(local(3), 10)];
    let ports = |cached| {
        let ordered = order_direct_candidates(&endpoints, cached);
        ordered.iter().map(|c| c.port).collect::<Vec<_>>()
    };
    assert_eq!(ports(None), vec![2, 1, 3]);
    assert_eq!(ports(Some(local(3))), vec![3, 2, 1]);
    assert_eq!(ports(Some(local(8))), vec![2, 1, 3]);
}

#[test]
fn without_a_device_key_nothing_is_dialled() {
    let mut connector = Connector::new();
    connector.mesh.config.local_device_keypair = None;
    let record = signed_record(vec![host(local(4433), 120)], b"cert");
    let error = connector.connect(Ok(Some(record)), None, &only(local(4433))).unwrap_err();
    assert!(error.to_string().contains("no direct candidate"));
    let attempts = direct_keypair_required_attempts(&vec![host(local(4433), 120)]);
    assert_eq!(attempts.len(), 1);
    assert!(latest_probe_failure_summary(&attempts).is_some());
    assert!(latest_probe_failure_summary(&Vec::new()).is_none());
}

#[test]
fn lost_probes_are_passed_over() {
    let race = Race::new();
    let race = match race.next(RaceEvent::Lost) {
        RaceStep::Wait(race) => race,
        RaceStep::Over(_) => unreachable!(),
    };
    assert!(matches!(
        race.next(RaceEvent::DeadlinePassed),
        RaceStep::Over(DirectProbeResult::Exhausted { attempts }) if attempts.is_empty()
    ));
}

#[test]
fn races_end_with_the_overall_deadline() {
    assert_eq!(
        race_window(Duration::from_millis(500), at(0), at(200)),
        Duration::from_millis(300)
    );
    assert_eq!(race_window(Duration::from_millis(500), at(0), at(900)), Duration::from_millis(0));
}

#[test]
fn tiebreakers_are_read_from_random_bytes() {
    assert_eq!(tiebreaker(Some(&[0, 0, 0, 0, 0, 0, 1, 2])), 258);
    assert_eq!(tiebreaker(None), 0xdead_beef_d00d_feed);
    assert_ne!(rand_u64(), rand_u64());
}

#[test]
fn connector_settings_can_be_built() {
    let config: MeshConnectorConfig<u8, u8, u8> = MeshConnectorConfig::new("mesh", "me")
        .with_peer_acl(1)
        .with_local_device_keypair(2)
        .with_identity_registry_lookup(3)
        .with_direct_probe_timeout(Duration::from_millis(1))
        .with_overall_deadline(Duration::from_millis(2))
        .with_probe_pacing(Duration::from_millis(3))
        .with_ice_check_timeout(Duration::from_millis(4))
        .with_relay_server("relay:1".to_string())
        .with_mesh_trust_policy(MeshTrustPolicy::PublicRequired);
    assert_eq!(config.peer_acl, Some(1));
    assert_eq!(config.local_device_keypair, Some(2));
    assert_eq!(config.identity_registry_lookup, Some(3));
    assert_eq!(config.overall_deadline, Duration::from_millis(2));
    assert_eq!(config.relay_server.as_deref(), Some("relay:1"));
    assert_eq!(config.mesh_trust_policy, MeshTrustPolicy::PublicRequired);
}

#[test]
fn links_say_how_they_run_and_a_closed_relay_is_an_error() {
    let direct: MeshLink<u8, u8, u8> =
        MeshLink::Direct(DirectLink { remote_addr: local(1), session: 1, frame_protector: 2 });
    assert_eq!(direct.path_kind(), PathKind::Direct);
    let relayed: MeshLink<u8, u8, u8> =
        MeshLink::Relay(RelayLink { remote_peer_id: REMOTE.to_string(), client: 3 });
    assert_eq!(relayed.path_kind(), PathKind::Relay);
    assert_eq!(relay_frame(Some(("qlink_a".to_string(), vec![1, 2]))).unwrap(), vec![1, 2]);
    assert_eq!(
        relay_frame(None).unwrap_err().to_string(),
        "protocol error: relay closed before delivering frame"
    );
}
