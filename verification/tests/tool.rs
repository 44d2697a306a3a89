use qlink_core::channel_attack::{
    battery_row, check_steps, conclude_channel_attack, crypto_attack_battery, damage,
    live_relay_row, plan_channel_attack, relayed_payloads, skipped_relay_row, AttackRow,
    BatteryCheck, CheckStep, DeliveryWatch, FrameFault, LiveRelayOutcome, LiveRelayTest, RelayAction, RelayAttack,
    RelayConnection, RelayRequest, WatchStep,
};
use qlink_core::connect::order_direct_candidates;
use qlink_core::ctl::{
    carrier_mesh_demo, demo_connector_config, demo_endpoints, demo_has_responder,
    demo_ice_requests, direct_send_config, disabled_command_refusal, ice_check_report, key_source,
    keyfile_seed, native_mesh_demo, path_label, publish_transport_config, relay_responder_config,
    stream_bytes, DirectSendRun, DirectSendTimingReport, DisabledCommand, FrameStream, KeySource,
    MeshDemo, PublishSchedule, StreamStep,
};
use qlink_core::discovery::CandidateType;
use qlink_core::dytallix_identity::{DytallixEnrollmentWallet, RegistryDecision};
use qlink_core::error::QlinkError;
use qlink_core::ffi::{
    core_version, default_suite, ensure_wallet_config, handle_network_event_code, is_borrowable,
    network_event_from_code, peer_ids_text, submit_packet_code, transport_state_code,
    wallet_summary, MeshTransportState, PacketDisposition, PeerTrustStatusRaw,
    QlinkDevQuicTransportHandle, QlinkMeshTransportMetrics, QlinkPeerTrustStatus,
    QlinkTunnelMetrics,
};
use qlink_core::ice::{
    accept_ice_response, answer_ice_check, encode_ice_check, IceCheckResult, IceCredentials,
};
use qlink_core::mesh_connection::{
    ConnectionOutcome, LastGoodCache, MeshConnectorConfig, NetworkEvent, PathKind,
    PeerRecordSource, ProbeAttempt,
};
use qlink_core::net::{IpAddr, SocketAddr};
use qlink_core::probe::ProbeOutcome;
use qlink_core::text::hex_encode;
use qlink_core::time::{Duration, Instant};

fn local(port: u16) -> SocketAddr {
    SocketAddr { ip: IpAddr::V4(0x7f00_0001), port }
}

#[test]
fn keys_come_from_the_file_where_there_is_one() {
    assert_eq!(key_source(None, true), KeySource::Generate);
    assert_eq!(key_source(Some("k"), true), KeySource::Load);
    assert_eq!(key_source(Some("k"), false), KeySource::GenerateAndStore);
    assert_eq!(keyfile_seed("k", &[5; 32]).unwrap(), [5; 32]);
    assert_eq!(
        keyfile_seed("k", &[5; 31]).unwrap_err().to_string(),
        "protocol error: keyfile k must be exactly 32 bytes; got 31"
    );
    assert_eq!(hex_encode(&[0x0f, 0xa0]), "0fa0");
}

#[test]
fn records_are_published_at_half_their_lifetime() {
    let mut schedule = PublishSchedule::new();
    assert_eq!(schedule.sequence, 1);
    assert_eq!(schedule.published(120, false), Some(Duration::from_secs(60)));
    assert_eq!(schedule.sequence, 2);
    assert_eq!(schedule.published(1, false), Some(Duration::from_secs(1)));
    assert_eq!(schedule.published(120, true), None);
    assert_eq!(schedule.sequence, 3);
    let mut last = PublishSchedule { sequence: u64::MAX };
    last.published(0, false);
    assert_eq!(last.sequence, u64::MAX);
}

#[test]
fn transports_of_the_tool_share_their_settings() {
    let config = publish_transport_config(
        "mesh",
        "me",
        "r:1",
        "0.0.0.0:0",
        Some("relay:1".to_string()),
        None,
        Some("store".to_string()),
    );
    assert_eq!(config.remote_peer_id, "qlink_unconfigured");
    assert_eq!(config.overall_deadline_ms, 3_000);
    assert_eq!(config.peer_store_path.as_deref(), Some("store"));
    let responder = relay_responder_config("me", "r:1", "relay:1");
    assert_eq!(responder.mesh_id, "devmesh");
    assert_eq!(responder.bind_addr, "127.0.0.1:0");
    assert_eq!(responder.relay_url.as_deref(), Some("relay:1"));
    let direct: MeshConnectorConfig<(), u8, ()> =
        direct_send_config("mesh", "me", 7, 5_000, Some("relay:1".to_string()));
    assert_eq!(direct.direct_probe_timeout, Duration::from_millis(5_000));
    assert_eq!(direct.overall_deadline, Duration::from_millis(5_000));
    assert_eq!(direct.local_device_keypair, Some(7));
}

#[test]
fn streams_send_their_count() {
    let mut stream = FrameStream::new(2);
    let first = stream.sent(Duration::from_millis(4), 10);
    assert_eq!(first, StreamStep::SleepAndSend(Duration::from_millis(10)));
    assert_eq!(stream.sent(Duration::from_millis(9), 10), StreamStep::Finish);
    assert_eq!(stream.frames_sent, 2);
    assert_eq!(stream.first_elapsed, Duration::from_millis(4));
    let mut one = FrameStream::new(0);
    assert_eq!(one.sent(Duration::from_millis(1), 10), StreamStep::Finish);
    let mut fast = FrameStream::new(2);
    assert_eq!(fast.sent(Duration::from_millis(1), 0), StreamStep::Send);
    assert_eq!(stream_bytes(3, 7), 21);
}

fn attempt(outcome: ProbeOutcome, elapsed: u64, assertion: Option<u64>) -> ProbeAttempt {
    ProbeAttempt {
        candidate_type: CandidateType::Host,
        address: local(1),
        elapsed: Duration::from_millis(elapsed),
        outcome,
        quic_connect_elapsed: None,
        identity_assertion_elapsed: assertion.map(Duration::from_millis),
        ice_round_trip: None,
        peer_reflexive_address: None,
    }
}

#[test]
fn timing_reports_speak_of_the_established_attempt() {
    let mut run = DirectSendRun {
        outcome: ConnectionOutcome {
            remote_peer_id: "p".to_string(),
            path_kind: PathKind::Direct,
            remote_addr: None,
            attempts: vec![
                attempt(ProbeOutcome::TimedOut, 100, None),
                attempt(ProbeOutcome::Established, 30, Some(5)),
            ],
            total_elapsed: Duration::from_millis(140),
            used_cached_path: false,
            registry_decision: RegistryDecision::Accepted,
            peer_record_source: PeerRecordSource::RendezvousLive,
        },
        datagram_delivery_elapsed: Duration::from_millis(2),
        frames_sent: 1,
        stream_elapsed: Duration::from_millis(2),
    };
    let report = DirectSendTimingReport::from_run(&run);
    assert_eq!(report.quic_connect_ms, Some(30));
    assert_eq!(report.identity_assertion_ms, Some(5));
    assert_eq!(report.total_elapsed_ms, 140);
    assert_eq!(report.datagram_delivery_ms, 2);
    run.outcome.attempts.pop();
    assert_eq!(DirectSendTimingReport::from_run(&run).quic_connect_ms, None);
    assert_eq!(path_label(PathKind::Direct), "native-udp-direct");
    assert_eq!(path_label(PathKind::Relay), "relay");
}

#[test]
fn demonstrations_go_by_name() {
    assert_eq!(native_mesh_demo("stun-gather").unwrap(), MeshDemo::StunGather);
    assert_eq!(native_mesh_demo("ice-check").unwrap(), MeshDemo::IceCheck);
    assert!(native_mesh_demo("direct").unwrap_err().to_string().contains("not wired yet"));
    assert_eq!(carrier_mesh_demo("paced").unwrap(), MeshDemo::Paced);
    assert!(carrier_mesh_demo("nope")
        .unwrap_err()
        .to_string()
        .contains("unknown mesh-connect scenario: nope (expected"));
    assert!(demo_has_responder(MeshDemo::RelayFallback));
    assert!(!demo_has_responder(MeshDemo::Paced));
    for command in [
        DisabledCommand::QuicLoopback,
        DisabledCommand::MeshLoopback,
        DisabledCommand::RelayLoopback,
        DisabledCommand::RelaySmoke,
    ] {
        assert!(disabled_command_refusal(command).to_string().contains("is disabled"));
    }
}

#[test]
fn the_paced_demonstration_tries_the_black_hole_first() {
    let endpoints = demo_endpoints(MeshDemo::Paced, local(5000), None).unwrap();
    let ordered = order_direct_candidates(&endpoints, None);
    assert_eq!(ordered[0].address, "192.0.2.1");
    assert_eq!(ordered[0].port, 4433);
    assert_eq!(ordered[1].port, 5000);
    let fallback = demo_endpoints(MeshDemo::RelayFallback, local(5000), None).unwrap();
    assert_eq!((fallback[0].address.as_str(), fallback[0].port), ("127.0.0.1", 1));
    let direct = demo_endpoints(MeshDemo::Direct, local(1), Some(local(9))).unwrap();
    assert_eq!((direct[0].port, direct[0].priority), (9, 120));
    assert!(demo_endpoints(MeshDemo::Direct, local(1), None).is_err());
    let config: MeshConnectorConfig<(), u8, ()> =
        demo_connector_config(MeshDemo::Paced, "me", 1, "relay:1".to_string());
    assert_eq!(config.direct_probe_timeout, Duration::from_millis(2_000));
}

#[test]
fn the_path_check_demonstration_shows_both_outcomes() {
    let remote = IceCredentials::generate().unwrap();
    let (valid, bogus) = demo_ice_requests(&remote, "local");
    let run = |request: &qlink_core::ice::IceCheckRequest| {
        let sent = encode_ice_check(request, [1; 12]);
        let reply = answer_ice_check(&sent, local(40_000), &remote).unwrap();
        accept_ice_response(&reply, request, [1; 12], Duration::from_millis(2))
    };
    let first: Result<IceCheckResult, QlinkError> = run(&valid);
    let second = run(&bogus);
    assert!(first.is_ok());
    let reason = second.as_ref().unwrap_err().to_string();
    let report =
        ice_check_report(&first, Duration::from_millis(7), &second, Duration::from_millis(9));
    assert_eq!(
        report,
        format!(
            "valid_check_outcome=Established\nvalid_check_elapsed_ms=7\nvalid_check_peer_reflexive_address=127.0.0.1:40000\nbogus_check_outcome=Rejected\nbogus_check_elapsed_ms=9\nbogus_check_error={reason}\n"
        )
    );
    let swapped =
        ice_check_report(&second, Duration::from_millis(7), &first, Duration::from_millis(9));
    assert!(swapped.starts_with("valid_check_outcome=Failed\n"));
    assert!(swapped.ends_with("bogus_check_outcome=UNEXPECTEDLY_AUTHENTICATED\n"));
}

fn sample_frame() -> Vec<u8> {
    let mut frame = vec![0x51; 51 + 18];
    frame[6] = 1;
    frame[7..15].copy_from_slice(&7_u64.to_be_bytes());
    frame[15..19].copy_from_slice(&18_u32.to_be_bytes());
    frame
}

#[test]
fn faults_damage_the_part_they_name() {
    let differing = |fault| {
        let mut frame = sample_frame();
        damage(fault, &mut frame);
        let before = sample_frame();
        (0..frame.len()).filter(|i| frame[*i] != before[*i]).collect::<Vec<_>>()
    };
    assert_eq!(differing(FrameFault::TamperTag), vec![68]);
    assert_eq!(differing(FrameFault::TamperCiphertext), vec![19]);
    assert_eq!(differing(FrameFault::TamperHeaderCounter), vec![7]);
    assert_eq!(differing(FrameFault::BadMagic), vec![0]);
    assert_eq!(differing(FrameFault::BadVersion), vec![6]);
    assert_eq!(differing(FrameFault::ZeroCounter), vec![14]);
    assert_eq!(differing(FrameFault::InflateLength), vec![15]);
    let mut frame = sample_frame();
    damage(FrameFault::TruncateTag, &mut frame);
    assert_eq!(frame, sample_frame()[..53]);
}

#[test]
fn the_battery_expects_refusals_but_for_its_baseline() {
    let checks = crypto_attack_battery();
    assert_eq!(checks.len(), 12);
    let plaintext = b"attack-the-channel";
    let refused = || Err(QlinkError::Crypto("bad tag".to_string()));
    for check in checks {
        let taken = battery_row(check, plaintext, &Ok(plaintext.to_vec()));
        let dropped = battery_row(check, plaintext, &refused());
        assert_eq!(taken.pass, check == BatteryCheck::Baseline);
        assert_eq!(dropped.pass, check != BatteryCheck::Baseline);
        assert_eq!(dropped.observed, "reject:cryptographic operation failed: bad tag");
    }
    let corrupt = battery_row(BatteryCheck::Baseline, plaintext, &Ok(vec![1]));
    assert_eq!((corrupt.observed.as_str(), corrupt.pass), ("delivered-CORRUPT(!)", false));
    let replay = battery_row(BatteryCheck::ReplayExact, plaintext, &Ok(plaintext.to_vec()));
    assert_eq!(replay.observed, "delivered-twice(!)");
    assert_eq!(replay.layer, "replay-window");
    let fault = battery_row(BatteryCheck::Fault(FrameFault::BadMagic), plaintext, &refused());
    assert_eq!((fault.name.as_str(), fault.expected.as_str()), ("bad-magic", "reject"));
}

#[test]
fn the_relay_touches_short_frames_alone() {
    // "aGVsbG8=" is "hello"; the last byte with its lowest bit turned is "n".
    assert_eq!(relayed_payloads(RelayAttack::Passthrough, "aGVsbG8="), vec!["aGVsbG8="]);
    assert_eq!(relayed_payloads(RelayAttack::TamperPayload, "aGVsbG8="), vec!["aGVsbG4="]);
    assert_eq!(
        relayed_payloads(RelayAttack::Duplicate, "aGVsbG8="),
        vec!["aGVsbG8=", "aGVsbG8="]
    );
    let handshake = "QUFB".repeat(86);
    for attack in [RelayAttack::TamperPayload, RelayAttack::Duplicate] {
        assert_eq!(relayed_payloads(attack, &handshake), vec![handshake.clone()]);
        for junk in ["aGVsbG9=", "aGVsbG8", "a-b_", "===="] {
            assert_eq!(relayed_payloads(attack, junk), vec![junk]);
        }
    }
    assert_eq!(relayed_payloads(RelayAttack::TamperPayload, "+/+/"), vec!["+/++"]);
}

#[test]
fn relay_connections_register_once() {
    let mut connection = RelayConnection::new();
    let register = |name: &str| RelayRequest::Register { peer_id: name.to_string() };
    assert!(matches!(
        connection.handle(RelayAttack::Passthrough, register("a")),
        RelayAction::Confirm { peer_id } if peer_id == "a"
    ));
    assert!(matches!(
        connection.handle(RelayAttack::Passthrough, register("b")),
        RelayAction::Ignore
    ));
    assert_eq!(connection.registered.as_deref(), Some("a"));
    let datagram = RelayRequest::Datagram {
        source: "a".to_string(),
        destination: "c".to_string(),
        payload_base64: "aGVsbG8=".to_string(),
    };
    assert!(matches!(
        connection.handle(RelayAttack::Duplicate, datagram),
        RelayAction::Forward { destination, payloads, .. }
            if destination == "c" && payloads.len() == 2
    ));
    assert!(matches!(
        connection.handle(RelayAttack::Duplicate, RelayRequest::Other),
        RelayAction::Ignore
    ));
}

#[test]
fn live_trials_count_deliveries() {
    let test = LiveRelayTest::new(RelayAttack::Duplicate);
    assert_eq!((test.send_count, test.expected_delivered), (1, 1));
    let connected = |path_kind, delivered| LiveRelayOutcome::Connected { path_kind, delivered };
    let good = live_relay_row(&test, &connected(PathKind::Relay, 1));
    assert!(good.pass);
    assert_eq!(good.observed, "path=relay sent=1 delivered=1");
    assert_eq!(good.expected, "delivered=1");
    assert!(!live_relay_row(&test, &connected(PathKind::Relay, 2)).pass);
    assert!(!live_relay_row(&test, &connected(PathKind::Direct, 1)).pass);
    let refused = LiveRelayOutcome::Refused(QlinkError::Protocol("no".to_string()));
    assert!(!live_relay_row(&test, &refused).pass);
    let tamper = LiveRelayTest::new(RelayAttack::TamperPayload);
    let row = live_relay_row(&tamper, &refused);
    assert!(row.pass);
    assert_eq!(row.observed, "connect-refused:protocol error: no");

    let mut watch = DeliveryWatch::new(Instant { nanos: 10 });
    assert_eq!(watch.observe(false, Instant { nanos: 1 }), WatchStep::Pause);
    assert_eq!(watch.observe(true, Instant { nanos: 20 }), WatchStep::Poll);
    assert_eq!(watch.observe(false, Instant { nanos: 20 }), WatchStep::Finish);
    assert_eq!(watch.delivered, 1);
}

#[test]
fn one_failed_row_fails_the_self_test() {
    let row = |pass| AttackRow {
        name: "n".to_string(),
        layer: "l".to_string(),
        expected: "e".to_string(),
        observed: "o".to_string(),
        pass,
    };
    let (text, result) = conclude_channel_attack("all", &vec![row(true), row(false)]);
    assert_eq!(
        text,
        "scenario=all\nattack=n layer=l expected=e observed=o verdict=PASS\nattack=n layer=l expected=e observed=o verdict=FAIL\nchannel_attack_passed=1\nchannel_attack_total=2\nchannel_attack_result=FAIL\n"
    );
    assert!(result.unwrap_err().to_string().contains("were NOT rejected"));
    assert!(conclude_channel_attack("all", &vec![row(true)]).1.is_ok());
    let plan = plan_channel_attack("relay-tamper").unwrap();
    assert!(plan.relay_tamper && !plan.crypto);
    assert!(skipped_relay_row(&plan).unwrap().pass);
    assert!(skipped_relay_row(&plan_channel_attack("crypto").unwrap()).is_none());
    assert!(plan_channel_attack("all").unwrap().relay_replay);
    assert!(plan_channel_attack("x").unwrap_err().to_string().contains("scenario: x (expected"));
}

#[test]
fn ffi_dev_quic_transport_is_disabled() {
    let mut transport = QlinkDevQuicTransportHandle::new();
    assert_eq!(transport.send_frame(), -1);
    assert!(!transport.receive_frame());
    assert!(!transport.receive_frame());
    assert_eq!(transport.metrics.send_failures, 1);
    assert_eq!(transport.metrics.receive_failures, 2);
    assert_eq!(transport.metrics.frames_sent, 0);
}

#[test]
fn ensure_wallet_ffi_generates_dytallix_address() {
    let config = ensure_wallet_config(
        b"https://dytallix.com",
        b"0x9a9671441249ee2c364f9b4bc8049e61b082449a",
        b"/tmp/keystore.json",
        b"",
    )
    .unwrap();
    assert_eq!(config.wallet_name, None);
    assert_eq!(config.endpoint, "https://dytallix.com");
    let summary = wallet_summary(&DytallixEnrollmentWallet {
        keystore_path: "/tmp/keystore.json".to_string(),
        wallet_name: "quantumlink".to_string(),
        wallet_address: "dytallix1abc".to_string(),
        created_wallet: true,
    });
    assert_eq!(
        summary,
        "wallet_name=quantumlink\nwallet_address=dytallix1abc\ncreated_wallet=true\n"
    );
    assert!(ensure_wallet_config(&[0xff], b"0x9a", b"k", b"").is_none());
    assert!(ensure_wallet_config(b"e", b"0x9a", b"k", b"w").is_none());
}

#[test]
fn network_events_have_codes() {
    assert_eq!(network_event_from_code(0), Some(NetworkEvent::PathChanged));
    assert_eq!(
        network_event_from_code(4),
        Some(NetworkEvent::ReachabilityChanged { reachable: true })
    );
    assert_eq!(network_event_from_code(5), None);
    let mut paths = LastGoodCache::new();
    paths.record("p", local(1), Instant { nanos: 0 });
    assert_eq!(handle_network_event_code(&mut paths, 9), -1);
    assert_eq!(handle_network_event_code(&mut paths, 1), 0);
    assert_eq!(paths.len(), 1);
    assert_eq!(handle_network_event_code(&mut paths, 2), 1);
    assert!(paths.is_empty());
}

#[test]
fn answers_have_codes() {
    assert_eq!(submit_packet_code(Some(PacketDisposition::QueuedForTransport)), 1);
    assert_eq!(submit_packet_code(Some(PacketDisposition::DroppedUnprotected)), 0);
    assert_eq!(submit_packet_code(Some(PacketDisposition::DroppedPeerSessionUnavailable)), 0);
    assert_eq!(submit_packet_code(None), -1);
    assert_eq!(transport_state_code(Some(MeshTransportState::Ready)), 1);
    assert_eq!(transport_state_code(None), 2);
    assert!(is_borrowable(true, 0) && !is_borrowable(true, 1) && is_borrowable(false, 1));
    assert_eq!(core_version(), "0.1.0");
    assert_eq!(default_suite(), "QLINK-FIPS203-MLKEM768-SHAKE256-v1");
    let raw = PeerTrustStatusRaw {
        decision_code: 1,
        failure_code: 2,
        checked_at_unix: 3,
        source_code: 4,
    };
    let status = QlinkPeerTrustStatus::from(raw);
    assert_eq!((status.decision_code, status.source_code), (1, 4));
    assert_eq!(QlinkPeerTrustStatus::default().failure_code, 0);
    assert_eq!(QlinkTunnelMetrics::default().dropped_malformed, 0);
    assert_eq!(QlinkMeshTransportMetrics::default().reconnect_count, 0);
}

#[test]
fn peer_lists_are_sorted_like_strings() {
    let ids = ["b", "a", "é", "ab", "", "Z", "\u{10000}", "\u{ffff}", "a"];
    let list: Vec<String> = ids.iter().map(|id| id.to_string()).collect();
    let mut sorted = list.clone();
    sorted.sort();
    assert_eq!(peer_ids_text(&list), sorted.join("\n"));
    assert_eq!(peer_ids_text(&Vec::new()), "");
}

#[test]
fn trials_say_what_they_do() {
    assert_eq!(
        check_steps(BatteryCheck::Baseline),
        vec![
            CheckStep::Handshake,
            CheckStep::Protect,
            CheckStep::Judge { session: 0, frame: 0 },
        ]
    );
    assert_eq!(
        check_steps(BatteryCheck::Fault(FrameFault::BadMagic)),
        vec![
            CheckStep::Handshake,
            CheckStep::Protect,
            CheckStep::Damage(FrameFault::BadMagic),
            CheckStep::Judge { session: 0, frame: 0 },
        ]
    );
    assert_eq!(
        check_steps(BatteryCheck::ReplayExact),
        vec![
            CheckStep::Handshake,
            CheckStep::Protect,
            CheckStep::MustOpen { frame: 0 },
            CheckStep::Judge { session: 0, frame: 0 },
        ]
    );
    assert_eq!(
        check_steps(BatteryCheck::ReplayAfterAdvance),
        vec![
            CheckStep::Handshake,
            CheckStep::Protect,
            CheckStep::Protect,
            CheckStep::MustOpen { frame: 0 },
            CheckStep::MustOpen { frame: 1 },
            CheckStep::Judge { session: 0, frame: 0 },
        ]
    );
    assert_eq!(
        check_steps(BatteryCheck::CrossSession),
        vec![
            CheckStep::Handshake,
            CheckStep::Handshake,
            CheckStep::Protect,
            CheckStep::Judge { session: 1, frame: 0 },
        ]
    );
}
