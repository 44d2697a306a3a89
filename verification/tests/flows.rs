use qlink_core::flow_stability::{
    CandidateDecision, FlowKey, FlowPathController, FlowStabilityConfig, FlowStabilityError,
    PacketDecision, PathChangeReason, PathId, PathMetrics, PathMtuController, PathMtuProbeState,
    StablePathKind, DEFAULT_SAFE_PATH_MTU,
};

fn udp_packet(source_port: u16, destination_port: u16, len: usize) -> Vec<u8> {
    let len = len.max(28);
    let mut packet = vec![0_u8; len];
    packet[0] = 0x45;
    packet[2..4].copy_from_slice(&(len as u16).to_be_bytes());
    packet[8] = 64;
    packet[9] = 17;
    packet[12..16].copy_from_slice(&[100, 64, 0, 2]);
    packet[16..20].copy_from_slice(&[100, 64, 0, 9]);
    packet[20..22].copy_from_slice(&source_port.to_be_bytes());
    packet[22..24].copy_from_slice(&destination_port.to_be_bytes());
    packet
}

fn metrics(rtt: u32) -> PathMetrics {
    PathMetrics {
        median_rtt_ms: rtt,
        jitter_ms: 2,
        packet_loss_basis_points: 0,
        nat_penalty_ms: 0,
    }
}

#[test]
fn five_tuple_keeps_one_path_until_an_approved_switch() {
    let direct = PathId::new(StablePathKind::Direct, 1);
    let relay = PathId::new(StablePathKind::Relay, 2);
    let mut controller = FlowPathController::default();
    controller.activate_initial(direct, metrics(30));
    let packet = udp_packet(42000, 34197, 100);

    assert!(matches!(
        controller.authorize_ipv4_packet(&packet, direct, 1),
        Ok(PacketDecision::Allowed { path, .. }) if path == direct
    ));
    assert_eq!(
        controller.authorize_ipv4_packet(&packet, relay, 2).unwrap(),
        PacketDecision::DroppedPathMismatch
    );
}

#[test]
fn score_noise_does_not_move_an_active_flow() {
    let direct = PathId::new(StablePathKind::Direct, 1);
    let alternate = PathId::new(StablePathKind::Direct, 2);
    let mut controller = FlowPathController::default();
    controller.activate_initial(direct, metrics(30));

    for rtt in [29, 28, 27, 29] {
        assert_eq!(
            controller.observe_candidate(alternate, metrics(rtt)),
            CandidateDecision::KeptCurrent
        );
    }
    assert_eq!(controller.snapshot().active_path, Some(direct));
}

#[test]
fn sustained_improvement_switches_once_after_threshold() {
    let direct = PathId::new(StablePathKind::Direct, 1);
    let alternate = PathId::new(StablePathKind::Direct, 2);
    let mut controller = FlowPathController::default();
    controller.activate_initial(direct, metrics(80));

    assert!(matches!(
        controller.observe_candidate(alternate, metrics(20)),
        CandidateDecision::Pending { observed: 1, .. }
    ));
    assert!(matches!(
        controller.observe_candidate(alternate, metrics(20)),
        CandidateDecision::Pending { observed: 2, .. }
    ));
    assert_eq!(
        controller.observe_candidate(alternate, metrics(20)),
        CandidateDecision::Switched
    );
    assert_eq!(controller.snapshot().active_path, Some(alternate));
    assert_eq!(
        controller.snapshot().last_change_reason,
        Some(PathChangeReason::SustainedImprovement)
    );
}

#[test]
fn a_worse_sample_starts_the_count_anew() {
    let direct = PathId::new(StablePathKind::Direct, 1);
    let alternate = PathId::new(StablePathKind::Direct, 2);
    let mut controller = FlowPathController::default();
    controller.activate_initial(direct, metrics(80));
    for _ in 0..2 {
        controller.observe_candidate(alternate, metrics(20));
    }
    assert_eq!(
        controller.observe_candidate(alternate, metrics(80)),
        CandidateDecision::KeptCurrent
    );
    assert_eq!(
        controller.observe_candidate(alternate, metrics(20)),
        CandidateDecision::Pending { observed: 1, required: 3 }
    );
}

#[test]
fn hard_failure_rebinds_existing_flows_and_resets_mtu() {
    let direct = PathId::new(StablePathKind::Direct, 1);
    let relay = PathId::new(StablePathKind::Relay, 2);
    let mut controller = FlowPathController::default();
    controller.activate_initial(direct, metrics(20));
    let packet = udp_packet(42000, 34197, 100);
    controller
        .authorize_ipv4_packet(&packet, direct, 1)
        .unwrap();
    let probe = controller.next_mtu_probe().unwrap();
    controller.record_mtu_probe_result(probe, true).unwrap();

    controller.switch_after_failure(relay, metrics(45));

    assert!(matches!(
        controller.authorize_ipv4_packet(&packet, relay, 2),
        Ok(PacketDecision::Allowed { path, .. }) if path == relay
    ));
    let snapshot = controller.snapshot();
    assert_eq!(snapshot.path_mtu.confirmed_mtu, DEFAULT_SAFE_PATH_MTU);
    assert_eq!(
        snapshot.last_change_reason,
        Some(PathChangeReason::PathFailure)
    );
}

#[test]
fn mtu_probe_advances_and_oversize_packets_fail_closed() {
    let path = PathId::new(StablePathKind::Direct, 1);
    let mut controller = FlowPathController::default();
    controller.activate_initial(path, metrics(20));
    let first_probe = controller.next_mtu_probe().unwrap();
    assert_eq!(first_probe, 1312);
    controller
        .record_mtu_probe_result(first_probe, true)
        .unwrap();
    assert_eq!(controller.snapshot().path_mtu.confirmed_mtu, 1312);

    let packet = udp_packet(42000, 34197, 1313);
    assert_eq!(
        controller.authorize_ipv4_packet(&packet, path, 1).unwrap(),
        PacketDecision::DroppedOversize {
            packet_len: 1313,
            path_mtu: 1312,
        }
    );
}

#[test]
fn network_change_clears_flows_and_requires_a_new_path() {
    let path = PathId::new(StablePathKind::Direct, 1);
    let mut controller = FlowPathController::default();
    controller.activate_initial(path, metrics(20));
    let packet = udp_packet(42000, 34197, 100);
    controller.authorize_ipv4_packet(&packet, path, 1).unwrap();

    controller.invalidate_for_network_change();

    let snapshot = controller.snapshot();
    assert_eq!(snapshot.active_flow_count, 0);
    assert_eq!(snapshot.active_path, None);
    assert_eq!(
        snapshot.last_change_reason,
        Some(PathChangeReason::NetworkChange)
    );
    assert_eq!(
        controller.authorize_ipv4_packet(&packet, path, 2).unwrap(),
        PacketDecision::DroppedNoPath
    );
}

#[test]
fn fragmented_ipv4_packet_is_rejected() {
    let path = PathId::new(StablePathKind::Direct, 1);
    let mut controller = FlowPathController::default();
    controller.activate_initial(path, metrics(20));
    let mut packet = udp_packet(42000, 34197, 100);
    packet[6..8].copy_from_slice(&0x2000_u16.to_be_bytes());

    assert_eq!(
        controller.authorize_ipv4_packet(&packet, path, 1),
        Err(FlowStabilityError::FragmentedPacket)
    );
}

#[test]
fn flows_are_told_by_their_five_tuple() {
    let key = FlowKey::from_ipv4_packet(&udp_packet(42000, 34197, 100)).unwrap();
    assert_eq!(key.source, 0x6440_0002);
    assert_eq!(key.destination, 0x6440_0009);
    assert_eq!(key.source_port, 42000);
    assert_eq!(key.destination_port, 34197);
    assert_eq!(key.protocol, 17);
    assert!(matches!(
        FlowKey::from_ipv4_packet(&[0x45; 10]),
        Err(FlowStabilityError::InvalidPacket(_))
    ));
    let mut v6 = udp_packet(1, 2, 100);
    v6[0] = 0x65;
    assert!(matches!(
        FlowKey::from_ipv4_packet(&v6),
        Err(FlowStabilityError::InvalidPacket(_))
    ));
}

#[test]
fn unexpected_mtu_results_are_refused() {
    let mut mtu = PathMtuController::new(FlowStabilityConfig::default());
    assert_eq!(
        mtu.record_probe_result(1400, true),
        Err(FlowStabilityError::UnexpectedMtuProbe)
    );
    let probe = mtu.next_probe().unwrap();
    mtu.record_probe_result(probe, false).unwrap();
    assert_eq!(mtu.snapshot().confirmed_mtu, DEFAULT_SAFE_PATH_MTU);
    let mut left = 64;
    while let Some(probe) = mtu.next_probe() {
        mtu.record_probe_result(probe, false).unwrap();
        left -= 1;
        assert!(left > 0);
    }
    assert_eq!(mtu.snapshot().state, PathMtuProbeState::Confirmed);
    mtu.reset();
    assert_eq!(mtu.snapshot().state, PathMtuProbeState::BaseOnly);
}

#[test]
fn configurations_are_validated() {
    let mut config = FlowStabilityConfig::default();
    assert!(config.validate().is_ok());
    config.required_better_samples = 0;
    assert!(matches!(
        FlowPathController::new(config),
        Err(FlowStabilityError::InvalidConfiguration(_))
    ));
    assert!(!FlowStabilityError::FragmentedPacket.to_string().is_empty());
}

#[test]
fn relays_score_worse_than_direct_paths() {
    assert_eq!(metrics(30).score(StablePathKind::Direct), 38);
    assert_eq!(metrics(30).score(StablePathKind::Relay), 68);
    let lossy = PathMetrics {
        median_rtt_ms: 10,
        jitter_ms: 1,
        packet_loss_basis_points: 150,
        nat_penalty_ms: 5,
    };
    assert_eq!(lossy.score(StablePathKind::Direct), 56);
    assert_eq!(PathMetrics::unknown().score(StablePathKind::Direct), 0);
}

#[test]
fn only_packets_that_pass_add_flows() {
    let path = PathId::new(StablePathKind::Direct, 1);
    let other = PathId::new(StablePathKind::Relay, 2);
    let mut controller = FlowPathController::default();
    controller.activate_initial(path, metrics(20));
    let first = udp_packet(42000, 34197, 100);
    let second = udp_packet(42001, 34197, 100);

    controller.authorize_ipv4_packet(&first, path, 1).unwrap();
    assert_eq!(controller.snapshot().active_flow_count, 1);
    controller.authorize_ipv4_packet(&first, path, 2).unwrap();
    assert_eq!(controller.snapshot().active_flow_count, 1);
    controller.authorize_ipv4_packet(&second, other, 3).unwrap();
    assert_eq!(controller.snapshot().active_flow_count, 1);
    assert!(controller.authorize_ipv4_packet(&second[..10], path, 4).is_err());
    assert_eq!(controller.snapshot().active_flow_count, 1);
    controller.authorize_ipv4_packet(&second, path, 5).unwrap();
    assert_eq!(controller.snapshot().active_flow_count, 2);
}
