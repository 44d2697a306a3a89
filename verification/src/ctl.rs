//! The decisions of the command line tool: where its key comes from, how it
//! publishes itself, how it streams frames, and what its demonstrations dial.

use crate::discovery::{CandidateEndpoint, CandidateType, CandidateView, candidate_views};
use crate::dytallix_identity::MeshTrustPolicy;
use crate::error::{QlinkError, QlinkErrorView, Result, error_text, protocol};
use crate::ice::{IceCheckRequest, IceCheckResult, IceCredentials};
use crate::mesh_connection::{
    ConnectionOutcome, MeshConnectorConfig, PathKind, ProbeAttemptView, attempt_views,
};
use crate::net::{IpAddr, SocketAddr, ip_text, socket_text};
use crate::probe::ProbeOutcome;
use crate::text::{decimal, join3, push_decimal, push_wide_decimal, same_text};
use crate::time::Duration;
use vstd::prelude::*;
use vstd::string::*;

verus! {

// ---------------------------------------------------------------------------
// The device key
// ---------------------------------------------------------------------------

/// Where the device key comes from.
#[derive(Debug, Clone, Copy, PartialEq, Eq, Structural)]
pub enum KeySource {
    /// A fresh key that is not kept.
    Generate,
    /// The key in the key file.
    Load,
    /// A fresh key that is written to the key file.
    GenerateAndStore,
}

/// The key of the file where there is one; `exists` says whether there is.
pub fn key_source(keyfile: Option<&str>, exists: bool) -> (source: KeySource)
    ensures
        source == match keyfile {
            None => KeySource::Generate,
            Some(_) => if exists {
                KeySource::Load
            } else {
                KeySource::GenerateAndStore
            },
        },
{
    match keyfile {
        None => KeySource::Generate,
        Some(_) => if exists {
            KeySource::Load
        } else {
            KeySource::GenerateAndStore
        },
    }
}

/// The seed in a key file: the file holds its 32 bytes and nothing else.
pub fn keyfile_seed(path: &str, bytes: &[u8]) -> (r: Result<[u8; 32]>)
    ensures
        bytes@.len() == 32 ==> (r matches Ok(seed) && seed@ == bytes@),
        bytes@.len() != 32 ==> (r matches Err(e) && e@ == QlinkErrorView::Protocol(
            "keyfile "@ + path@ + " must be exactly 32 bytes; got "@ + decimal(bytes@.len()),
        )),
{
    if bytes.len() != 32 {
        let mut text = "keyfile ".to_owned();
        text.append(path);
        text.append(" must be exactly 32 bytes; got ");
        push_decimal(&mut text, bytes.len() as u64);
        return Err(QlinkError::Protocol(text));
    }
    let mut seed: [u8; 32] = [0u8; 32];
    let mut i: usize = 0;
    while i < 32
        invariant
            i <= 32,
            bytes@.len() == 32,
            forall|k: int| 0 <= k < i ==> seed@[k] == bytes@[k],
        decreases 32 - i,
    {
        seed[i] = bytes[i];
        i = i + 1;
    }
    assert(seed@ =~= bytes@);
    Ok(seed)
}

// ---------------------------------------------------------------------------
// Publishing
// ---------------------------------------------------------------------------

/// How a mesh transport is set up, without an access list and a registry.
#[derive(Debug, Clone)]
pub struct MeshTransportConfig {
    pub mesh_id: String,
    pub local_peer_id: String,
    pub remote_peer_id: String,
    pub rendezvous_url: String,
    pub relay_url: Option<String>,
    pub bind_addr: String,
    pub overall_deadline_ms: u64,
    pub direct_probe_timeout_ms: u64,
    pub probe_pacing_ms: u64,
    pub enable_ice: bool,
    pub reconnect_initial_backoff_ms: u64,
    pub reconnect_max_backoff_ms: u64,
    pub metrics_endpoint_bind_addr: Option<String>,
    pub disable_inbound_responder: bool,
    pub peer_store_path: Option<String>,
    pub peer_store_key_b64: Option<String>,
    pub mesh_trust_policy: MeshTrustPolicy,
}

/// The settings that every transport of the tool shares: it answers inbound
/// links, checks no paths, names no remote peer, and backs off from a quarter of
/// a second to half a minute.
pub open spec fn has_tool_defaults(c: MeshTransportConfig) -> bool {
    &&& c.remote_peer_id@ == "qlink_unconfigured"@
    &&& c.overall_deadline_ms == 3_000
    &&& c.direct_probe_timeout_ms == 750
    &&& c.probe_pacing_ms == 50
    &&& !c.enable_ice
    &&& c.reconnect_initial_backoff_ms == 250
    &&& c.reconnect_max_backoff_ms == 30_000
    &&& !c.disable_inbound_responder
    &&& c.peer_store_key_b64 is None
    &&& c.mesh_trust_policy == MeshTrustPolicy::DevelopmentOptional
}

/// The transport of a tool that publishes itself.
pub fn publish_transport_config(
    mesh_id: &str,
    local_peer_id: &str,
    rendezvous_url: &str,
    bind_addr: &str,
    relay_url: Option<String>,
    metrics_endpoint_bind_addr: Option<String>,
    peer_store_path: Option<String>,
) -> (c: MeshTransportConfig)
    ensures
        has_tool_defaults(c),
        c.mesh_id@ == mesh_id@,
        c.local_peer_id@ == local_peer_id@,
        c.rendezvous_url@ == rendezvous_url@,
        c.bind_addr@ == bind_addr@,
        c.relay_url == relay_url,
        c.metrics_endpoint_bind_addr == metrics_endpoint_bind_addr,
        c.peer_store_path == peer_store_path,
{
    MeshTransportConfig {
        mesh_id: mesh_id.to_owned(),
        local_peer_id: local_peer_id.to_owned(),
        remote_peer_id: "qlink_unconfigured".to_owned(),
        rendezvous_url: rendezvous_url.to_owned(),
        relay_url,
        bind_addr: bind_addr.to_owned(),
        overall_deadline_ms: 3_000,
        direct_probe_timeout_ms: 750,
        probe_pacing_ms: 50,
        enable_ice: false,
        reconnect_initial_backoff_ms: 250,
        reconnect_max_backoff_ms: 30_000,
        metrics_endpoint_bind_addr,
        disable_inbound_responder: false,
        peer_store_path,
        peer_store_key_b64: None,
        mesh_trust_policy: MeshTrustPolicy::DevelopmentOptional,
    }
}

/// The transport of a responder that is also reached through a relay.
pub fn relay_responder_config(local_peer_id: &str, rendezvous_url: &str, relay_url: &str) -> (c:
    MeshTransportConfig)
    ensures
        has_tool_defaults(c),
        c.mesh_id@ == "devmesh"@,
        c.local_peer_id@ == local_peer_id@,
        c.rendezvous_url@ == rendezvous_url@,
        c.bind_addr@ == "127.0.0.1:0"@,
        c.relay_url matches Some(url) && url@ == relay_url@,
        c.metrics_endpoint_bind_addr is None,
        c.peer_store_path is None,
{
    publish_transport_config(
        "devmesh",
        local_peer_id,
        rendezvous_url,
        "127.0.0.1:0",
        Some(relay_url.to_owned()),
        None,
        None,
    )
}

/// How often the record of this node is published. The first record has the
/// sequence number 1.
#[derive(Debug, Clone, Copy, PartialEq, Eq, Structural)]
pub struct PublishSchedule {
    pub sequence: u64,
}

/// The seconds between two records: half of their lifetime, and at least one.
pub open spec fn republish_seconds(ttl_seconds: nat) -> nat {
    if ttl_seconds / 2 > 1 {
        ttl_seconds / 2
    } else {
        1
    }
}

/// The sequence number after another one, which stays at the highest.
pub open spec fn next_sequence(sequence: nat) -> nat {
    if sequence < u64::MAX {
        sequence + 1
    } else {
        sequence
    }
}

impl PublishSchedule {
    pub fn new() -> (s: PublishSchedule)
        ensures
            s.sequence == 1,
    {
        PublishSchedule { sequence: 1 }
    }

    /// Takes note of a published record, and says how long to wait for the next
    /// one: not at all when only one was asked for.
    pub fn published(&mut self, ttl_seconds: u64, once: bool) -> (wait: Option<Duration>)
        ensures
            once ==> wait is None && *final(self) == *old(self),
            !once ==> final(self).sequence == next_sequence(old(self).sequence as nat) && (
            wait matches Some(d) && d.nanos == republish_seconds(ttl_seconds as nat)
                * 1_000_000_000),
    {
        if once {
            return None;
        }
        self.sequence = self.sequence.saturating_add(1);
        let half: u64 = ttl_seconds / 2;
        let secs: u64 = if half > 1 {
            half
        } else {
            1
        };
        Some(Duration::from_secs(secs))
    }
}

/// A record is published anew before the last one expires, if it lives for two
/// seconds or more, and the tool never waits for less than a second.
pub proof fn law_record_is_renewed_in_time(ttl_seconds: nat)
    requires
        ttl_seconds >= 2,
    ensures
        1 <= republish_seconds(ttl_seconds) < ttl_seconds,
{
}

/// Each record has a higher sequence number than the last, until the numbers run
/// out.
pub proof fn law_sequence_rises(sequence: nat)
    requires
        sequence < u64::MAX,
    ensures
        sequence < next_sequence(sequence) <= u64::MAX,
{
}

// ---------------------------------------------------------------------------
// Streaming frames
// ---------------------------------------------------------------------------

/// The connector of a direct send: the timeout bounds the probe and the whole.
pub fn direct_send_config<A, K, R>(
    mesh_id: &str,
    local_peer_id: &str,
    keypair: K,
    timeout_ms: u64,
    relay: Option<String>,
) -> (c: MeshConnectorConfig<A, K, R>)
    ensures
        c.mesh_id@ == mesh_id@,
        c.local_peer_id@ == local_peer_id@,
        c.local_device_keypair == Some(keypair),
        c.overall_deadline.nanos == timeout_ms * 1_000_000,
        c.direct_probe_timeout.nanos == timeout_ms * 1_000_000,
        c.probe_pacing.nanos == 50_000_000,
        c.relay_server == relay,
        c.local_ice_credentials is None,
        c.ice_check_timeout is None,
        c.peer_acl is None,
        c.mesh_trust_policy == MeshTrustPolicy::DevelopmentOptional,
        c.identity_registry_lookup is None,
{
    let timeout = Duration::from_millis(timeout_ms);
    let c: MeshConnectorConfig<A, K, R> = MeshConnectorConfig::new(mesh_id, local_peer_id);
    let c = c.with_local_device_keypair(keypair);
    let c = c.with_overall_deadline(timeout);
    let c = c.with_direct_probe_timeout(timeout);
    let c = c.with_probe_pacing(Duration::from_millis(50));
    match relay {
        Some(relay_url) => c.with_relay_server(relay_url),
        None => c,
    }
}

/// A stream of frames over one link.
#[derive(Debug, Clone, Copy, PartialEq, Eq, Structural)]
pub struct FrameStream {
    /// How many frames the stream has.
    pub frame_count: u64,
    pub frames_sent: u64,
    /// How long the first frame took.
    pub first_elapsed: Duration,
}

/// What a stream does after a frame.
#[derive(Debug, Clone, Copy, PartialEq, Eq, Structural)]
pub enum StreamStep {
    Send,
    SleepAndSend(Duration),
    Finish,
}

/// The stream after one more frame.
pub open spec fn stream_after(s: FrameStream, elapsed: Duration) -> FrameStream {
    FrameStream {
        frame_count: s.frame_count,
        frames_sent: (s.frames_sent + 1) as u64,
        first_elapsed: if s.frames_sent == 0 {
            elapsed
        } else {
            s.first_elapsed
        },
    }
}

/// What follows when that many frames are out.
pub open spec fn stream_step(s: FrameStream, interval_ms: u64) -> StreamStep {
    if s.frames_sent >= s.frame_count {
        StreamStep::Finish
    } else if interval_ms > 0 {
        StreamStep::SleepAndSend(Duration { nanos: (interval_ms * 1_000_000) as u128 })
    } else {
        StreamStep::Send
    }
}

/// The stream after frames that took so long.
pub open spec fn stream_of(count: u64, elapsed: Seq<Duration>) -> FrameStream
    decreases elapsed.len(),
{
    if elapsed.len() == 0 {
        FrameStream {
            frame_count: if count > 1 {
                count
            } else {
                1
            },
            frames_sent: 0,
            first_elapsed: Duration { nanos: 0 },
        }
    } else {
        stream_after(stream_of(count, elapsed.drop_last()), elapsed.last())
    }
}

impl FrameStream {
    /// A stream of `count` frames, but of one at least.
    pub fn new(count: u64) -> (s: FrameStream)
        ensures
            s == stream_of(count, Seq::empty()),
    {
        let frame_count: u64 = if count > 1 {
            count
        } else {
            1
        };
        FrameStream { frame_count, frames_sent: 0, first_elapsed: Duration { nanos: 0 } }
    }

    /// Takes note of a frame that took `elapsed`, and says what follows.
    pub fn sent(&mut self, elapsed: Duration, interval_ms: u64) -> (step: StreamStep)
        requires
            old(self).frames_sent < old(self).frame_count,
        ensures
            *final(self) == stream_after(*old(self), elapsed),
            step == stream_step(*final(self), interval_ms),
    {
        if self.frames_sent == 0 {
            self.first_elapsed = elapsed;
        }
        self.frames_sent = self.frames_sent + 1;
        if self.frames_sent >= self.frame_count {
            StreamStep::Finish
        } else if interval_ms > 0 {
            StreamStep::SleepAndSend(Duration::from_millis(interval_ms))
        } else {
            StreamStep::Send
        }
    }
}

/// A stream ends with the last of its frames and not before, and reports how
/// long the first one took.
pub proof fn law_stream_sends_its_count(count: u64, elapsed: Seq<Duration>, interval_ms: u64)
    requires
        elapsed.len() <= stream_of(count, Seq::empty()).frame_count,
    ensures
        ({
            let s = stream_of(count, elapsed);
            &&& s.frame_count == if count > 1 {
                count
            } else {
                1
            }
            &&& s.frames_sent == elapsed.len()
            &&& stream_step(s, interval_ms) == StreamStep::Finish <==> elapsed.len()
                == s.frame_count
            &&& elapsed.len() > 0 ==> s.first_elapsed == elapsed[0]
        }),
    decreases elapsed.len(),
{
    if elapsed.len() > 0 {
        law_stream_sends_its_count(count, elapsed.drop_last(), interval_ms);
    }
}

/// What a direct send came to.
#[derive(Debug, Clone)]
pub struct DirectSendRun {
    pub outcome: ConnectionOutcome,
    pub datagram_delivery_elapsed: Duration,
    pub frames_sent: u64,
    pub stream_elapsed: Duration,
}

/// The phases of a direct send in milliseconds.
#[derive(Debug, Clone, Copy, PartialEq, Eq, Structural)]
pub struct DirectSendTimingReport {
    pub rendezvous_lookup_ms: u128,
    pub direct_probe_wall_clock_ms: u128,
    pub quic_connect_ms: Option<u128>,
    pub identity_assertion_ms: Option<u128>,
    pub relay_connect_ms: Option<u128>,
    pub datagram_delivery_ms: u128,
    pub total_elapsed_ms: u128,
}

/// A span in milliseconds.
pub open spec fn millis_of(d: Duration) -> u128 {
    d.nanos / 1_000_000
}

/// The first attempt that established a link.
pub open spec fn first_established(attempts: Seq<ProbeAttemptView>) -> Option<ProbeAttemptView>
    decreases attempts.len(),
{
    if attempts.len() == 0 {
        None
    } else if attempts[0].outcome is Established {
        Some(attempts[0])
    } else {
        first_established(attempts.drop_first())
    }
}

impl DirectSendTimingReport {
    pub fn from_run(run: &DirectSendRun) -> (report: DirectSendTimingReport)
        ensures
            report.rendezvous_lookup_ms == 0,
            report.direct_probe_wall_clock_ms == millis_of(run.outcome.total_elapsed),
            report.relay_connect_ms is None,
            report.datagram_delivery_ms == millis_of(run.datagram_delivery_elapsed),
            report.total_elapsed_ms == millis_of(run.outcome.total_elapsed),
            match first_established(attempt_views(run.outcome.attempts@)) {
                Some(attempt) => report.quic_connect_ms == Some(millis_of(attempt.elapsed))
                    && report.identity_assertion_ms == match attempt.identity_assertion_elapsed {
                    Some(d) => Some(millis_of(d)),
                    None => None,
                },
                None => report.quic_connect_ms is None && report.identity_assertion_ms is None,
            },
    {
        let ghost views = attempt_views(run.outcome.attempts@);
        let mut quic_connect_ms: Option<u128> = None;
        let mut identity_assertion_ms: Option<u128> = None;
        let mut i: usize = 0;
        let mut found: bool = false;
        assert(views.skip(0) =~= views);
        while i < run.outcome.attempts.len() && !found
            invariant
                i <= run.outcome.attempts@.len(),
                views == attempt_views(run.outcome.attempts@),
                !found ==> first_established(views) == first_established(views.skip(i as int))
                    && quic_connect_ms is None && identity_assertion_ms is None,
                found ==> (first_established(views) matches Some(attempt) && quic_connect_ms
                    == Some(millis_of(attempt.elapsed)) && identity_assertion_ms == (
                match attempt.identity_assertion_elapsed {
                    Some(d) => Some(millis_of(d)),
                    None => None,
                })),
            decreases run.outcome.attempts@.len() - i,
        {
            let attempt = &run.outcome.attempts[i];
            assert(views.skip(i as int)[0] == attempt@);
            assert(views.skip(i as int).drop_first() =~= views.skip(i + 1));
            if let ProbeOutcome::Established = attempt.outcome {
                quic_connect_ms = Some(attempt.elapsed.as_millis());
                identity_assertion_ms =
                match attempt.identity_assertion_elapsed {
                    Some(d) => Some(d.as_millis()),
                    None => None,
                };
                found = true;
            }
            i = i + 1;
        }
        DirectSendTimingReport {
            rendezvous_lookup_ms: 0,
            direct_probe_wall_clock_ms: run.outcome.total_elapsed.as_millis(),
            quic_connect_ms,
            identity_assertion_ms,
            relay_connect_ms: None,
            datagram_delivery_ms: run.datagram_delivery_elapsed.as_millis(),
            total_elapsed_ms: run.outcome.total_elapsed.as_millis(),
        }
    }
}

/// The payload bytes that a stream carried.
pub fn stream_bytes(frames_sent: u64, payload_len: u64) -> (n: u64)
    requires
        frames_sent * payload_len <= u64::MAX,
    ensures
        n == frames_sent * payload_len,
{
    frames_sent * payload_len
}

/// The name of a path in reports.
pub fn path_label(path_kind: PathKind) -> (s: &'static str)
    ensures
        s@ == match path_kind {
            PathKind::Direct => "native-udp-direct"@,
            PathKind::Relay => "relay"@,
        },
{
    match path_kind {
        PathKind::Direct => "native-udp-direct",
        PathKind::Relay => "relay",
    }
}

// ---------------------------------------------------------------------------
// Demonstrations
// ---------------------------------------------------------------------------

/// The commands that are refused because they bypass the protected session.
#[derive(Debug, Clone, Copy, PartialEq, Eq, Structural)]
pub enum DisabledCommand {
    QuicLoopback,
    MeshLoopback,
    RelayLoopback,
    RelaySmoke,
}

pub fn disabled_command_refusal(command: DisabledCommand) -> (e: QlinkError)
    ensures
        e@ == QlinkErrorView::Protocol(
            match command {
                DisabledCommand::QuicLoopback => "quic-loopback is disabled because raw Quinn DATAGRAM bypasses the app-layer PQC frame session"@,
                DisabledCommand::MeshLoopback => "mesh-loopback is disabled because the legacy local loopback bypasses the app-layer PQC frame session; use direct-send or mesh-transport tests"@,
                DisabledCommand::RelayLoopback => "relay-loopback is disabled until relay has an end-to-end PQC session"@,
                DisabledCommand::RelaySmoke => "relay-smoke is disabled until relay has an end-to-end PQC session"@,
            },
        ),
{
    match command {
        DisabledCommand::QuicLoopback => protocol(
            "quic-loopback is disabled because raw Quinn DATAGRAM bypasses the app-layer PQC frame session",
        ),
        DisabledCommand::MeshLoopback => protocol(
            "mesh-loopback is disabled because the legacy local loopback bypasses the app-layer PQC frame session; use direct-send or mesh-transport tests",
        ),
        DisabledCommand::RelayLoopback => protocol(
            "relay-loopback is disabled until relay has an end-to-end PQC session",
        ),
        DisabledCommand::RelaySmoke => protocol(
            "relay-smoke is disabled until relay has an end-to-end PQC session",
        ),
    }
}

/// What a demonstration of connecting shows.
#[derive(Debug, Clone, Copy, PartialEq, Eq, Structural)]
pub enum MeshDemo {
    StunGather,
    IceCheck,
    Direct,
    RelayFallback,
    Paced,
}

/// The demonstration of that name.
pub open spec fn demo_named(scenario: Seq<char>) -> Option<MeshDemo> {
    if scenario == "stun-gather"@ {
        Some(MeshDemo::StunGather)
    } else if scenario == "ice-check"@ {
        Some(MeshDemo::IceCheck)
    } else if scenario == "direct"@ {
        Some(MeshDemo::Direct)
    } else if scenario == "relay-fallback"@ {
        Some(MeshDemo::RelayFallback)
    } else if scenario == "paced"@ {
        Some(MeshDemo::Paced)
    } else {
        None
    }
}

/// The demonstrations that the native carrier has.
pub fn native_mesh_demo(scenario: &str) -> (r: Result<MeshDemo>)
    ensures
        match demo_named(scenario@) {
            Some(demo) if demo == MeshDemo::StunGather || demo == MeshDemo::IceCheck => r == Ok::<
                MeshDemo,
                QlinkError,
            >(demo),
            _ => r matches Err(e) && e@ == QlinkErrorView::Protocol(
                "native UDP live mesh carrier is not wired yet; enable dev-quic-carrier for legacy Quinn development carrier"@,
            ),
        },
{
    if same_text(scenario, "stun-gather") {
        return Ok(MeshDemo::StunGather);
    }
    if same_text(scenario, "ice-check") {
        return Ok(MeshDemo::IceCheck);
    }
    Err(
        protocol(
            "native UDP live mesh carrier is not wired yet; enable dev-quic-carrier for legacy Quinn development carrier",
        ),
    )
}

/// The demonstrations that the development carrier has.
pub fn carrier_mesh_demo(scenario: &str) -> (r: Result<MeshDemo>)
    ensures
        match demo_named(scenario@) {
            Some(demo) => r == Ok::<MeshDemo, QlinkError>(demo),
            None => r matches Err(e) && e@ == QlinkErrorView::Protocol(
                "unknown mesh-connect scenario: "@ + scenario@
                    + " (expected `direct`, `relay-fallback`, `paced`, or `stun-gather`)"@,
            ),
        },
{
    if same_text(scenario, "stun-gather") {
        return Ok(MeshDemo::StunGather);
    }
    if same_text(scenario, "ice-check") {
        return Ok(MeshDemo::IceCheck);
    }
    if same_text(scenario, "direct") {
        return Ok(MeshDemo::Direct);
    }
    if same_text(scenario, "relay-fallback") {
        return Ok(MeshDemo::RelayFallback);
    }
    if same_text(scenario, "paced") {
        return Ok(MeshDemo::Paced);
    }
    Err(
        QlinkError::Protocol(
            join3(
                "unknown mesh-connect scenario: ",
                scenario,
                " (expected `direct`, `relay-fallback`, `paced`, or `stun-gather`)",
            ),
        ),
    )
}

/// The remote peer of a demonstration is a responder that completes a session.
pub fn demo_has_responder(demo: MeshDemo) -> (b: bool)
    ensures
        b == (demo == MeshDemo::Direct || demo == MeshDemo::RelayFallback),
{
    match demo {
        MeshDemo::Direct | MeshDemo::RelayFallback => true,
        MeshDemo::StunGather | MeshDemo::IceCheck | MeshDemo::Paced => false,
    }
}

/// A host candidate at an address.
pub open spec fn demo_candidate(addr: SocketAddr, priority: u32) -> CandidateView {
    CandidateView {
        candidate_type: CandidateType::Host,
        address: ip_text(addr.ip),
        ip: Some(addr.ip),
        port: addr.port,
        priority,
    }
}

/// The local address that nothing listens at.
pub open spec fn closed_port() -> SocketAddr {
    SocketAddr { ip: IpAddr::V4(0x7f00_0001), port: 1 }
}

/// The test address that swallows every packet.
pub open spec fn black_hole() -> SocketAddr {
    SocketAddr { ip: IpAddr::V4(0xc000_0201), port: 4433 }
}

fn host_at(addr: SocketAddr, priority: u32) -> (c: CandidateEndpoint)
    ensures
        c@ == demo_candidate(addr, priority),
{
    CandidateEndpoint {
        candidate_type: CandidateType::Host,
        address: addr.ip.to_string(),
        ip: Some(addr.ip),
        port: addr.port,
        priority,
    }
}

/// The addresses that the remote peer of a demonstration publishes: those of its
/// responder when it is reached directly, a closed port when the link must fall
/// back to the relay, and a black hole ahead of a working address when probes
/// are paced.
pub fn demo_endpoints(
    demo: MeshDemo,
    server_addr: SocketAddr,
    responder_addr: Option<SocketAddr>,
) -> (r: Result<Vec<CandidateEndpoint>>)
    ensures
        match demo {
            MeshDemo::Direct => match responder_addr {
                Some(addr) => r matches Ok(v) && candidate_views(v@) == seq![
                    demo_candidate(addr, 120),
                ],
                None => r matches Err(e) && e@ == QlinkErrorView::Protocol(
                    "responder addr missing"@,
                ),
            },
            MeshDemo::RelayFallback => r matches Ok(v) && candidate_views(v@) == seq![
                demo_candidate(closed_port(), 120),
            ],
            MeshDemo::Paced => r matches Ok(v) && candidate_views(v@) == seq![
                demo_candidate(black_hole(), 1_000_000),
                demo_candidate(server_addr, 1),
            ],
            _ => r matches Ok(v) && v@.len() == 0,
        },
{
    let mut endpoints: Vec<CandidateEndpoint> = Vec::new();
    match demo {
        MeshDemo::Direct => match responder_addr {
            Some(addr) => {
                endpoints.push(host_at(addr, 120));
                assert(candidate_views(endpoints@) =~= seq![demo_candidate(addr, 120)]);
            },
            None => {
                return Err(protocol("responder addr missing"));
            },
        },
        MeshDemo::RelayFallback => {
            let closed = SocketAddr { ip: IpAddr::V4(0x7f00_0001), port: 1 };
            endpoints.push(host_at(closed, 120));
            assert(candidate_views(endpoints@) =~= seq![demo_candidate(closed_port(), 120)]);
        },
        MeshDemo::Paced => {
            let hole = SocketAddr { ip: IpAddr::V4(0xc000_0201), port: 4433 };
            endpoints.push(host_at(hole, 1_000_000));
            endpoints.push(host_at(server_addr, 1));
            assert(candidate_views(endpoints@) =~= seq![
                demo_candidate(black_hole(), 1_000_000),
                demo_candidate(server_addr, 1),
            ]);
        },
        MeshDemo::StunGather | MeshDemo::IceCheck => {},
    }
    Ok(endpoints)
}

/// The connector of a demonstration.
pub fn demo_connector_config<A, K, R>(
    demo: MeshDemo,
    local_peer_id: &str,
    keypair: K,
    relay_addr: String,
) -> (c: MeshConnectorConfig<A, K, R>)
    ensures
        c.mesh_id@ == "devmesh"@,
        c.local_peer_id@ == local_peer_id@,
        c.direct_probe_timeout.nanos == (if demo == MeshDemo::Paced {
            2_000_000_000int
        } else {
            400_000_000
        }),
        c.overall_deadline.nanos == 3_000_000_000,
        c.probe_pacing.nanos == 50_000_000,
        c.relay_server == Some(relay_addr),
        c.local_device_keypair == Some(keypair),
        c.local_ice_credentials is None,
        c.ice_check_timeout is None,
        c.peer_acl is None,
        c.mesh_trust_policy == MeshTrustPolicy::DevelopmentOptional,
        c.identity_registry_lookup is None,
{
    let probe_timeout = match demo {
        MeshDemo::Paced => Duration::from_millis(2_000),
        _ => Duration::from_millis(400),
    };
    let c: MeshConnectorConfig<A, K, R> = MeshConnectorConfig::new("devmesh", local_peer_id);
    let c = c.with_direct_probe_timeout(probe_timeout);
    let c = c.with_overall_deadline(Duration::from_secs(3));
    let c = c.with_probe_pacing(Duration::from_millis(50));
    let c = c.with_relay_server(relay_addr);
    c.with_local_device_keypair(keypair)
}

/// The two checks of the demonstration: one that knows the responder's password,
/// and one that does not.
pub fn demo_ice_requests(remote: &IceCredentials, local_ufrag: &str) -> (r: (
    IceCheckRequest,
    IceCheckRequest,
))
    ensures
        r.0.remote_credentials.ufrag@ == remote.ufrag@,
        r.0.remote_credentials.password@ == remote.password@,
        r.0.local_ufrag@ == local_ufrag@,
        r.0.local_priority == 0x7eff_ffff,
        r.0.controlling_tiebreaker == 0xdead_beef_cafe_d00d,
        r.0.use_candidate,
        r.1.remote_credentials.ufrag@ == remote.ufrag@,
        r.1.remote_credentials.password@ == "this-is-not-the-real-password"@,
        r.1.local_ufrag@ == local_ufrag@,
        r.1.local_priority == 0x7eff_ffff,
        r.1.controlling_tiebreaker == 0x1234_5678_9abc_def0,
        r.1.use_candidate,
{
    let valid = IceCheckRequest {
        remote_credentials: IceCredentials {
            ufrag: remote.ufrag.clone(),
            password: remote.password.clone(),
        },
        local_ufrag: local_ufrag.to_owned(),
        local_priority: 0x7eff_ffff,
        controlling_tiebreaker: 0xdead_beef_cafe_d00d,
        use_candidate: true,
    };
    let bogus = IceCheckRequest {
        remote_credentials: IceCredentials {
            ufrag: remote.ufrag.clone(),
            password: "this-is-not-the-real-password".to_owned(),
        },
        local_ufrag: local_ufrag.to_owned(),
        local_priority: 0x7eff_ffff,
        controlling_tiebreaker: 0x1234_5678_9abc_def0,
        use_candidate: true,
    };
    (valid, bogus)
}

/// The lines about the check that knows the password.
pub open spec fn valid_check_text(
    outcome: Result<IceCheckResult>,
    elapsed: Duration,
) -> Seq<char> {
    match outcome {
        Ok(result) => "valid_check_outcome=Established\nvalid_check_elapsed_ms="@ + decimal(
            millis_of(elapsed) as nat,
        ) + "\n"@ + match result.mapped_address {
            Some(addr) => "valid_check_peer_reflexive_address="@ + socket_text(addr) + "\n"@,
            None => Seq::empty(),
        },
        Err(e) => "valid_check_outcome=Failed\nvalid_check_error="@ + error_text(e@) + "\n"@,
    }
}

/// The lines about the check that does not.
pub open spec fn bogus_check_text(
    outcome: Result<IceCheckResult>,
    elapsed: Duration,
) -> Seq<char> {
    match outcome {
        Ok(_) => "bogus_check_outcome=UNEXPECTEDLY_AUTHENTICATED\n"@,
        Err(e) => "bogus_check_outcome=Rejected\nbogus_check_elapsed_ms="@ + decimal(
            millis_of(elapsed) as nat,
        ) + "\nbogus_check_error="@ + error_text(e@) + "\n"@,
    }
}

/// What the demonstration prints of its two checks.
pub fn ice_check_report(
    valid: &Result<IceCheckResult>,
    valid_elapsed: Duration,
    bogus: &Result<IceCheckResult>,
    bogus_elapsed: Duration,
) -> (s: String)
    ensures
        s@ == valid_check_text(*valid, valid_elapsed) + bogus_check_text(*bogus, bogus_elapsed),
{
    let mut s = "".to_owned();
    match valid {
        Ok(result) => {
            s.append("valid_check_outcome=Established\nvalid_check_elapsed_ms=");
            push_wide_decimal(&mut s, valid_elapsed.as_millis());
            s.append("\n");
            if let Some(addr) = result.mapped_address {
                s.append("valid_check_peer_reflexive_address=");
                let text = addr.to_string();
                s.append(text.as_str());
                s.append("\n");
            }
        },
        Err(e) => {
            s.append("valid_check_outcome=Failed\nvalid_check_error=");
            let text = e.to_string();
            s.append(text.as_str());
            s.append("\n");
        },
    }
    proof {
        reveal_strlit("");
        assert(s@ =~= valid_check_text(*valid, valid_elapsed));
    }
    match bogus {
        Ok(_) => {
            s.append("bogus_check_outcome=UNEXPECTEDLY_AUTHENTICATED\n");
        },
        Err(e) => {
            s.append("bogus_check_outcome=Rejected\nbogus_check_elapsed_ms=");
            push_wide_decimal(&mut s, bogus_elapsed.as_millis());
            s.append("\nbogus_check_error=");
            let text = e.to_string();
            s.append(text.as_str());
            s.append("\n");
        },
    }
    assert(s@ =~= valid_check_text(*valid, valid_elapsed) + bogus_check_text(
        *bogus,
        bogus_elapsed,
    ));
    s
}

} // verus!
