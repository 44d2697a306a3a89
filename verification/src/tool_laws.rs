//! What holds of the command line tool's decisions: when a record is published
//! anew, how a stream is sent, and what its reports tell.

use crate::ctl::{
    DirectSendRun, DirectSendTimingReport, FrameStream, KeySource, MeshDemo, MeshTransportConfig,
    PublishSchedule, StreamStep, carrier_mesh_demo, demo_endpoints, demo_has_responder,
    demo_ice_requests, direct_send_config, first_established, key_source, keyfile_seed,
    native_mesh_demo, path_label, publish_transport_config, relay_responder_config, stream_bytes,
};
use crate::discovery::{CandidateEndpoint, candidate_views};
use crate::error::{QlinkError, Result};
use crate::ice::{IceCheckRequest, IceCredentials};
use crate::mesh_connection::{MeshConnectorConfig, PathKind, ProbeAttemptView, attempt_views};
use crate::net::{IpAddr, SocketAddr};
use crate::time::Duration;
use vstd::prelude::*;
use vstd::string::*;

verus! {

/// A record that is to be kept alive is published again after half its life, but
/// never sooner than after a second, under the next number; one that is published
/// once is not.
pub proof fn law_records_are_published_anew(
    schedule: &mut PublishSchedule,
    ttl_seconds: u64,
    once: bool,
    wait: Option<Duration>,
)
    requires
        call_ensures(PublishSchedule::published, (schedule, ttl_seconds, once), wait),
    ensures
        wait is None <==> once,
        once ==> final(schedule).sequence == old(schedule).sequence,
        !once && ttl_seconds >= 2 ==> wait->0.nanos == (ttl_seconds as int / 2) * 1_000_000_000,
        !once && ttl_seconds < 2 ==> wait->0.nanos == 1_000_000_000,
        !once && old(schedule).sequence < u64::MAX ==> final(schedule).sequence == old(
            schedule,
        ).sequence + 1,
        !once && old(schedule).sequence == u64::MAX ==> final(schedule).sequence == u64::MAX,
{
}

/// Publishing starts at the first number.
pub proof fn law_publishing_starts_at_one(schedule: PublishSchedule)
    requires
        call_ensures(PublishSchedule::new, (), schedule),
    ensures
        schedule.sequence == 1,
{
}

/// A stream has as many frames as were asked for and at least one, and has sent
/// none.
pub proof fn law_new_stream_has_sent_nothing(count: u64, s: FrameStream)
    requires
        call_ensures(FrameStream::new, (count,), s),
    ensures
        count >= 1 ==> s.frame_count == count,
        count == 0 ==> s.frame_count == 1,
        s.frames_sent == 0,
{
}

/// Every frame that is sent counts; the first one's time is kept; the stream ends
/// with its last frame, and until then pauses for the interval, where there is one.
pub proof fn law_stream_counts_its_frames(
    stream: &mut FrameStream,
    elapsed: Duration,
    interval_ms: u64,
    step: StreamStep,
)
    requires
        call_ensures(FrameStream::sent, (stream, elapsed, interval_ms), step),
        old(stream).frames_sent < old(stream).frame_count,
    ensures
        final(stream).frame_count == old(stream).frame_count,
        final(stream).frames_sent == old(stream).frames_sent + 1,
        old(stream).frames_sent == 0 ==> final(stream).first_elapsed == elapsed,
        old(stream).frames_sent > 0 ==> final(stream).first_elapsed == old(stream).first_elapsed,
        step is Finish <==> old(stream).frames_sent + 1 == old(stream).frame_count,
        !(step is Finish) && interval_ms == 0 ==> step is Send,
        !(step is Finish) && interval_ms > 0 ==> (step matches StreamStep::SleepAndSend(pause)
            && pause.nanos == interval_ms * 1_000_000),
{
}

proof fn lemma_first_established(attempts: Seq<ProbeAttemptView>, k: int)
    requires
        0 <= k < attempts.len(),
        attempts[k].outcome is Established,
        forall|i: int| 0 <= i < k ==> !((#[trigger] attempts[i]).outcome is Established),
    ensures
        first_established(attempts) == Some(attempts[k]),
    decreases k,
{
    if k > 0 {
        assert(!(attempts[0].outcome is Established));
        let rest = attempts.drop_first();
        assert forall|i: int| 0 <= i < k - 1 implies !((
        #[trigger] rest[i]).outcome is Established) by {
            assert(rest[i] == attempts[i + 1]);
        }
        lemma_first_established(rest, k - 1);
    }
}

proof fn lemma_none_established(attempts: Seq<ProbeAttemptView>)
    requires
        forall|i: int|
            0 <= i < attempts.len() ==> !((#[trigger] attempts[i]).outcome is Established),
    ensures
        first_established(attempts) is None,
    decreases attempts.len(),
{
    if attempts.len() > 0 {
        assert(!(attempts[0].outcome is Established));
        let rest = attempts.drop_first();
        assert forall|i: int| 0 <= i < rest.len() implies !((
        #[trigger] rest[i]).outcome is Established) by {
            assert(rest[i] == attempts[i + 1]);
        }
        lemma_none_established(rest);
    }
}

/// The report of a direct send tells whole milliseconds: of the whole run, of the
/// delivery, and of the first attempt that was established.
pub proof fn law_report_tells_the_established_attempt(
    run: &DirectSendRun,
    report: DirectSendTimingReport,
    k: int,
)
    requires
        call_ensures(DirectSendTimingReport::from_run, (run,), report),
        0 <= k < run.outcome.attempts@.len(),
        run.outcome.attempts@[k]@.outcome is Established,
        forall|i: int|
            0 <= i < k ==> !((#[trigger] run.outcome.attempts@[i])@.outcome is Established),
    ensures
        report.total_elapsed_ms == run.outcome.total_elapsed.nanos / 1_000_000,
        report.direct_probe_wall_clock_ms == run.outcome.total_elapsed.nanos / 1_000_000,
        report.datagram_delivery_ms == run.datagram_delivery_elapsed.nanos / 1_000_000,
        report.rendezvous_lookup_ms == 0,
        report.relay_connect_ms is None,
        report.quic_connect_ms == Some(run.outcome.attempts@[k]@.elapsed.nanos / 1_000_000),
        run.outcome.attempts@[k]@.identity_assertion_elapsed matches Some(d)
            ==> report.identity_assertion_ms == Some(d.nanos / 1_000_000),
        run.outcome.attempts@[k]@.identity_assertion_elapsed is None
            ==> report.identity_assertion_ms is None,
{
    let attempts = attempt_views(run.outcome.attempts@);
    assert(attempts[k] == run.outcome.attempts@[k]@);
    assert forall|i: int| 0 <= i < k implies !((#[trigger] attempts[i]).outcome is Established) by {
        assert(attempts[i] == run.outcome.attempts@[i]@);
    }
    lemma_first_established(attempts, k);
}

/// Without an established attempt a report tells no connection.
pub proof fn law_report_without_success_tells_no_connection(
    run: &DirectSendRun,
    report: DirectSendTimingReport,
)
    requires
        call_ensures(DirectSendTimingReport::from_run, (run,), report),
        forall|i: int|
            0 <= i < run.outcome.attempts@.len() ==> !((
            #[trigger] run.outcome.attempts@[i])@.outcome is Established),
    ensures
        report.quic_connect_ms is None,
        report.identity_assertion_ms is None,
{
    let attempts = attempt_views(run.outcome.attempts@);
    assert forall|i: int| 0 <= i < attempts.len() implies !((
    #[trigger] attempts[i]).outcome is Established) by {
        assert(attempts[i] == run.outcome.attempts@[i]@);
    }
    lemma_none_established(attempts);
}

/// A key is loaded where its file is there, made and stored where the file is
/// named but not there, and made for the run where none is named.
pub proof fn law_key_comes_from_its_file(
    keyfile: Option<&str>,
    exists_already: bool,
    source: KeySource,
)
    requires
        call_ensures(key_source, (keyfile, exists_already), source),
    ensures
        source is Load <==> keyfile is Some && exists_already,
        source is GenerateAndStore <==> keyfile is Some && !exists_already,
        source is Generate <==> keyfile is None,
{
}

/// A key file holds thirty-two bytes, which are the seed.
pub proof fn law_keyfile_holds_the_seed(path: &str, bytes: &[u8], r: Result<[u8; 32]>)
    requires
        call_ensures(keyfile_seed, (path, bytes), r),
    ensures
        r is Ok <==> bytes@.len() == 32,
        r matches Ok(seed) ==> seed@ == bytes@,
{
}

/// A direct send takes its one timeout for the probe and for the whole attempt,
/// and dials with the key and the relay that were given.
pub proof fn law_direct_send_has_one_timeout<A, K, R>(
    mesh_id: &str,
    local_peer_id: &str,
    keypair: K,
    timeout_ms: u64,
    relay: Option<String>,
    c: MeshConnectorConfig<A, K, R>,
)
    requires
        call_ensures(
            direct_send_config::<A, K, R>,
            (mesh_id, local_peer_id, keypair, timeout_ms, relay),
            c,
        ),
    ensures
        c.mesh_id@ == mesh_id@,
        c.local_peer_id@ == local_peer_id@,
        c.overall_deadline.nanos == timeout_ms * 1_000_000,
        c.direct_probe_timeout.nanos == c.overall_deadline.nanos,
        c.local_device_keypair == Some(keypair),
        c.relay_server == relay,
{
}

/// A demo that does not need a live carrier runs without one; the others do not.
pub proof fn law_native_demos(scenario: &str, r: Result<MeshDemo>)
    requires
        call_ensures(native_mesh_demo, (scenario,), r),
    ensures
        r is Ok <==> scenario@ == "stun-gather"@ || scenario@ == "ice-check"@,
        scenario@ == "stun-gather"@ ==> r == Ok::<MeshDemo, QlinkError>(MeshDemo::StunGather),
        scenario@ == "ice-check"@ ==> r == Ok::<MeshDemo, QlinkError>(MeshDemo::IceCheck),
{
    lemma_demo_names();
}

proof fn lemma_demo_names()
    ensures
        "stun-gather"@ != "ice-check"@,
        "direct"@ != "stun-gather"@ && "direct"@ != "ice-check"@,
        "relay-fallback"@ != "stun-gather"@ && "relay-fallback"@ != "ice-check"@,
        "paced"@ != "stun-gather"@ && "paced"@ != "ice-check"@,
{
    reveal_strlit("stun-gather");
    reveal_strlit("ice-check");
    reveal_strlit("direct");
    reveal_strlit("relay-fallback");
    reveal_strlit("paced");
    assert("stun-gather"@.len() == 11);
    assert("ice-check"@.len() == 9);
    assert("direct"@.len() == 6);
    assert("relay-fallback"@.len() == 14);
    assert("paced"@.len() == 5);
}

/// A direct demo dials its responder, a fallback demo a port that nobody listens
/// on, and a paced one an address that swallows everything before the server.
pub proof fn law_demo_endpoints(
    demo: MeshDemo,
    server_addr: SocketAddr,
    responder_addr: Option<SocketAddr>,
    r: Result<Vec<CandidateEndpoint>>,
)
    requires
        call_ensures(demo_endpoints, (demo, server_addr, responder_addr), r),
    ensures
        r is Err <==> demo is Direct && responder_addr is None,
        demo is Direct && responder_addr is Some ==> r->Ok_0@.len() == 1 && r->Ok_0@[0]@.ip == Some(
            responder_addr->0.ip,
        ) && r->Ok_0@[0]@.port == responder_addr->0.port && r->Ok_0@[0]@.candidate_type is Host,
        demo is RelayFallback ==> r->Ok_0@.len() == 1 && r->Ok_0@[0]@.ip == Some(
            IpAddr::V4(0x7f00_0001),
        ) && r->Ok_0@[0]@.port == 1,
        demo is Paced ==> r->Ok_0@.len() == 2 && r->Ok_0@[0]@.ip == Some(IpAddr::V4(0xc000_0201))
            && r->Ok_0@[0]@.port == 4433 && r->Ok_0@[1]@.ip == Some(server_addr.ip) && r->Ok_0@[1]@.port == server_addr.port
            && r->Ok_0@[0]@.priority > r->Ok_0@[1]@.priority,
        demo is StunGather || demo is IceCheck ==> r->Ok_0@.len() == 0,
{
    if r is Ok {
        let v = r->Ok_0@;
        let views = candidate_views(v);
        assert(views.len() == v.len());
        if v.len() > 0 {
            assert(views[0] == v[0]@);
        }
        if v.len() > 1 {
            assert(views[1] == v[1]@);
        }
    }
}

/// Every demo is known by its name, and no other name is a demo's.
pub proof fn law_demos_are_known_by_name(scenario: &str, r: Result<MeshDemo>)
    requires
        call_ensures(carrier_mesh_demo, (scenario,), r),
    ensures
        scenario@ == "direct"@ ==> r == Ok::<MeshDemo, QlinkError>(MeshDemo::Direct),
        scenario@ == "relay-fallback"@ ==> r == Ok::<MeshDemo, QlinkError>(MeshDemo::RelayFallback),
        scenario@ == "paced"@ ==> r == Ok::<MeshDemo, QlinkError>(MeshDemo::Paced),
        scenario@ == "stun-gather"@ ==> r == Ok::<MeshDemo, QlinkError>(MeshDemo::StunGather),
        scenario@ == "ice-check"@ ==> r == Ok::<MeshDemo, QlinkError>(MeshDemo::IceCheck),
        r is Ok <==> scenario@ == "direct"@ || scenario@ == "relay-fallback"@ || scenario@
            == "paced"@ || scenario@ == "stun-gather"@ || scenario@ == "ice-check"@,
{
    lemma_demo_names();
    reveal_strlit("direct");
    reveal_strlit("relay-fallback");
    reveal_strlit("paced");
    assert("direct"@.len() == 6);
    assert("relay-fallback"@.len() == 14);
    assert("paced"@.len() == 5);
}

/// The tool's transports, whatever for, leave the peer open and share their times,
/// policy and pauses.
pub proof fn law_tool_transports_share_their_settings(
    mesh_id: &str,
    local_peer_id: &str,
    rendezvous_url: &str,
    bind_addr: &str,
    relay_url: Option<String>,
    metrics: Option<String>,
    peer_store: Option<String>,
    c: MeshTransportConfig,
    relay: &str,
    d: MeshTransportConfig,
)
    requires
        call_ensures(
            publish_transport_config,
            (mesh_id, local_peer_id, rendezvous_url, bind_addr, relay_url, metrics, peer_store),
            c,
        ),
        call_ensures(relay_responder_config, (local_peer_id, rendezvous_url, relay), d),
    ensures
        c.mesh_id@ == mesh_id@,
        c.bind_addr@ == bind_addr@,
        c.relay_url == relay_url,
        d.mesh_id@ == "devmesh"@,
        d.bind_addr@ == "127.0.0.1:0"@,
        d.relay_url is Some && d.relay_url->0@ == relay@,
        c.local_peer_id@ == local_peer_id@ && d.local_peer_id@ == local_peer_id@,
        c.rendezvous_url@ == rendezvous_url@ && d.rendezvous_url@ == rendezvous_url@,
        c.remote_peer_id@ == "qlink_unconfigured"@ && d.remote_peer_id@ == "qlink_unconfigured"@,
        c.overall_deadline_ms == 3_000 && d.overall_deadline_ms == 3_000,
        c.direct_probe_timeout_ms == 750 && d.direct_probe_timeout_ms == 750,
        c.probe_pacing_ms == 50 && d.probe_pacing_ms == 50,
        !c.enable_ice && !d.enable_ice,
        c.reconnect_initial_backoff_ms == 250 && d.reconnect_initial_backoff_ms == 250,
        c.reconnect_max_backoff_ms == 30_000 && d.reconnect_max_backoff_ms == 30_000,
        c.mesh_trust_policy is DevelopmentOptional && d.mesh_trust_policy is DevelopmentOptional,
        !c.disable_inbound_responder && !d.disable_inbound_responder,
{
}

/// A demo needs a responder where somebody is to answer.
pub proof fn law_demos_with_a_responder(demo: MeshDemo, b: bool)
    requires
        call_ensures(demo_has_responder, (demo,), b),
    ensures
        b <==> demo is Direct || demo is RelayFallback,
{
}

/// A demo of checks makes a good request and one that differs in the password, so
/// that only the first can be answered well.
pub proof fn law_demo_checks_differ_in_the_password(
    remote: &IceCredentials,
    local_ufrag: &str,
    r: (IceCheckRequest, IceCheckRequest),
)
    requires
        call_ensures(demo_ice_requests, (remote, local_ufrag), r),
    ensures
        r.0.remote_credentials.ufrag@ == remote.ufrag@,
        r.1.remote_credentials.ufrag@ == remote.ufrag@,
        r.0.remote_credentials.password@ == remote.password@,
        r.1.remote_credentials.password@ == "this-is-not-the-real-password"@,
        r.0.local_ufrag@ == local_ufrag@ && r.1.local_ufrag@ == local_ufrag@,
        r.0.use_candidate && r.1.use_candidate,
{
}

/// A stream's bytes are its frames times their length.
pub proof fn law_stream_bytes(frames_sent: u64, payload_len: u64, n: u64)
    requires
        call_ensures(stream_bytes, (frames_sent, payload_len), n),
    ensures
        n == frames_sent * payload_len,
{
}

/// A path is told as direct or over a relay.
pub proof fn law_paths_are_told_apart(kind: PathKind, s: &'static str)
    requires
        call_ensures(path_label, (kind,), s),
    ensures
        kind is Direct ==> s@ == "native-udp-direct"@,
        kind is Relay ==> s@ == "relay"@,
{
}

} // verus!
