//! Connecting to a peer: which record to believe, which addresses to try and in
//! which order, what a race of probes comes to, and what is remembered of it.

use crate::discovery::CandidateType;
use crate::dytallix_identity::{MeshTrustPolicy, RegistryDecision};
use crate::error::{QlinkError, QlinkErrorView, Result};
use crate::ice::IceCredentials;
use crate::mdns_discovery::{AnnouncementView, MdnsPeerAnnouncement, MdnsPeerObservation};
use crate::net::SocketAddr;
use crate::probe::{ProbeOutcome, ProbeOutcomeView};
use crate::text_map::TextMap;
use crate::time::{Duration, Instant};
use vstd::prelude::*;
use vstd::string::*;

verus! {

/// How a link reaches its peer.
#[derive(Debug, Clone, Copy, PartialEq, Eq, Structural)]
pub enum PathKind {
    Direct,
    Relay,
}

/// Something that happened to the network of the device.
#[derive(Debug, Clone, Copy, PartialEq, Eq, Structural)]
pub enum NetworkEvent {
    PathChanged,
    PreSleep,
    PostWake,
    ReachabilityChanged { reachable: bool },
}

/// What a network event did, and whether peers should be probed again.
#[derive(Debug, Clone, Copy, PartialEq, Eq, Structural)]
pub struct NetworkEventResponse {
    pub cache_entries_invalidated: usize,
    pub reprobe_recommended: bool,
}

/// Where the record of a peer came from.
#[derive(Debug, Clone, Copy, PartialEq, Eq, Structural)]
pub enum PeerRecordSource {
    RendezvousLive,
    PeerStoreCache,
}

impl PeerRecordSource {
    pub fn trust_source_code(self) -> (code: u32)
        ensures
            code == match self {
                PeerRecordSource::RendezvousLive => 1u32,
                PeerRecordSource::PeerStoreCache => 2u32,
            },
    {
        match self {
            PeerRecordSource::RendezvousLive => 1,
            PeerRecordSource::PeerStoreCache => 2,
        }
    }
}

/// A launched probe as it is reported.
#[derive(Debug, Clone)]
pub struct ProbeAttempt {
    pub candidate_type: CandidateType,
    pub address: SocketAddr,
    pub elapsed: Duration,
    pub outcome: ProbeOutcome,
    pub quic_connect_elapsed: Option<Duration>,
    pub identity_assertion_elapsed: Option<Duration>,
    pub ice_round_trip: Option<Duration>,
    pub peer_reflexive_address: Option<SocketAddr>,
}

/// The model of a [`ProbeAttempt`].
pub struct ProbeAttemptView {
    pub candidate_type: CandidateType,
    pub address: SocketAddr,
    pub elapsed: Duration,
    pub outcome: ProbeOutcomeView,
    pub quic_connect_elapsed: Option<Duration>,
    pub identity_assertion_elapsed: Option<Duration>,
    pub ice_round_trip: Option<Duration>,
    pub peer_reflexive_address: Option<SocketAddr>,
}

impl View for ProbeAttempt {
    type V = ProbeAttemptView;

    open spec fn view(&self) -> ProbeAttemptView {
        ProbeAttemptView {
            candidate_type: self.candidate_type,
            address: self.address,
            elapsed: self.elapsed,
            outcome: self.outcome@,
            quic_connect_elapsed: self.quic_connect_elapsed,
            identity_assertion_elapsed: self.identity_assertion_elapsed,
            ice_round_trip: self.ice_round_trip,
            peer_reflexive_address: self.peer_reflexive_address,
        }
    }
}

/// The models of a list of attempts.
pub open spec fn attempt_views(attempts: Seq<ProbeAttempt>) -> Seq<ProbeAttemptView> {
    Seq::new(attempts.len(), |i: int| attempts[i]@)
}

/// What connecting to a peer came to.
#[derive(Debug, Clone)]
pub struct ConnectionOutcome {
    pub remote_peer_id: String,
    pub path_kind: PathKind,
    pub remote_addr: Option<SocketAddr>,
    pub attempts: Vec<ProbeAttempt>,
    pub total_elapsed: Duration,
    pub used_cached_path: bool,
    pub registry_decision: RegistryDecision,
    pub peer_record_source: PeerRecordSource,
}

// ---------------------------------------------------------------------------
// Configuration
// ---------------------------------------------------------------------------

/// A link over a carrier of its own, with what protects its frames.
pub struct DirectLink<S, F> {
    pub remote_addr: SocketAddr,
    pub session: S,
    pub frame_protector: F,
}

/// A link through a relay.
pub struct RelayLink<C> {
    pub remote_peer_id: String,
    pub client: C,
}

/// A link to a peer. The carrier, the protection and the relay client are held for
/// the caller, who alone can use them.
pub enum MeshLink<S, F, C> {
    Direct(DirectLink<S, F>),
    Relay(RelayLink<C>),
}

impl<S, F, C> MeshLink<S, F, C> {
    pub fn path_kind(&self) -> (kind: PathKind)
        ensures
            kind == if self is Direct {
                PathKind::Direct
            } else {
                PathKind::Relay
            },
    {
        match self {
            MeshLink::Direct(_) => PathKind::Direct,
            MeshLink::Relay(_) => PathKind::Relay,
        }
    }
}

/// The frame that a relay delivered; `received` is its source and payload, or
/// nothing where the relay has closed.
pub fn relay_frame(received: Option<(String, Vec<u8>)>) -> (r: Result<Vec<u8>>)
    ensures
        match received {
            Some(delivered) => r == Ok::<Vec<u8>, QlinkError>(delivered.1),
            None => r matches Err(e) && e@ == QlinkErrorView::Protocol(
                "relay closed before delivering frame"@,
            ),
        },
{
    match received {
        Some((_, payload)) => Ok(payload),
        None => Err(QlinkError::Protocol("relay closed before delivering frame".to_owned())),
    }
}

/// How a connector works. The access list, the device key and the registry are
/// held for the caller, who alone can use them.
#[derive(Debug, Clone)]
pub struct MeshConnectorConfig<A, K, R> {
    pub mesh_id: String,
    pub local_peer_id: String,
    pub direct_probe_timeout: Duration,
    pub overall_deadline: Duration,
    pub probe_pacing: Duration,
    pub local_ice_credentials: Option<IceCredentials>,
    pub ice_check_timeout: Option<Duration>,
    pub relay_server: Option<String>,
    pub peer_acl: Option<A>,
    pub local_device_keypair: Option<K>,
    pub mesh_trust_policy: MeshTrustPolicy,
    pub identity_registry_lookup: Option<R>,
}

impl<A, K, R> MeshConnectorConfig<A, K, R> {
    /// The defaults: 750 ms for a probe, three seconds in all, 50 ms between
    /// probes, and a policy that does not insist on the registry.
    pub fn new(mesh_id: &str, local_peer_id: &str) -> (c: MeshConnectorConfig<A, K, R>)
        ensures
            c.mesh_id@ == mesh_id@,
            c.local_peer_id@ == local_peer_id@,
            c.direct_probe_timeout.nanos == 750_000_000,
            c.overall_deadline.nanos == 3_000_000_000,
            c.probe_pacing.nanos == 50_000_000,
            c.local_ice_credentials is None,
            c.ice_check_timeout is None,
            c.relay_server is None,
            c.peer_acl is None,
            c.local_device_keypair is None,
            c.mesh_trust_policy == MeshTrustPolicy::DevelopmentOptional,
            c.identity_registry_lookup is None,
    {
        MeshConnectorConfig {
            mesh_id: mesh_id.to_owned(),
            local_peer_id: local_peer_id.to_owned(),
            direct_probe_timeout: Duration::from_millis(750),
            overall_deadline: Duration::from_secs(3),
            probe_pacing: Duration::from_millis(50),
            local_ice_credentials: None,
            ice_check_timeout: None,
            relay_server: None,
            peer_acl: None,
            local_device_keypair: None,
            mesh_trust_policy: MeshTrustPolicy::DevelopmentOptional,
            identity_registry_lookup: None,
        }
    }

    pub fn with_peer_acl(self, acl: A) -> (c: MeshConnectorConfig<A, K, R>)
        ensures
            c == (MeshConnectorConfig { peer_acl: Some(acl), ..self }),
    {
        let mut config = self;
        config.peer_acl = Some(acl);
        config
    }

    pub fn with_local_device_keypair(self, keypair: K) -> (c: MeshConnectorConfig<A, K, R>)
        ensures
            c == (MeshConnectorConfig { local_device_keypair: Some(keypair), ..self }),
    {
        let mut config = self;
        config.local_device_keypair = Some(keypair);
        config
    }

    pub fn with_direct_probe_timeout(self, timeout: Duration) -> (c: MeshConnectorConfig<A, K, R>)
        ensures
            c == (MeshConnectorConfig { direct_probe_timeout: timeout, ..self }),
    {
        let mut config = self;
        config.direct_probe_timeout = timeout;
        config
    }

    pub fn with_overall_deadline(self, deadline: Duration) -> (c: MeshConnectorConfig<A, K, R>)
        ensures
            c == (MeshConnectorConfig { overall_deadline: deadline, ..self }),
    {
        let mut config = self;
        config.overall_deadline = deadline;
        config
    }

    pub fn with_probe_pacing(self, pacing: Duration) -> (c: MeshConnectorConfig<A, K, R>)
        ensures
            c == (MeshConnectorConfig { probe_pacing: pacing, ..self }),
    {
        let mut config = self;
        config.probe_pacing = pacing;
        config
    }

    pub fn with_relay_server(self, server: String) -> (c: MeshConnectorConfig<A, K, R>)
        ensures
            c == (MeshConnectorConfig { relay_server: Some(server), ..self }),
    {
        let mut config = self;
        config.relay_server = Some(server);
        config
    }

    pub fn with_local_ice_credentials(self, credentials: IceCredentials) -> (c: MeshConnectorConfig<
        A,
        K,
        R,
    >)
        ensures
            c == (MeshConnectorConfig { local_ice_credentials: Some(credentials), ..self }),
    {
        let mut config = self;
        config.local_ice_credentials = Some(credentials);
        config
    }

    pub fn with_ice_check_timeout(self, timeout: Duration) -> (c: MeshConnectorConfig<A, K, R>)
        ensures
            c == (MeshConnectorConfig { ice_check_timeout: Some(timeout), ..self }),
    {
        let mut config = self;
        config.ice_check_timeout = Some(timeout);
        config
    }

    pub fn with_mesh_trust_policy(self, policy: MeshTrustPolicy) -> (c: MeshConnectorConfig<
        A,
        K,
        R,
    >)
        ensures
            c == (MeshConnectorConfig { mesh_trust_policy: policy, ..self }),
    {
        let mut config = self;
        config.mesh_trust_policy = policy;
        config
    }

    pub fn with_identity_registry_lookup(self, lookup: R) -> (c: MeshConnectorConfig<A, K, R>)
        ensures
            c == (MeshConnectorConfig { identity_registry_lookup: Some(lookup), ..self }),
    {
        let mut config = self;
        config.identity_registry_lookup = Some(lookup);
        config
    }
}

// ---------------------------------------------------------------------------
// Paths that worked
// ---------------------------------------------------------------------------

/// A path that worked, and when it was last used.
#[derive(Debug, Clone, Copy, PartialEq, Eq, Structural)]
pub struct CachedPath {
    pub address: SocketAddr,
    pub last_used: Instant,
}

/// The last path that worked to each peer.
#[derive(Debug, Clone)]
pub struct LastGoodCache {
    inner: TextMap<CachedPath>,
}

impl View for LastGoodCache {
    type V = Map<Seq<char>, CachedPath>;

    closed spec fn view(&self) -> Map<Seq<char>, CachedPath> {
        self.inner@
    }
}

/// The path that is cached for a peer.
pub open spec fn cached_address(paths: Map<Seq<char>, CachedPath>, peer_id: Seq<char>) -> Option<
    SocketAddr,
> {
    if paths.dom().contains(peer_id) {
        Some(paths[peer_id].address)
    } else {
        None
    }
}

impl LastGoodCache {
    pub closed spec fn wf(&self) -> bool {
        self.inner.wf()
    }

    pub fn new() -> (c: LastGoodCache)
        ensures
            c.wf(),
            c@ == Map::<Seq<char>, CachedPath>::empty(),
    {
        LastGoodCache { inner: TextMap::new() }
    }

    pub fn record(&mut self, peer_id: &str, address: SocketAddr, now: Instant)
        requires
            old(self).wf(),
        ensures
            final(self).wf(),
            final(self)@ == old(self)@.insert(
                peer_id@,
                (CachedPath { address, last_used: now }),
            ),
    {
        self.inner.insert(peer_id.to_owned(), CachedPath { address, last_used: now });
    }

    pub fn lookup(&self, peer_id: &str) -> (r: Option<SocketAddr>)
        requires
            self.wf(),
        ensures
            r == cached_address(self@, peer_id@),
    {
        match self.inner.get(peer_id) {
            Some(path) => Some(path.address),
            None => None,
        }
    }

    pub fn invalidate(&mut self, peer_id: &str)
        requires
            old(self).wf(),
        ensures
            final(self).wf(),
            final(self)@ == old(self)@.remove(peer_id@),
    {
        self.inner.remove(peer_id);
    }

    /// Drops every path and tells how many there were.
    pub fn clear(&mut self) -> (n: usize)
        requires
            old(self).wf(),
        ensures
            final(self).wf(),
            final(self)@ == Map::<Seq<char>, CachedPath>::empty(),
            n == old(self)@.dom().len(),
    {
        let count: usize = self.inner.len();
        self.inner.clear();
        count
    }

    pub fn len(&self) -> (n: usize)
        requires
            self.wf(),
        ensures
            n == self@.dom().len(),
    {
        self.inner.len()
    }

    pub fn is_empty(&self) -> (b: bool)
        requires
            self.wf(),
        ensures
            b == (self@.dom().len() == 0),
    {
        self.inner.is_empty()
    }

    pub fn last_used(&self, peer_id: &str) -> (r: Option<Instant>)
        requires
            self.wf(),
        ensures
            r == if self@.dom().contains(peer_id@) {
                Some(self@[peer_id@].last_used)
            } else {
                None
            },
    {
        match self.inner.get(peer_id) {
            Some(path) => Some(path.last_used),
            None => None,
        }
    }

    /// Takes note of a network event. A changed path or a wake-up makes every
    /// cached path suspect; going offline or to sleep leaves them as they are.
    pub fn handle_network_event(&mut self, event: NetworkEvent) -> (r: NetworkEventResponse)
        requires
            old(self).wf(),
        ensures
            final(self).wf(),
            final(self)@ == if clears_paths(event) {
                Map::<Seq<char>, CachedPath>::empty()
            } else {
                old(self)@
            },
            r.cache_entries_invalidated == if clears_paths(event) {
                old(self)@.dom().len()
            } else {
                0
            },
            r.reprobe_recommended == recommends_probing(event),
    {
        match event {
            NetworkEvent::PathChanged | NetworkEvent::PostWake => {
                let invalidated: usize = self.clear();
                NetworkEventResponse {
                    cache_entries_invalidated: invalidated,
                    reprobe_recommended: true,
                }
            },
            NetworkEvent::PreSleep => NetworkEventResponse {
                cache_entries_invalidated: 0,
                reprobe_recommended: false,
            },
            NetworkEvent::ReachabilityChanged { reachable } => NetworkEventResponse {
                cache_entries_invalidated: 0,
                reprobe_recommended: reachable,
            },
        }
    }
}

impl Default for LastGoodCache {
    fn default() -> (c: Self)
        ensures
            c.wf(),
            c@ == Map::<Seq<char>, CachedPath>::empty(),
    {
        LastGoodCache::new()
    }
}

/// The events that make every cached path suspect.
pub open spec fn clears_paths(event: NetworkEvent) -> bool {
    event is PathChanged || event is PostWake
}

/// The events after which peers should be probed again.
pub open spec fn recommends_probing(event: NetworkEvent) -> bool {
    clears_paths(event) || event == (NetworkEvent::ReachabilityChanged { reachable: true })
}

// ---------------------------------------------------------------------------
// Peers seen on the local network
// ---------------------------------------------------------------------------

/// The freshness window of observations: five minutes.
pub const DEFAULT_MDNS_OBSERVATION_TTL_NANOS: u128 = 300_000_000_000;

/// An observation and when it was made.
#[derive(Debug, Clone)]
pub struct TimestampedObservation {
    pub observation: MdnsPeerObservation,
    pub recorded_at: Instant,
}

/// The model of an observation.
pub struct ObservationView {
    pub announcement: AnnouncementView,
    pub addresses: Seq<SocketAddr>,
}

/// The model of an observation and when it was made.
pub struct StampedView {
    pub observation: ObservationView,
    pub recorded_at: Instant,
}

impl View for MdnsPeerObservation {
    type V = ObservationView;

    open spec fn view(&self) -> ObservationView {
        ObservationView { announcement: self.announcement@, addresses: self.addresses@ }
    }
}

impl View for TimestampedObservation {
    type V = StampedView;

    open spec fn view(&self) -> StampedView {
        StampedView { observation: self.observation@, recorded_at: self.recorded_at }
    }
}

/// The models of a list of observations.
pub open spec fn stamped_views(entries: Seq<TimestampedObservation>) -> Seq<StampedView> {
    Seq::new(entries.len(), |i: int| entries[i]@)
}

/// The models of a list of observations without their times.
pub open spec fn observation_views(observations: Seq<MdnsPeerObservation>) -> Seq<ObservationView> {
    Seq::new(observations.len(), |i: int| observations[i]@)
}

/// The observations of a list, without their times.
pub open spec fn unstamped(entries: Seq<StampedView>) -> Seq<ObservationView> {
    Seq::new(entries.len(), |i: int| entries[i].observation)
}

/// The entries that do not announce exactly the given addresses, in their order.
pub open spec fn with_other_addresses(
    entries: Seq<StampedView>,
    addresses: Seq<SocketAddr>,
) -> Seq<StampedView>
    decreases entries.len(),
{
    if entries.len() == 0 {
        Seq::empty()
    } else {
        let rest = with_other_addresses(entries.drop_last(), addresses);
        if entries.last().observation.addresses != addresses {
            rest.push(entries.last())
        } else {
            rest
        }
    }
}

/// An entry is not older than the window. A window that reaches back past the
/// start of the clock holds every entry.
pub open spec fn is_fresh(entry: StampedView, now: Instant, ttl: Duration) -> bool {
    now.nanos < ttl.nanos || entry.recorded_at.nanos >= now.nanos - ttl.nanos
}

/// The fresh entries of a list, in their order.
pub open spec fn fresh_entries(entries: Seq<StampedView>, now: Instant, ttl: Duration) -> Seq<
    StampedView,
>
    decreases entries.len(),
{
    if entries.len() == 0 {
        Seq::empty()
    } else {
        let rest = fresh_entries(entries.drop_last(), now, ttl);
        if is_fresh(entries.last(), now, ttl) {
            rest.push(entries.last())
        } else {
            rest
        }
    }
}

/// What was seen of each peer on the local network, for as long as it is fresh.
#[derive(Debug, Clone)]
pub struct MdnsObservationCache {
    inner: TextMap<Vec<TimestampedObservation>>,
    ttl: Duration,
}

impl View for MdnsObservationCache {
    type V = Map<Seq<char>, Seq<StampedView>>;

    closed spec fn view(&self) -> Map<Seq<char>, Seq<StampedView>> {
        Map::new(
            |k: Seq<char>| self.inner@.dom().contains(k),
            |k: Seq<char>| stamped_views(self.inner@[k]@),
        )
    }
}

/// The entries of a peer, or none.
pub open spec fn entries_of(cache: Map<Seq<char>, Seq<StampedView>>, peer_id: Seq<char>) -> Seq<
    StampedView,
> {
    if cache.dom().contains(peer_id) {
        cache[peer_id]
    } else {
        Seq::empty()
    }
}

fn same_addresses(a: &Vec<SocketAddr>, b: &Vec<SocketAddr>) -> (same: bool)
    ensures
        same == (a@ == b@),
{
    if a.len() != b.len() {
        return false;
    }
    let mut i: usize = 0;
    while i < a.len()
        invariant
            i <= a@.len() == b@.len(),
            forall|j: int| 0 <= j < i ==> a@[j] == b@[j],
        decreases a@.len() - i,
    {
        if a[i] != b[i] {
            return false;
        }
        i = i + 1;
    }
    assert(a@ =~= b@);
    true
}

/// Drops the entries that announce exactly the given addresses.
fn drop_same_addresses(entries: &mut Vec<TimestampedObservation>, addresses: &Vec<SocketAddr>)
    ensures
        stamped_views(final(entries)@) == with_other_addresses(
            stamped_views(old(entries)@),
            addresses@,
        ),
{
    let ghost orig = entries@;
    let ghost views = stamped_views(orig);
    let ghost mut seen: int = 0;
    let mut i: usize = 0;
    assert(entries@.subrange(0, entries@.len() as int) =~= orig.subrange(0, orig.len() as int));
    assert(views.subrange(0, 0) =~= Seq::empty());
    assert(stamped_views(entries@.subrange(0, 0)) =~= Seq::empty());
    while i < entries.len()
        invariant
            i <= entries@.len(),
            0 <= seen <= orig.len(),
            views == stamped_views(orig),
            entries@.subrange(i as int, entries@.len() as int) == orig.subrange(
                seen,
                orig.len() as int,
            ),
            stamped_views(entries@.subrange(0, i as int)) == with_other_addresses(
                views.subrange(0, seen),
                addresses@,
            ),
        decreases entries@.len() - i,
    {
        proof {
            assert(entries@.subrange(i as int, entries@.len() as int).len() == orig.subrange(
                seen,
                orig.len() as int,
            ).len());
            assert(entries@.subrange(i as int, entries@.len() as int)[0] == orig.subrange(
                seen,
                orig.len() as int,
            )[0]);
            assert(views.subrange(0, seen + 1).drop_last() =~= views.subrange(0, seen));
            assert(views.subrange(0, seen + 1).last() == entries@[i as int]@);
        }
        let ghost before = entries@;
        if same_addresses(&entries[i].observation.addresses, addresses) {
            entries.remove(i);
            proof {
                assert(entries@.subrange(i as int, entries@.len() as int) =~= before.subrange(
                    i as int,
                    before.len() as int,
                ).drop_first());
                assert(orig.subrange(seen, orig.len() as int).drop_first() =~= orig.subrange(
                    seen + 1,
                    orig.len() as int,
                ));
                assert(entries@.subrange(0, i as int) =~= before.subrange(0, i as int));
            }
        } else {
            i = i + 1;
            proof {
                assert(entries@.subrange(i as int, entries@.len() as int) =~= before.subrange(
                    i - 1,
                    before.len() as int,
                ).drop_first());
                assert(orig.subrange(seen, orig.len() as int).drop_first() =~= orig.subrange(
                    seen + 1,
                    orig.len() as int,
                ));
                assert(stamped_views(entries@.subrange(0, i as int)) =~= stamped_views(
                    before.subrange(0, i - 1),
                ).push(before[i - 1]@));
            }
        }
        proof {
            seen = seen + 1;
        }
    }
    proof {
        assert(orig.subrange(seen, orig.len() as int).len() == 0);
        assert(views.subrange(0, seen) =~= views);
        assert(entries@.subrange(0, i as int) =~= entries@);
    }
}

/// Drops the entries that are not fresh any more.
fn drop_stale(entries: &mut Vec<TimestampedObservation>, now: Instant, ttl: Duration)
    ensures
        stamped_views(final(entries)@) == fresh_entries(stamped_views(old(entries)@), now, ttl),
{
    let ghost orig = entries@;
    let ghost views = stamped_views(orig);
    let ghost mut seen: int = 0;
    let mut i: usize = 0;
    assert(entries@.subrange(0, entries@.len() as int) =~= orig.subrange(0, orig.len() as int));
    assert(views.subrange(0, 0) =~= Seq::empty());
    assert(stamped_views(entries@.subrange(0, 0)) =~= Seq::empty());
    while i < entries.len()
        invariant
            i <= entries@.len(),
            0 <= seen <= orig.len(),
            views == stamped_views(orig),
            entries@.subrange(i as int, entries@.len() as int) == orig.subrange(
                seen,
                orig.len() as int,
            ),
            stamped_views(entries@.subrange(0, i as int)) == fresh_entries(
                views.subrange(0, seen),
                now,
                ttl,
            ),
        decreases entries@.len() - i,
    {
        proof {
            assert(entries@.subrange(i as int, entries@.len() as int).len() == orig.subrange(
                seen,
                orig.len() as int,
            ).len());
            assert(entries@.subrange(i as int, entries@.len() as int)[0] == orig.subrange(
                seen,
                orig.len() as int,
            )[0]);
            assert(views.subrange(0, seen + 1).drop_last() =~= views.subrange(0, seen));
            assert(views.subrange(0, seen + 1).last() == entries@[i as int]@);
        }
        let ghost before = entries@;
        if now.nanos >= ttl.nanos && entries[i].recorded_at.nanos < now.nanos - ttl.nanos {
            entries.remove(i);
            proof {
                assert(entries@.subrange(i as int, entries@.len() as int) =~= before.subrange(
                    i as int,
                    before.len() as int,
                ).drop_first());
                assert(orig.subrange(seen, orig.len() as int).drop_first() =~= orig.subrange(
                    seen + 1,
                    orig.len() as int,
                ));
                assert(entries@.subrange(0, i as int) =~= before.subrange(0, i as int));
            }
        } else {
            i = i + 1;
            proof {
                assert(entries@.subrange(i as int, entries@.len() as int) =~= before.subrange(
                    i - 1,
                    before.len() as int,
                ).drop_first());
                assert(orig.subrange(seen, orig.len() as int).drop_first() =~= orig.subrange(
                    seen + 1,
                    orig.len() as int,
                ));
                assert(stamped_views(entries@.subrange(0, i as int)) =~= stamped_views(
                    before.subrange(0, i - 1),
                ).push(before[i - 1]@));
            }
        }
        proof {
            seen = seen + 1;
        }
    }
    proof {
        assert(orig.subrange(seen, orig.len() as int).len() == 0);
        assert(views.subrange(0, seen) =~= views);
        assert(entries@.subrange(0, i as int) =~= entries@);
    }
}

impl MdnsPeerObservation {
    /// The same observation again.
    pub fn duplicate(&self) -> (o: MdnsPeerObservation)
        ensures
            o@ == self@,
    {
        let announcement = MdnsPeerAnnouncement {
            peer_id: self.announcement.peer_id.clone(),
            mesh_id: self.announcement.mesh_id.clone(),
            alias: self.announcement.alias.clone(),
            sequence: self.announcement.sequence,
            public_key_fingerprint: self.announcement.public_key_fingerprint.clone(),
        };
        let mut addresses: Vec<SocketAddr> = Vec::new();
        let mut i: usize = 0;
        while i < self.addresses.len()
            invariant
                i <= self.addresses@.len(),
                addresses@ == self.addresses@.subrange(0, i as int),
            decreases self.addresses@.len() - i,
        {
            addresses.push(self.addresses[i]);
            i = i + 1;
            assert(addresses@ =~= self.addresses@.subrange(0, i as int));
        }
        assert(addresses@ =~= self.addresses@);
        MdnsPeerObservation { announcement, addresses }
    }
}

impl MdnsObservationCache {
    pub closed spec fn wf(&self) -> bool {
        self.inner.wf()
    }

    /// The freshness window.
    pub closed spec fn window(&self) -> Duration {
        self.ttl
    }

    pub fn with_ttl(ttl: Duration) -> (c: MdnsObservationCache)
        ensures
            c.wf(),
            c.window() == ttl,
            c@ == Map::<Seq<char>, Seq<StampedView>>::empty(),
    {
        let c = MdnsObservationCache { inner: TextMap::new(), ttl };
        assert(c@ =~= Map::<Seq<char>, Seq<StampedView>>::empty());
        c
    }

    pub fn ttl(&self) -> (d: Duration)
        ensures
            d == self.window(),
    {
        self.ttl
    }

    /// Takes note of an observation. One that announces the same addresses of the
    /// same peer is replaced.
    pub fn record(&mut self, observation: MdnsPeerObservation, now: Instant)
        requires
            old(self).wf(),
        ensures
            final(self).wf(),
            final(self).window() == old(self).window(),
            ({
                let peer_id = observation@.announcement.peer_id;
                final(self)@ == old(self)@.insert(
                    peer_id,
                    with_other_addresses(
                        entries_of(old(self)@, peer_id),
                        observation@.addresses,
                    ).push(StampedView { observation: observation@, recorded_at: now }),
                )
            }),
    {
        let peer_id = observation.announcement.peer_id.clone();
        let mut entries = match self.inner.remove(peer_id.as_str()) {
            Some(entries) => entries,
            None => Vec::new(),
        };
        assert(stamped_views(entries@) =~= entries_of(old(self)@, peer_id@));
        drop_same_addresses(&mut entries, &observation.addresses);
        let ghost kept = entries@;
        let ghost added = StampedView { observation: observation@, recorded_at: now };
        entries.push(TimestampedObservation { observation, recorded_at: now });
        assert(stamped_views(entries@) =~= stamped_views(kept).push(added));
        let ghost stored = stamped_views(entries@);
        self.inner.insert(peer_id, entries);
        assert(self@ =~= old(self)@.insert(peer_id@, stored));
    }

    /// The fresh observations of a peer. What is stale is dropped on the way.
    pub fn observations_for(&mut self, peer_id: &str, now: Instant) -> (r: Vec<
        MdnsPeerObservation,
    >)
        requires
            old(self).wf(),
        ensures
            final(self).wf(),
            final(self).window() == old(self).window(),
            ({
                let fresh = fresh_entries(
                    entries_of(old(self)@, peer_id@),
                    now,
                    old(self).window(),
                );
                &&& observation_views(r@) == unstamped(fresh)
                &&& final(self)@ == if fresh.len() == 0 {
                    old(self)@.remove(peer_id@)
                } else {
                    old(self)@.insert(peer_id@, fresh)
                }
            }),
    {
        let mut found: Vec<MdnsPeerObservation> = Vec::new();
        let mut entries = match self.inner.remove(peer_id) {
            Some(entries) => entries,
            None => {
                assert(observation_views(found@) =~= unstamped(
                    fresh_entries(Seq::empty(), now, self.ttl),
                ));
                assert(self@ =~= old(self)@.remove(peer_id@));
                return found;
            },
        };
        assert(stamped_views(entries@) =~= entries_of(old(self)@, peer_id@));
        drop_stale(&mut entries, now, self.ttl);
        let ghost fresh = stamped_views(entries@);
        if entries.len() == 0 {
            assert(observation_views(found@) =~= unstamped(fresh));
            assert(self@ =~= old(self)@.remove(peer_id@));
            return found;
        }
        let mut i: usize = 0;
        while i < entries.len()
            invariant
                i <= entries@.len(),
                found@.len() == i,
                forall|j: int| 0 <= j < i ==> (#[trigger] found@[j])@ == entries@[j].observation@,
            decreases entries@.len() - i,
        {
            found.push(entries[i].observation.duplicate());
            i = i + 1;
        }
        assert(observation_views(found@) =~= unstamped(fresh));
        self.inner.insert(peer_id.to_owned(), entries);
        assert(self@ =~= old(self)@.insert(peer_id@, fresh));
        found
    }

    /// How many peers were seen.
    pub fn len(&self) -> (n: usize)
        requires
            self.wf(),
        ensures
            n == self@.dom().len(),
    {
        assert(self@.dom() =~= self.inner@.dom());
        self.inner.len()
    }

    pub fn clear(&mut self)
        ensures
            final(self).wf(),
            final(self).window() == old(self).window(),
            final(self)@ == Map::<Seq<char>, Seq<StampedView>>::empty(),
    {
        self.inner.clear();
        assert(self@ =~= Map::<Seq<char>, Seq<StampedView>>::empty());
    }
}

impl Default for MdnsObservationCache {
    fn default() -> (c: Self)
        ensures
            c.wf(),
            c.window().nanos == DEFAULT_MDNS_OBSERVATION_TTL_NANOS,
            c@ == Map::<Seq<char>, Seq<StampedView>>::empty(),
    {
        MdnsObservationCache::with_ttl(Duration { nanos: DEFAULT_MDNS_OBSERVATION_TTL_NANOS })
    }
}

} // verus!
