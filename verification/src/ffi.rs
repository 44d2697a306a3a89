//! What the C interface answers: codes, counters and texts as plain values.

use crate::bytes::slice_of;
use crate::dytallix_identity::{
    DytallixEnrollmentWallet, DytallixRegistryConfig, normal_address, texts,
};
use crate::mesh_connection::{
    CachedPath, LastGoodCache, NetworkEvent, clears_paths, recommends_probing,
};
use crate::outside::{optional_text, string_from_utf8};
use crate::text::chars_of;
use vstd::multiset::*;
use vstd::prelude::*;
use vstd::seq_lib::*;
use vstd::string::*;
use vstd::utf8::*;

verus! {

/// The version the library reports.
pub fn core_version() -> (s: &'static str)
    ensures
        s@ == "0.1.0"@,
{
    "0.1.0"
}

/// The name of the suite that sessions use by default.
pub fn default_suite() -> (s: &'static str)
    ensures
        s@ == "QLINK-FIPS203-MLKEM768-SHAKE256-v1"@,
{
    "QLINK-FIPS203-MLKEM768-SHAKE256-v1"
}

/// A borrowed buffer is usable unless it has a length and no address.
pub fn is_borrowable(is_null: bool, len: usize) -> (b: bool)
    ensures
        b == !(is_null && len != 0),
{
    !is_null || len == 0
}

// ---------------------------------------------------------------------------
// Counters
// ---------------------------------------------------------------------------

#[derive(Debug, Clone, Copy, PartialEq, Eq, Structural)]
pub struct QlinkTunnelMetrics {
    pub packets_from_tunnel: u64,
    pub packets_to_tunnel: u64,
    pub transport_frames_out: u64,
    pub transport_frames_in: u64,
    pub dropped_unprotected: u64,
    pub dropped_malformed: u64,
}

impl Default for QlinkTunnelMetrics {
    fn default() -> (m: QlinkTunnelMetrics)
        ensures
            m == (QlinkTunnelMetrics {
                packets_from_tunnel: 0,
                packets_to_tunnel: 0,
                transport_frames_out: 0,
                transport_frames_in: 0,
                dropped_unprotected: 0,
                dropped_malformed: 0,
            }),
    {
        QlinkTunnelMetrics {
            packets_from_tunnel: 0,
            packets_to_tunnel: 0,
            transport_frames_out: 0,
            transport_frames_in: 0,
            dropped_unprotected: 0,
            dropped_malformed: 0,
        }
    }
}

#[derive(Debug, Clone, Copy, PartialEq, Eq, Structural)]
pub struct QlinkTransportMetrics {
    pub frames_sent: u64,
    pub frames_received: u64,
    pub bytes_sent: u64,
    pub bytes_received: u64,
    pub send_failures: u64,
    pub receive_failures: u64,
}

impl Default for QlinkTransportMetrics {
    fn default() -> (m: QlinkTransportMetrics)
        ensures
            m == (QlinkTransportMetrics {
                frames_sent: 0,
                frames_received: 0,
                bytes_sent: 0,
                bytes_received: 0,
                send_failures: 0,
                receive_failures: 0,
            }),
    {
        QlinkTransportMetrics {
            frames_sent: 0,
            frames_received: 0,
            bytes_sent: 0,
            bytes_received: 0,
            send_failures: 0,
            receive_failures: 0,
        }
    }
}

#[derive(Debug, Clone, Copy, PartialEq, Eq, Structural)]
pub struct QlinkMeshTransportMetrics {
    pub state_code: u32,
    pub path_kind_code: u32,
    pub frames_sent: u64,
    pub frames_received: u64,
    pub bytes_sent: u64,
    pub bytes_received: u64,
    pub send_failures: u64,
    pub receive_failures: u64,
    pub network_event_count: u64,
    pub reconnect_count: u64,
}

impl Default for QlinkMeshTransportMetrics {
    fn default() -> (m: QlinkMeshTransportMetrics)
        ensures
            m == (QlinkMeshTransportMetrics {
                state_code: 0,
                path_kind_code: 0,
                frames_sent: 0,
                frames_received: 0,
                bytes_sent: 0,
                bytes_received: 0,
                send_failures: 0,
                receive_failures: 0,
                network_event_count: 0,
                reconnect_count: 0,
            }),
    {
        QlinkMeshTransportMetrics {
            state_code: 0,
            path_kind_code: 0,
            frames_sent: 0,
            frames_received: 0,
            bytes_sent: 0,
            bytes_received: 0,
            send_failures: 0,
            receive_failures: 0,
            network_event_count: 0,
            reconnect_count: 0,
        }
    }
}

/// The trust in a peer as the transport keeps it.
#[derive(Debug, Clone, Copy, PartialEq, Eq, Structural)]
pub struct PeerTrustStatusRaw {
    pub decision_code: u32,
    pub failure_code: u32,
    pub checked_at_unix: u64,
    pub source_code: u32,
}

/// The trust in a peer as it is handed out.
#[derive(Debug, Clone, Copy, PartialEq, Eq, Structural)]
pub struct QlinkPeerTrustStatus {
    pub decision_code: u32,
    pub failure_code: u32,
    pub checked_at_unix: u64,
    pub source_code: u32,
}

impl Default for QlinkPeerTrustStatus {
    fn default() -> (s: QlinkPeerTrustStatus)
        ensures
            s == (QlinkPeerTrustStatus {
                decision_code: 0,
                failure_code: 0,
                checked_at_unix: 0,
                source_code: 0,
            }),
    {
        QlinkPeerTrustStatus {
            decision_code: 0,
            failure_code: 0,
            checked_at_unix: 0,
            source_code: 0,
        }
    }
}

impl From<PeerTrustStatusRaw> for QlinkPeerTrustStatus {
    fn from(value: PeerTrustStatusRaw) -> (s: QlinkPeerTrustStatus) {
        QlinkPeerTrustStatus {
            decision_code: value.decision_code,
            failure_code: value.failure_code,
            checked_at_unix: value.checked_at_unix,
            source_code: value.source_code,
        }
    }
}

impl vstd::std_specs::convert::FromSpecImpl<PeerTrustStatusRaw> for QlinkPeerTrustStatus {
    open spec fn obeys_from_spec() -> bool {
        true
    }

    open spec fn from_spec(value: PeerTrustStatusRaw) -> QlinkPeerTrustStatus {
        QlinkPeerTrustStatus {
            decision_code: value.decision_code,
            failure_code: value.failure_code,
            checked_at_unix: value.checked_at_unix,
            source_code: value.source_code,
        }
    }
}

// ---------------------------------------------------------------------------
// Codes
// ---------------------------------------------------------------------------

pub const NETWORK_EVENT_PATH_CHANGED: u32 = 0;

pub const NETWORK_EVENT_PRE_SLEEP: u32 = 1;

pub const NETWORK_EVENT_POST_WAKE: u32 = 2;

pub const NETWORK_EVENT_REACHABILITY_LOST: u32 = 3;

pub const NETWORK_EVENT_REACHABILITY_GAINED: u32 = 4;

/// The network event a code stands for.
pub open spec fn event_of_code(code: u32) -> Option<NetworkEvent> {
    if code == NETWORK_EVENT_PATH_CHANGED {
        Some(NetworkEvent::PathChanged)
    } else if code == NETWORK_EVENT_PRE_SLEEP {
        Some(NetworkEvent::PreSleep)
    } else if code == NETWORK_EVENT_POST_WAKE {
        Some(NetworkEvent::PostWake)
    } else if code == NETWORK_EVENT_REACHABILITY_LOST {
        Some(NetworkEvent::ReachabilityChanged { reachable: false })
    } else if code == NETWORK_EVENT_REACHABILITY_GAINED {
        Some(NetworkEvent::ReachabilityChanged { reachable: true })
    } else {
        None
    }
}

/// Reads the code of a network event.
pub fn network_event_from_code(event_code: u32) -> (r: Option<NetworkEvent>)
    ensures
        r == event_of_code(event_code),
{
    if event_code == NETWORK_EVENT_PATH_CHANGED {
        Some(NetworkEvent::PathChanged)
    } else if event_code == NETWORK_EVENT_PRE_SLEEP {
        Some(NetworkEvent::PreSleep)
    } else if event_code == NETWORK_EVENT_POST_WAKE {
        Some(NetworkEvent::PostWake)
    } else if event_code == NETWORK_EVENT_REACHABILITY_LOST {
        Some(NetworkEvent::ReachabilityChanged { reachable: false })
    } else if event_code == NETWORK_EVENT_REACHABILITY_GAINED {
        Some(NetworkEvent::ReachabilityChanged { reachable: true })
    } else {
        None
    }
}

/// Applies the event of a code to the paths that last worked. An unknown code
/// changes nothing and gives -1; else 1 when peers should be probed again, 0
/// when not.
pub fn handle_network_event_code(paths: &mut LastGoodCache, event_code: u32) -> (code: i32)
    requires
        old(paths).wf(),
    ensures
        final(paths).wf(),
        match event_of_code(event_code) {
            Some(event) => {
                &&& code == if recommends_probing(event) {
                    1i32
                } else {
                    0i32
                }
                &&& final(paths)@ == if clears_paths(event) {
                    Map::<Seq<char>, CachedPath>::empty()
                } else {
                    old(paths)@
                }
            },
            None => code == -1 && final(paths)@ == old(paths)@,
        },
{
    match network_event_from_code(event_code) {
        Some(event) => {
            let response = paths.handle_network_event(event);
            if response.reprobe_recommended {
                1
            } else {
                0
            }
        },
        None => -1,
    }
}

/// What became of a packet that was handed to the tunnel.
#[derive(Debug, Clone, Copy, PartialEq, Eq, Structural)]
pub enum PacketDisposition {
    QueuedForTransport,
    DroppedUnprotected,
    DroppedPeerSessionUnavailable,
}

/// The code a submitted packet is answered with: 1 when it was queued, 0 when it
/// was dropped, -1 when it was refused.
pub fn submit_packet_code(disposition: Option<PacketDisposition>) -> (code: i32)
    ensures
        code == match disposition {
            Some(PacketDisposition::QueuedForTransport) => 1i32,
            Some(_) => 0i32,
            None => -1i32,
        },
{
    match disposition {
        Some(PacketDisposition::QueuedForTransport) => 1,
        Some(PacketDisposition::DroppedUnprotected) => 0,
        Some(PacketDisposition::DroppedPeerSessionUnavailable) => 0,
        None => -1,
    }
}

/// The state of a mesh transport.
#[derive(Debug, Clone, Copy, PartialEq, Eq, Structural)]
pub enum MeshTransportState {
    Connecting,
    Ready,
    Failed,
    Stopped,
}

impl MeshTransportState {
    pub fn as_code(self) -> (code: u32)
        ensures
            code == match self {
                MeshTransportState::Connecting => 0u32,
                MeshTransportState::Ready => 1u32,
                MeshTransportState::Failed => 2u32,
                MeshTransportState::Stopped => 3u32,
            },
    {
        match self {
            MeshTransportState::Connecting => 0,
            MeshTransportState::Ready => 1,
            MeshTransportState::Failed => 2,
            MeshTransportState::Stopped => 3,
        }
    }
}

/// The state code of a transport that may not exist: a missing one has failed.
pub fn transport_state_code(state: Option<MeshTransportState>) -> (code: u32)
    ensures
        code == match state {
            Some(MeshTransportState::Connecting) => 0u32,
            Some(MeshTransportState::Ready) => 1u32,
            Some(MeshTransportState::Stopped) => 3u32,
            _ => 2u32,
        },
{
    match state {
        Some(state) => state.as_code(),
        None => MeshTransportState::Failed.as_code(),
    }
}

// ---------------------------------------------------------------------------
// The disabled development transport
// ---------------------------------------------------------------------------

/// A transport that moves no frame and counts every try as a failure.
pub struct QlinkDevQuicTransportHandle {
    pub metrics: QlinkTransportMetrics,
}

impl QlinkDevQuicTransportHandle {
    pub fn new() -> (h: QlinkDevQuicTransportHandle)
        ensures
            h.metrics == (QlinkTransportMetrics {
                frames_sent: 0,
                frames_received: 0,
                bytes_sent: 0,
                bytes_received: 0,
                send_failures: 0,
                receive_failures: 0,
            }),
    {
        QlinkDevQuicTransportHandle { metrics: QlinkTransportMetrics::default() }
    }

    /// Sends nothing.
    pub fn send_frame(&mut self) -> (code: i32)
        requires
            old(self).metrics.send_failures < u64::MAX,
        ensures
            code == -1,
            final(self).metrics == (QlinkTransportMetrics {
                send_failures: (old(self).metrics.send_failures + 1) as u64,
                ..old(self).metrics
            }),
    {
        self.metrics.send_failures = self.metrics.send_failures + 1;
        -1
    }

    /// Receives nothing.
    pub fn receive_frame(&mut self) -> (received: bool)
        requires
            old(self).metrics.receive_failures < u64::MAX,
        ensures
            !received,
            final(self).metrics == (QlinkTransportMetrics {
                receive_failures: (old(self).metrics.receive_failures + 1) as u64,
                ..old(self).metrics
            }),
    {
        self.metrics.receive_failures = self.metrics.receive_failures + 1;
        false
    }
}

// ---------------------------------------------------------------------------
// Enrollment wallet
// ---------------------------------------------------------------------------

/// The registry configuration that an enrollment asks for in raw bytes.
pub open spec fn asked_config(
    endpoint: Seq<u8>,
    contract: Seq<u8>,
    keystore_path: Seq<u8>,
    wallet_name: Seq<u8>,
) -> Option<(Seq<char>, Seq<char>, Seq<char>, Option<Seq<char>>)> {
    if !valid_utf8(endpoint) || !valid_utf8(contract) || !valid_utf8(keystore_path) || !valid_utf8(
        wallet_name,
    ) {
        None
    } else {
        match normal_address(decode_utf8(contract)) {
            Ok(address) => Some(
                (
                    decode_utf8(endpoint),
                    address,
                    decode_utf8(keystore_path),
                    if wallet_name.len() == 0 {
                        None
                    } else {
                        Some(decode_utf8(wallet_name))
                    },
                ),
            ),
            Err(_) => None,
        }
    }
}

/// Reads an enrollment's arguments: all must be UTF-8, the contract address must
/// be well formed, and an empty wallet name asks for the active wallet.
pub fn ensure_wallet_config(
    endpoint: &[u8],
    contract: &[u8],
    keystore_path: &[u8],
    wallet_name: &[u8],
) -> (r: Option<DytallixRegistryConfig>)
    ensures
        match asked_config(endpoint@, contract@, keystore_path@, wallet_name@) {
            Some((e, a, k, w)) => r matches Some(c) && c.endpoint@ == e && c.contract_address@ == a
                && c.keystore_path@ == k && optional_text(c.wallet_name) == w,
            None => r is None,
        },
{
    proof {
        assert(endpoint@.subrange(0, endpoint@.len() as int) =~= endpoint@);
        assert(contract@.subrange(0, contract@.len() as int) =~= contract@);
        assert(keystore_path@.subrange(0, keystore_path@.len() as int) =~= keystore_path@);
        assert(wallet_name@.subrange(0, wallet_name@.len() as int) =~= wallet_name@);
    }
    let endpoint = string_from_utf8(slice_of(endpoint, 0, endpoint.len()));
    let contract = string_from_utf8(slice_of(contract, 0, contract.len()));
    let keystore_path = string_from_utf8(slice_of(keystore_path, 0, keystore_path.len()));
    let name = string_from_utf8(slice_of(wallet_name, 0, wallet_name.len()));
    match (endpoint, contract, keystore_path, name) {
        (Some(endpoint), Some(contract), Some(keystore_path), Some(name)) => {
            let name = if wallet_name.len() == 0 {
                None
            } else {
                Some(name)
            };
            DytallixRegistryConfig::new(
                endpoint.as_str(),
                contract.as_str(),
                keystore_path.as_str(),
                name,
            ).ok()
        },
        _ => None,
    }
}

/// The summary of an enrollment wallet, one `key=value` to a line.
pub fn wallet_summary(wallet: &DytallixEnrollmentWallet) -> (s: String)
    ensures
        s@ == "wallet_name="@ + wallet.wallet_name@ + "\nwallet_address="@ + wallet.wallet_address@
            + "\ncreated_wallet="@ + (if wallet.created_wallet {
            "true"@
        } else {
            "false"@
        }) + "\n"@,
{
    let mut s = "wallet_name=".to_owned();
    s.append(wallet.wallet_name.as_str());
    s.append("\nwallet_address=");
    s.append(wallet.wallet_address.as_str());
    s.append("\ncreated_wallet=");
    if wallet.created_wallet {
        s.append("true");
    } else {
        s.append("false");
    }
    s.append("\n");
    s
}

// ---------------------------------------------------------------------------
// The list of peers
// ---------------------------------------------------------------------------

/// The order of texts: by the first character in which they differ, and a prefix
/// before what it begins. It is also the order of their UTF-8 bytes.
pub open spec fn text_le(a: Seq<char>, b: Seq<char>) -> bool
    decreases a.len(),
{
    if a.len() == 0 {
        true
    } else if b.len() == 0 {
        false
    } else if a[0] != b[0] {
        a[0] < b[0]
    } else {
        text_le(a.drop_first(), b.drop_first())
    }
}

/// Where a text belongs among sorted ones: behind all that do not follow it.
pub open spec fn text_place(sorted: Seq<Seq<char>>, t: Seq<char>) -> int
    decreases sorted.len(),
{
    if sorted.len() == 0 {
        0
    } else if !text_le(sorted.last(), t) {
        text_place(sorted.drop_last(), t)
    } else {
        sorted.len() as int
    }
}

/// Texts in rising order.
pub open spec fn sorted_texts(list: Seq<Seq<char>>) -> Seq<Seq<char>>
    decreases list.len(),
{
    if list.len() == 0 {
        Seq::empty()
    } else {
        let front = sorted_texts(list.drop_last());
        front.insert(text_place(front, list.last()), list.last())
    }
}

/// Texts with a line break between each two.
pub open spec fn lines(list: Seq<Seq<char>>) -> Seq<char>
    decreases list.len(),
{
    if list.len() == 0 {
        Seq::empty()
    } else if list.len() == 1 {
        list[0]
    } else {
        lines(list.drop_last()) + "\n"@ + list.last()
    }
}

fn is_text_le(a: &str, b: &str) -> (le: bool)
    ensures
        le == text_le(a@, b@),
{
    let a = chars_of(a);
    let b = chars_of(b);
    let mut i: usize = 0;
    assert(a@.skip(0) =~= a@ && b@.skip(0) =~= b@);
    while i < a.len() && i < b.len() && a[i] == b[i]
        invariant
            i <= a@.len(),
            i <= b@.len(),
            text_le(a@, b@) == text_le(a@.skip(i as int), b@.skip(i as int)),
        decreases a@.len() - i,
    {
        assert(a@.skip(i as int).drop_first() =~= a@.skip(i + 1));
        assert(b@.skip(i as int).drop_first() =~= b@.skip(i + 1));
        i = i + 1;
    }
    if i == a.len() {
        true
    } else if i == b.len() {
        false
    } else {
        a[i] < b[i]
    }
}

fn insert_text(sorted: &mut Vec<String>, t: String)
    ensures
        texts(final(sorted)@) == texts(old(sorted)@).insert(
            text_place(texts(old(sorted)@), t@),
            t@,
        ),
{
    let ghost views = texts(sorted@);
    let mut k: usize = sorted.len();
    assert(views.subrange(0, k as int) =~= views);
    while k > 0 && !is_text_le(sorted[k - 1].as_str(), t.as_str())
        invariant
            k <= sorted@.len(),
            sorted@ == old(sorted)@,
            views == texts(sorted@),
            text_place(views, t@) == text_place(views.subrange(0, k as int), t@),
        decreases k,
    {
        assert(views.subrange(0, k as int).last() == sorted@[k - 1]@);
        assert(views.subrange(0, k as int).drop_last() =~= views.subrange(0, k - 1));
        k = k - 1;
    }
    proof {
        if k > 0 {
            assert(views.subrange(0, k as int).last() == sorted@[k - 1]@);
        }
        assert(text_place(views, t@) == k);
    }
    let ghost added = t@;
    sorted.insert(k, t);
    assert(texts(sorted@) =~= views.insert(k as int, added));
}

/// The peers of a transport: sorted, one to a line, no line break at the end.
pub fn peer_ids_text(peer_ids: &Vec<String>) -> (s: String)
    ensures
        s@ == lines(sorted_texts(texts(peer_ids@))),
{
    let ghost ids = texts(peer_ids@);
    let mut sorted: Vec<String> = Vec::new();
    let mut i: usize = 0;
    assert(texts(sorted@) =~= sorted_texts(ids.take(0)));
    while i < peer_ids.len()
        invariant
            i <= peer_ids@.len(),
            ids == texts(peer_ids@),
            texts(sorted@) == sorted_texts(ids.take(i as int)),
        decreases peer_ids@.len() - i,
    {
        insert_text(&mut sorted, peer_ids[i].clone());
        assert(ids.take(i + 1).drop_last() =~= ids.take(i as int));
        assert(ids.take(i + 1).last() == peer_ids@[i as int]@);
        i = i + 1;
    }
    assert(ids.take(i as int) =~= ids);
    let ghost all = texts(sorted@);
    let mut s = "".to_owned();
    let mut j: usize = 0;
    proof {
        reveal_strlit("");
        assert(all.take(0) =~= Seq::empty());
        assert(s@ =~= lines(all.take(0)));
    }
    while j < sorted.len()
        invariant
            j <= sorted@.len(),
            all == texts(sorted@),
            s@ == lines(all.take(j as int)),
        decreases sorted@.len() - j,
    {
        if j > 0 {
            s.append("\n");
        }
        s.append(sorted[j].as_str());
        proof {
            assert(all.take(j + 1).drop_last() =~= all.take(j as int));
            assert(all.take(j + 1).last() == sorted@[j as int]@);
            if j == 0 {
                assert(s@ =~= sorted@[0]@);
            }
        }
        j = j + 1;
    }
    assert(all.take(j as int) =~= all);
    s
}

/// Rising order.
pub open spec fn is_sorted(list: Seq<Seq<char>>) -> bool {
    forall|i: int, j: int|
        0 <= i < j < list.len() ==> text_le(#[trigger] list[i], #[trigger] list[j])
}

proof fn lemma_text_le_transitive(a: Seq<char>, b: Seq<char>, c: Seq<char>)
    requires
        text_le(a, b),
        text_le(b, c),
    ensures
        text_le(a, c),
    decreases a.len(),
{
    if a.len() > 0 && a[0] == b[0] && b[0] == c[0] {
        lemma_text_le_transitive(a.drop_first(), b.drop_first(), c.drop_first());
    }
}

proof fn lemma_text_le_total(a: Seq<char>, b: Seq<char>)
    ensures
        text_le(a, b) || text_le(b, a),
    decreases a.len(),
{
    if a.len() > 0 && b.len() > 0 {
        lemma_text_le_total(a.drop_first(), b.drop_first());
    }
}

proof fn lemma_text_place_splits(sorted: Seq<Seq<char>>, t: Seq<char>)
    requires
        is_sorted(sorted),
    ensures
        0 <= text_place(sorted, t) <= sorted.len(),
        forall|i: int| 0 <= i < text_place(sorted, t) ==> text_le(#[trigger] sorted[i], t),
        forall|i: int|
            text_place(sorted, t) <= i < sorted.len() ==> text_le(t, #[trigger] sorted[i]),
    decreases sorted.len(),
{
    if sorted.len() > 0 {
        let front = sorted.drop_last();
        assert(is_sorted(front)) by {
            assert forall|i: int, j: int| 0 <= i < j < front.len() implies text_le(
                #[trigger] front[i],
                #[trigger] front[j],
            ) by {
                assert(front[i] == sorted[i] && front[j] == sorted[j]);
            }
        }
        if !text_le(sorted.last(), t) {
            lemma_text_place_splits(front, t);
            lemma_text_le_total(sorted.last(), t);
            assert forall|i: int| 0 <= i < text_place(sorted, t) implies text_le(
                #[trigger] sorted[i],
                t,
            ) by {
                assert(sorted[i] == front[i]);
            }
            assert forall|i: int| text_place(sorted, t) <= i < sorted.len() implies text_le(
                t,
                #[trigger] sorted[i],
            ) by {
                if i < front.len() {
                    assert(sorted[i] == front[i]);
                }
            }
        } else {
            assert forall|i: int| 0 <= i < sorted.len() implies text_le(
                #[trigger] sorted[i],
                t,
            ) by {
                if i < sorted.len() - 1 {
                    assert(text_le(sorted[i], sorted[sorted.len() - 1]));
                    lemma_text_le_transitive(sorted[i], sorted.last(), t);
                }
            }
        }
    }
}

/// The list of peers is in rising order, and neither loses nor adds a peer.
pub proof fn law_peer_ids_are_sorted(list: Seq<Seq<char>>)
    ensures
        is_sorted(sorted_texts(list)),
        sorted_texts(list).to_multiset() == list.to_multiset(),
        sorted_texts(list).len() == list.len(),
    decreases list.len(),
{
    if list.len() > 0 {
        let front = sorted_texts(list.drop_last());
        let t = list.last();
        law_peer_ids_are_sorted(list.drop_last());
        lemma_text_place_splits(front, t);
        let k = text_place(front, t);
        let all = front.insert(k, t);
        assert forall|i: int, j: int| 0 <= i < j < all.len() implies text_le(
            #[trigger] all[i],
            #[trigger] all[j],
        ) by {
            let a = if i < k {
                i
            } else {
                i - 1
            };
            let b = if j < k {
                j
            } else {
                j - 1
            };
            if i != k {
                assert(all[i] == front[a]);
            }
            if j != k {
                assert(all[j] == front[b]);
            }
        }
        to_multiset_insert(front, k, t);
        assert(list =~= list.drop_last().push(t));
        to_multiset_build(list.drop_last(), t);
    } else {
        assert(sorted_texts(list) =~= list);
    }
}

} // verus!
