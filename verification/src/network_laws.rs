//! What holds of every peer that is seen on the local network, of every path that
//! is remembered, and of every event and code at the edge of the library.

use crate::control_transport::{
    ControlEndpointView, host_and_port, parsed_endpoint, split_host_port, unbracketed,
};
use crate::discovery::{CandidateEndpoint, DevicePublicKey, candidate_socket_addr};
use crate::dytallix_identity::{DytallixRegistryConfig, normal_address, texts};
use crate::error::{QlinkError, QlinkErrorView, Result};
use crate::ffi::{
    MeshTransportState, PacketDisposition, ensure_wallet_config, handle_network_event_code,
    is_borrowable, law_peer_ids_are_sorted, lines, network_event_from_code, peer_ids_text,
    sorted_texts, submit_packet_code, text_le, transport_state_code,
};
use crate::mdns_discovery::{
    MdnsPeerAnnouncement, MdnsPeerObservation, announced, compute_public_key_fingerprint,
    instance_name, is_name_char, observe_service,
};
use crate::mesh_connection::{
    CachedPath, LastGoodCache, NetworkEvent, NetworkEventResponse, PeerRecordSource, relay_frame,
};
use crate::net::{IpAddr, SocketAddr};
use crate::text::{
    after_prefix, decimal, first_index, has_prefix, hex_text, last_index, lemma_first_index,
    lemma_first_index_unique, parsed_number, unicode_alphanumeric,
};
use crate::text_map::TextMap;
use crate::time::Instant;
use vstd::multiset::*;
use vstd::prelude::*;
use vstd::string::*;
use vstd::utf8::*;

verus! {

// ---------------------------------------------------------------------------
// Announcements
// ---------------------------------------------------------------------------

/// An announcement is written under five names, each with its own value.
pub proof fn law_announcement_is_written_field_by_field(
    a: &MdnsPeerAnnouncement,
    map: TextMap<String>,
)
    requires
        call_ensures(MdnsPeerAnnouncement::to_txt_properties, (a,), map),
    ensures
        map@.dom() == set!["pid"@, "mid"@, "alias"@, "seq"@, "fp"@],
        map@["pid"@]@ == a.peer_id@,
        map@["mid"@]@ == a.mesh_id@,
        map@["alias"@]@ == a.alias@,
        map@["seq"@]@ == decimal(a.sequence as nat),
        map@["fp"@]@ == a.public_key_fingerprint@,
{
}

/// An announcement is read exactly where all five fields are there and its number
/// is one, and then each field is the one of its name.
pub proof fn law_announcement_is_read_field_by_field(map: Map<Seq<char>, String>)
    ensures
        announced(map) is Ok <==> {
            &&& map.dom().contains("pid"@)
            &&& map.dom().contains("mid"@)
            &&& map.dom().contains("alias"@)
            &&& map.dom().contains("seq"@)
            &&& map.dom().contains("fp"@)
            &&& parsed_number(map["seq"@]@) is Ok
        },
        announced(map) matches Ok(a) ==> {
            &&& a.peer_id == map["pid"@]@
            &&& a.mesh_id == map["mid"@]@
            &&& a.alias == map["alias"@]@
            &&& a.public_key_fingerprint == map["fp"@]@
            &&& parsed_number(map["seq"@]@) == Ok::<nat, Seq<char>>(a.sequence)
        },
{
}

/// A service is seen exactly where its announcement can be read and is of the mesh
/// that is looked for; it is seen at every one of its addresses, on its port.
pub proof fn law_service_is_seen_in_its_mesh_alone(
    properties: &TextMap<String>,
    ips: &Vec<IpAddr>,
    port: u16,
    mesh_id: &str,
    r: Option<MdnsPeerObservation>,
)
    requires
        call_ensures(observe_service, (properties, ips, port, mesh_id), r),
    ensures
        r is Some <==> announced(properties@) is Ok && announced(properties@)->Ok_0.mesh_id
            == mesh_id@,
        r matches Some(o) ==> {
            &&& o.announcement@ == announced(properties@)->Ok_0
            &&& o.addresses@.len() == ips@.len()
            &&& forall|i: int|
                0 <= i < ips@.len() ==> (#[trigger] o.addresses@[i]).ip == ips@[i]
                    && o.addresses@[i].port == port
        },
{
}

/// The name of an instance keeps letters, digits and hyphens in their place, puts
/// a hyphen for everything else, and is cut after sixty-three characters. A name
/// of which nothing would be kept is replaced.
pub proof fn law_instance_name_keeps_what_it_can(raw: Seq<char>)
    ensures
        (forall|i: int|
            0 <= i < raw.len() ==> !unicode_alphanumeric(#[trigger] raw[i]) && raw[i] != '-')
            ==> instance_name(raw) == "qlink-peer"@,
        (exists|i: int|
            0 <= i < raw.len() && (unicode_alphanumeric(#[trigger] raw[i]) || raw[i] == '-'))
            ==> {
            let name = instance_name(raw);
            &&& name.len() == if raw.len() <= 63 {
                raw.len()
            } else {
                63
            }
            &&& forall|i: int|
                0 <= i < name.len() ==> #[trigger] name[i] == if unicode_alphanumeric(raw[i])
                    || raw[i] == '-' {
                    raw[i]
                } else {
                    '-'
                }
        },
{
    if exists|i: int|
        0 <= i < raw.len() && (unicode_alphanumeric(#[trigger] raw[i]) || raw[i] == '-') {
        let i = choose|i: int|
            0 <= i < raw.len() && (unicode_alphanumeric(#[trigger] raw[i]) || raw[i] == '-');
        assert(is_name_char(raw[i]));
    }
}

// ---------------------------------------------------------------------------
// Remembered paths
// ---------------------------------------------------------------------------

/// A recorded path is the one that a lookup gives, and no other peer's changes.
pub proof fn law_recorded_path_is_found(
    cache: &mut LastGoodCache,
    peer_id: &str,
    address: SocketAddr,
    now: Instant,
)
    requires
        call_ensures(LastGoodCache::record, (cache, peer_id, address, now), ()),
    ensures
        final(cache)@.dom() == old(cache)@.dom().insert(peer_id@),
        final(cache)@[peer_id@].address == address,
        final(cache)@[peer_id@].last_used == now,
        forall|other: Seq<char>|
            other != peer_id@ && old(cache)@.dom().contains(other) ==> final(cache)@[other]
                == #[trigger] old(cache)@[other],
{
}

/// A lookup gives the address of that peer's path, where there is one.
pub proof fn law_lookup_gives_the_peers_path(
    cache: &LastGoodCache,
    peer_id: &str,
    r: Option<SocketAddr>,
)
    requires
        call_ensures(LastGoodCache::lookup, (cache, peer_id), r),
    ensures
        r is Some <==> cache@.dom().contains(peer_id@),
        r matches Some(address) ==> address == cache@[peer_id@].address,
{
}

/// An invalidated path is gone, and no other is.
pub proof fn law_invalidated_path_is_gone(cache: &mut LastGoodCache, peer_id: &str)
    requires
        call_ensures(LastGoodCache::invalidate, (cache, peer_id), ()),
    ensures
        final(cache)@.dom() == old(cache)@.dom().remove(peer_id@),
        forall|other: Seq<char>|
            other != peer_id@ && old(cache)@.dom().contains(other) ==> final(cache)@[other]
                == #[trigger] old(cache)@[other],
{
}

/// Clearing forgets every path and tells how many there were.
pub proof fn law_cleared_cache_is_empty(cache: &mut LastGoodCache, n: usize)
    requires
        call_ensures(LastGoodCache::clear, (cache,), n),
    ensures
        final(cache)@ == Map::<Seq<char>, CachedPath>::empty(),
        n == old(cache)@.dom().len(),
{
}

/// A changed path and a wake-up forget every path and ask for probes; a regained
/// network asks for probes; nothing else does either.
pub proof fn law_path_cache_follows_the_network(
    cache: &mut LastGoodCache,
    event: NetworkEvent,
    r: NetworkEventResponse,
)
    requires
        call_ensures(LastGoodCache::handle_network_event, (cache, event), r),
    ensures
        event is PathChanged || event is PostWake ==> final(cache)@ == Map::<
            Seq<char>,
            CachedPath,
        >::empty() && r.cache_entries_invalidated == old(cache)@.dom().len(),
        event is PreSleep || event is ReachabilityChanged ==> final(cache)@ == old(cache)@
            && r.cache_entries_invalidated == 0,
        r.reprobe_recommended <==> event is PathChanged || event is PostWake || (event matches
            NetworkEvent::ReachabilityChanged { reachable } && reachable),
{
}

// ---------------------------------------------------------------------------
// Codes
// ---------------------------------------------------------------------------

/// Five codes stand for events of the network, and no other does.
pub proof fn law_event_codes(code: u32, r: Option<NetworkEvent>)
    requires
        call_ensures(network_event_from_code, (code,), r),
    ensures
        r is Some <==> code <= 4,
        code == 0 ==> r == Some(NetworkEvent::PathChanged),
        code == 1 ==> r == Some(NetworkEvent::PreSleep),
        code == 2 ==> r == Some(NetworkEvent::PostWake),
        code == 3 ==> r == Some(NetworkEvent::ReachabilityChanged { reachable: false }),
        code == 4 ==> r == Some(NetworkEvent::ReachabilityChanged { reachable: true }),
{
}

/// An event by its code does to the paths what the event does, and answers whether
/// to probe; an unknown code does nothing and says so.
pub proof fn law_event_codes_act_as_their_events(
    paths: &mut LastGoodCache,
    code: u32,
    answer: i32,
)
    requires
        call_ensures(handle_network_event_code, (paths, code), answer),
    ensures
        code == 0 || code == 2 ==> answer == 1 && final(paths)@ == Map::<
            Seq<char>,
            CachedPath,
        >::empty(),
        code == 1 || code == 3 ==> answer == 0 && final(paths)@ == old(paths)@,
        code == 4 ==> answer == 1 && final(paths)@ == old(paths)@,
        code > 4 ==> answer == -1 && final(paths)@ == old(paths)@,
{
}

/// A packet's code tells whether it was queued, dropped or not taken at all.
pub proof fn law_packet_codes(disposition: Option<PacketDisposition>, code: i32)
    requires
        call_ensures(submit_packet_code, (disposition,), code),
    ensures
        code == 1 <==> disposition == Some(PacketDisposition::QueuedForTransport),
        code == -1 <==> disposition is None,
        code == 1 || code == 0 || code == -1,
{
}

/// A transport's code tells its state; without a transport it is that of a failed
/// one.
pub proof fn law_transport_codes(state: Option<MeshTransportState>, code: u32)
    requires
        call_ensures(transport_state_code, (state,), code),
    ensures
        state == Some(MeshTransportState::Connecting) ==> code == 0,
        state == Some(MeshTransportState::Ready) ==> code == 1,
        state == Some(MeshTransportState::Failed) ==> code == 2,
        state == Some(MeshTransportState::Stopped) ==> code == 3,
        state is None ==> code == 2,
{
}

/// The trust source's code tells a live record from a stored one.
pub proof fn law_source_codes(source: PeerRecordSource, code: u32)
    requires
        call_ensures(PeerRecordSource::trust_source_code, (source,), code),
    ensures
        source is RendezvousLive <==> code == 1,
        source is PeerStoreCache <==> code == 2,
{
}

/// A pointer may be borrowed unless it is null and claims to hold something.
pub proof fn law_null_holds_nothing(is_null: bool, len: usize, b: bool)
    requires
        call_ensures(is_borrowable, (is_null, len), b),
    ensures
        b <==> !is_null || len == 0,
{
}

/// Text is ordered as a dictionary is: by the first character that differs, and a
/// beginning comes before the whole.
pub proof fn law_text_order_is_lexicographic(a: Seq<char>, b: Seq<char>)
    ensures
        text_le(a, b) <==> {
            ||| a.len() <= b.len() && b.subrange(0, a.len() as int) == a
            ||| exists|k: int|
                0 <= k < a.len() && k < b.len() && #[trigger] a[k] < b[k] && a.subrange(0, k)
                    == b.subrange(0, k)
        },
    decreases a.len(),
{
    if a.len() == 0 {
        assert(b.subrange(0, 0) =~= a);
    } else if b.len() > 0 {
        let x = a.drop_first();
        let y = b.drop_first();
        law_text_order_is_lexicographic(x, y);
        if a[0] == b[0] {
            if x.len() <= y.len() && y.subrange(0, x.len() as int) == x {
                assert(b.subrange(0, a.len() as int) =~= seq![b[0]] + y.subrange(
                    0,
                    x.len() as int,
                ));
                assert(seq![a[0]] + x =~= a);
            }
            if a.len() <= b.len() && b.subrange(0, a.len() as int) == a {
                assert(y.subrange(0, x.len() as int) =~= b.subrange(
                    0,
                    a.len() as int,
                ).drop_first());
            }
            if exists|k: int|
                0 <= k < x.len() && k < y.len() && #[trigger] x[k] < y[k] && x.subrange(0, k)
                    == y.subrange(0, k) {
                let k = choose|k: int|
                    0 <= k < x.len() && k < y.len() && #[trigger] x[k] < y[k] && x.subrange(0, k)
                        == y.subrange(0, k);
                assert(a.subrange(0, k + 1) =~= seq![a[0]] + x.subrange(0, k));
                assert(b.subrange(0, k + 1) =~= seq![b[0]] + y.subrange(0, k));
                assert(a[k + 1] < b[k + 1]);
            }
            if exists|k: int|
                0 <= k < a.len() && k < b.len() && #[trigger] a[k] < b[k] && a.subrange(0, k)
                    == b.subrange(0, k) {
                let k = choose|k: int|
                    0 <= k < a.len() && k < b.len() && #[trigger] a[k] < b[k] && a.subrange(0, k)
                        == b.subrange(0, k);
                assert(k > 0);
                assert(x.subrange(0, k - 1) =~= a.subrange(0, k).drop_first());
                assert(y.subrange(0, k - 1) =~= b.subrange(0, k).drop_first());
                assert(x[k - 1] < y[k - 1]);
            }
        } else {
            if a[0] < b[0] {
                assert(a.subrange(0, 0) =~= b.subrange(0, 0));
                assert(a[0] < b[0]);
            }
            if a.len() <= b.len() && b.subrange(0, a.len() as int) == a {
                assert(b.subrange(0, a.len() as int)[0] == a[0]);
            }
            if exists|k: int|
                0 <= k < a.len() && k < b.len() && #[trigger] a[k] < b[k] && a.subrange(0, k)
                    == b.subrange(0, k) {
                let k = choose|k: int|
                    0 <= k < a.len() && k < b.len() && #[trigger] a[k] < b[k] && a.subrange(0, k)
                        == b.subrange(0, k);
                if k > 0 {
                    assert(a.subrange(0, k)[0] == b.subrange(0, k)[0]);
                }
            }
        }
    }
}

// ---------------------------------------------------------------------------
// Control endpoints
// ---------------------------------------------------------------------------

/// The text holds none of the characters that part hosts from ports.
pub open spec fn is_plain(s: Seq<char>) -> bool {
    forall|i: int|
        0 <= i < s.len() ==> #[trigger] s[i] != ':' && s[i] != '[' && s[i] != ']' && s[i] != '/'
}

proof fn lemma_last_colon(host: Seq<char>, port: Seq<char>)
    requires
        is_plain(port),
    ensures
        last_index(host + seq![':'] + port, ':') == host.len(),
    decreases port.len(),
{
    let s = host + seq![':'] + port;
    if port.len() > 0 {
        assert(s.last() == port[port.len() - 1]);
        let front = port.drop_last();
        assert forall|i: int| 0 <= i < front.len() implies #[trigger] front[i] != ':' && front[i]
            != '[' && front[i] != ']' && front[i] != '/' by {
            assert(front[i] == port[i]);
        }
        assert(s.drop_last() =~= host + seq![':'] + front);
        lemma_last_colon(host, front);
    } else {
        assert(s.last() == ':');
    }
}

proof fn lemma_plain_host_port(host: Seq<char>, port: Seq<char>)
    requires
        is_plain(host),
        is_plain(port),
        host.len() > 0,
        port.len() > 0,
    ensures
        host_and_port(host + seq![':'] + port) == Some((host, port)),
        unbracketed(host) == host,
{
    let s = host + seq![':'] + port;
    assert(s[0] == host[0]);
    lemma_last_colon(host, port);
    assert(s.subrange(0, host.len() as int) =~= host);
    assert(s.skip(host.len() as int + 1) =~= port);
    assert(host.last() == host[host.len() - 1]);
}

proof fn lemma_bracketed_host_port(host: Seq<char>, port: Seq<char>)
    requires
        forall|i: int| 0 <= i < host.len() ==> #[trigger] host[i] != '[' && host[i] != ']',
        host.len() > 0,
        port.len() > 0,
    ensures
        host_and_port(seq!['['] + host + seq![']', ':'] + port) == Some((host, port)),
        unbracketed(host) == host,
{
    let s = seq!['['] + host + seq![']', ':'] + port;
    let rest = s.skip(1);
    let n = host.len() as int;
    assert(rest[n] == ']');
    assert(rest[n + 1] == ':');
    assert forall|i: int| 0 <= i < n implies rest[i] != ']' by {
        assert(rest[i] == host[i]);
    }
    lemma_first_index_unique(rest, ']', n);
    assert(rest.subrange(0, n) =~= host);
    assert(rest.skip(n + 2) =~= port);
    assert(host.last() == host[host.len() - 1]);
}

/// A host and a port are a plain endpoint, with a scheme or without, and an
/// encrypted one under its own scheme; the server is then known by its host.
pub proof fn law_endpoints_are_told_by_their_scheme(host: Seq<char>, port: Seq<char>)
    requires
        is_plain(host),
        is_plain(port),
        host.len() > 0,
        port.len() > 0,
    ensures
        ({
            let address = host + seq![':'] + port;
            &&& parsed_endpoint(address) == Ok::<ControlEndpointView, QlinkErrorView>(
                ControlEndpointView::Tcp(address),
            )
            &&& parsed_endpoint("tcp://"@ + address) == Ok::<ControlEndpointView, QlinkErrorView>(
                ControlEndpointView::Tcp(address),
            )
            &&& parsed_endpoint("tls://"@ + address) == Ok::<ControlEndpointView, QlinkErrorView>(
                ControlEndpointView::Tls { address, server_name: host },
            )
        }),
{
    let address = host + seq![':'] + port;
    lemma_plain_host_port(host, port);
    lemma_schemes(address);
    reveal_strlit("tcp://");
    reveal_strlit("tls://");
    if has_prefix(address, "tcp://"@) || has_prefix(address, "tls://"@) {
        assert(address.subrange(0, 6)[3] == ':');
        assert(address[3] == ':');
        assert(address.subrange(0, 6)[4] == '/');
        assert(address[4] == '/');
        if host.len() > 4 {
            assert(address[4] == host[4]);
        } else if host.len() < 4 {
            assert(address[4] == port[4 - host.len() - 1]);
        }
    }
}

/// A host in brackets, which may hold colons, is an endpoint too; the server is
/// then known by what stands between the brackets.
pub proof fn law_bracketed_hosts_are_endpoints(host: Seq<char>, port: Seq<char>)
    requires
        forall|i: int| 0 <= i < host.len() ==> #[trigger] host[i] != '[' && host[i] != ']',
        host.len() > 0,
        port.len() > 0,
    ensures
        ({
            let address = seq!['['] + host + seq![']', ':'] + port;
            &&& parsed_endpoint(address) == Ok::<ControlEndpointView, QlinkErrorView>(
                ControlEndpointView::Tcp(address),
            )
            &&& parsed_endpoint("tls://"@ + address) == Ok::<ControlEndpointView, QlinkErrorView>(
                ControlEndpointView::Tls { address, server_name: host },
            )
        }),
{
    let address = seq!['['] + host + seq![']', ':'] + port;
    lemma_bracketed_host_port(host, port);
    lemma_schemes(address);
    reveal_strlit("tcp://");
    reveal_strlit("tls://");
    if has_prefix(address, "tcp://"@) || has_prefix(address, "tls://"@) {
        assert(address.subrange(0, 6)[0] == 't');
    }
}

/// Without a colon there is no port, and so no endpoint.
pub proof fn law_endpoint_needs_a_port(input: Seq<char>)
    requires
        forall|i: int| 0 <= i < input.len() ==> #[trigger] input[i] != ':' && input[i] != '[',
    ensures
        parsed_endpoint(input) is Err,
        parsed_endpoint("tls://"@ + input) is Err,
        parsed_endpoint("tcp://"@ + input) is Err,
{
    lemma_no_colon(input);
    lemma_schemes(input);
    reveal_strlit("tcp://");
    reveal_strlit("tls://");
    if has_prefix(input, "tcp://"@) || has_prefix(input, "tls://"@) {
        assert(input.subrange(0, 6)[3] == ':');
        assert(input[3] == ':');
    }
}

proof fn lemma_no_colon(s: Seq<char>)
    requires
        forall|i: int| 0 <= i < s.len() ==> #[trigger] s[i] != ':' && s[i] != '[',
    ensures
        last_index(s, ':') == -1,
        host_and_port(s) is None,
    decreases s.len(),
{
    if s.len() > 0 {
        assert(s[s.len() - 1] != ':');
        assert forall|i: int| 0 <= i < s.drop_last().len() implies #[trigger] s.drop_last()[i]
            != ':' && s.drop_last()[i] != '[' by {
            assert(s.drop_last()[i] == s[i]);
        }
        lemma_no_colon(s.drop_last());
        assert(s[0] != '[');
    }
}

proof fn lemma_schemes(address: Seq<char>)
    ensures
        has_prefix("tcp://"@ + address, "tcp://"@),
        !has_prefix("tls://"@ + address, "tcp://"@),
        has_prefix("tls://"@ + address, "tls://"@),
        after_prefix("tcp://"@ + address, "tcp://"@) == address,
        after_prefix("tls://"@ + address, "tls://"@) == address,
{
    reveal_strlit("tcp://");
    reveal_strlit("tls://");
    let plain = "tcp://"@ + address;
    let secret = "tls://"@ + address;
    assert(plain.subrange(0, 6) =~= "tcp://"@);
    assert(secret.subrange(0, 6) =~= "tls://"@);
    assert(plain.subrange(6, plain.len() as int) =~= address);
    assert(secret.subrange(6, secret.len() as int) =~= address);
    if has_prefix(secret, "tcp://"@) {
        assert(secret.subrange(0, 6)[1] == 'l');
    }
}

/// The parts of a wallet's settings are read as text, all or none; a name that is
/// empty counts as none, and the contract has to be an address.
pub proof fn law_wallet_settings_are_read_as_text(
    endpoint: &[u8],
    contract: &[u8],
    keystore_path: &[u8],
    wallet_name: &[u8],
    r: Option<DytallixRegistryConfig>,
)
    requires
        call_ensures(ensure_wallet_config, (endpoint, contract, keystore_path, wallet_name), r),
    ensures
        r is Some <==> valid_utf8(endpoint@) && valid_utf8(contract@) && valid_utf8(keystore_path@)
            && valid_utf8(wallet_name@) && normal_address(decode_utf8(contract@)) is Ok,
        r matches Some(c) ==> {
            &&& c.endpoint@ == decode_utf8(endpoint@)
            &&& Ok::<Seq<char>, QlinkErrorView>(c.contract_address@) == normal_address(
                decode_utf8(contract@),
            )
            &&& c.keystore_path@ == decode_utf8(keystore_path@)
            &&& wallet_name@.len() == 0 ==> c.wallet_name is None
            &&& wallet_name@.len() > 0 ==> c.wallet_name is Some && c.wallet_name->0@
                == decode_utf8(wallet_name@)
        },
{
}

/// A list of peers is one line for each.
pub proof fn law_lists_are_one_line_each(list: Seq<Seq<char>>, t: Seq<char>)
    ensures
        lines(Seq::<Seq<char>>::empty()) == Seq::<char>::empty(),
        lines(seq![t]) == t,
        list.len() > 0 ==> lines(list.push(t)) == lines(list) + seq!['\n'] + t,
{
    reveal_strlit("\n");
    assert("\n"@ =~= seq!['\n']);
    assert(list.push(t).drop_last() =~= list);
}

/// The peers are listed in order, each as often as it is known.
pub proof fn law_peers_are_listed_in_order(peer_ids: &Vec<String>, s: String)
    requires
        call_ensures(peer_ids_text, (peer_ids,), s),
    ensures
        exists|sorted: Seq<Seq<char>>|
            {
                &&& s@ == #[trigger] lines(sorted)
                &&& sorted.to_multiset() == texts(peer_ids@).to_multiset()
                &&& forall|i: int, j: int|
                    0 <= i < j < sorted.len() ==> text_le(#[trigger] sorted[i], #[trigger] sorted[j])
            },
{
    let sorted = sorted_texts(texts(peer_ids@));
    law_peer_ids_are_sorted(texts(peer_ids@));
    assert(s@ == lines(sorted));
}

/// A frame comes as the relay delivers it; a closed relay delivers none.
pub proof fn law_frames_come_as_the_relay_delivers_them(
    received: Option<(String, Vec<u8>)>,
    r: Result<Vec<u8>>,
)
    requires
        call_ensures(relay_frame, (received,), r),
    ensures
        r is Ok <==> received is Some,
        received matches Some(delivered) ==> r == Ok::<Vec<u8>, QlinkError>(delivered.1),
{
}

/// A candidate's address is its own, where it has one.
pub proof fn law_candidates_stand_for_their_address(
    candidate: &CandidateEndpoint,
    r: Option<SocketAddr>,
)
    requires
        call_ensures(candidate_socket_addr, (candidate,), r),
    ensures
        r is Some <==> candidate.ip is Some,
        r matches Some(addr) ==> Some(addr.ip) == candidate.ip && addr.port == candidate.port,
{
}

/// A host and a port are split at the last colon, or after the bracket.
pub proof fn law_hosts_and_ports_are_split(value: &str, r: Option<(String, String)>)
    requires
        call_ensures(split_host_port, (value,), r),
    ensures
        r matches Some(found) ==> {
            let host = found.0@;
            let port = found.1@;
            &&& host.len() > 0 && port.len() > 0
            &&& value@ == host + seq![':'] + port || value@ == seq!['['] + host + seq![']', ':']
                + port
        },
{
    if let Some(found) = r {
        let s = value@;
        let host = found.0@;
        let port = found.1@;
        if s.len() > 0 && s[0] == '[' {
            let rest = s.skip(1);
            let end = first_index(rest, ']');
            lemma_first_index(rest, ']');
            assert(s =~= seq!['['] + host + seq![']', ':'] + port);
        } else {
            let colon = last_index(s, ':');
            lemma_last_index_is_one(s);
            assert(s =~= host + seq![':'] + port);
        }
    }
}

proof fn lemma_last_index_is_one(s: Seq<char>)
    ensures
        -1 <= last_index(s, ':') < s.len(),
        last_index(s, ':') >= 0 ==> s[last_index(s, ':')] == ':',
    decreases s.len(),
{
    if s.len() > 0 && s.last() != ':' {
        lemma_last_index_is_one(s.drop_last());
    }
}

/// The fingerprint of a key is the digest, in hexadecimal, of its algorithm and
/// its bytes under the library's label.
pub proof fn law_fingerprint_is_the_digest_of_the_key<F: Fn(&[u8], &[&[u8]]) -> [u8; 8]>(
    key: &DevicePublicKey,
    shake256_xof: F,
    digest: Seq<u8>,
    s: String,
)
    requires
        call_ensures(compute_public_key_fingerprint::<F>, (key, shake256_xof), s),
        forall|label: &[u8], parts: &[&[u8]], d: [u8; 8]|
            label@ == encode_utf8("QuantumLink mDNS public key fingerprint v1"@) && parts@.len() == 2
                && parts@[0]@ == encode_utf8(key.algorithm@) && parts@[1]@ == key.bytes@
                && #[trigger] call_ensures(shake256_xof, (label, parts), d) ==> d@ == digest,
    ensures
        s@ == hex_text(digest),
{
}

} // verus!
