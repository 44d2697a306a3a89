//! What holds of every step of an attempt to connect.

use crate::connect::{ConnectBasis, DirectProbeResult, Race, dial_verdict, with_observations};
use crate::connect_laws::{
    dialable, is_named, law_all_but_relays_are_tried, law_every_dialable_candidate_gets_a_probe,
    law_observations_add_seen_hosts,
};
use crate::connector::{
    Clock, Dial, DialAction, DialEvent, MeshConnector, dial_order, race_settings,
};
use crate::discovery::{CandidateType, PeerRecord, candidate_views};
use crate::dytallix_identity::RegistryNodeRecord;
use crate::error::{QlinkError, QlinkErrorView, Result};
use crate::mdns_discovery::MdnsPeerObservation;
use crate::mesh_connection::{
    CachedPath, MdnsObservationCache, NetworkEvent, NetworkEventResponse, PeerRecordSource,
    StampedView, entries_of, fresh_entries, observation_views, unstamped, with_other_addresses,
};
use crate::net::{SocketAddr, ip_text};
use crate::time::{Duration, Instant};
use vstd::multiset::*;
use vstd::prelude::*;
use vstd::seq_lib::*;

verus! {

/// An attempt that the access list lets through looks the peer up; one that it
/// denies ends there.
pub proof fn law_denied_peer_is_not_looked_up<A, K, R>(
    connector: &mut MeshConnector<A, K, R>,
    decision: Option<(bool, String)>,
    remote_peer_id: &str,
    started: Instant,
    clock: Clock,
    host_priority: u32,
    r: (Dial, DialAction),
)
    requires
        call_ensures(
            MeshConnector::<A, K, R>::dial,
            (
                connector,
                Dial::Admitting,
                DialEvent::Admission(decision),
                remote_peer_id,
                started,
                clock,
                host_priority,
            ),
            r,
        ),
    ensures
        *final(connector) == *old(connector),
        decision is None ==> r.0 is LookingUp && r.1 is LookUp,
        decision matches Some(said) ==> (said.0 ==> r.0 is LookingUp && r.1 is LookUp),
        decision matches Some(said) ==> (!said.0 ==> r.0 is Finished && (r.1 matches
            DialAction::Finish(Err(e)) && e@ == QlinkErrorView::Protocol(
            "peer "@ + remote_peer_id@ + " rejected by ACL: "@ + said.1@,
        ))),
{
}

/// A live record is verified as such; only without one the store is asked.
pub proof fn law_store_is_asked_only_without_a_live_record<A, K, R>(
    connector: &mut MeshConnector<A, K, R>,
    looked: Result<Option<PeerRecord>>,
    remote_peer_id: &str,
    started: Instant,
    clock: Clock,
    host_priority: u32,
    r: (Dial, DialAction),
)
    requires
        call_ensures(
            MeshConnector::<A, K, R>::dial,
            (
                connector,
                Dial::LookingUp,
                DialEvent::Looked(looked),
                remote_peer_id,
                started,
                clock,
                host_priority,
            ),
            r,
        ),
    ensures
        *final(connector) == *old(connector),
        looked matches Ok(Some(live)) ==> r.0 == (Dial::Verifying {
            record: live,
            source: PeerRecordSource::RendezvousLive,
        }) && r.1 is Verify,
        looked matches Ok(None) ==> r.0 == (Dial::Loading { failure: None }) && r.1 is LoadStored,
        looked matches Err(why) ==> r.0 == (Dial::Loading { failure: Some(why) })
            && r.1 is LoadStored,
{
}

/// A stored record is verified too. Without one the attempt ends with the reason
/// why there was no live one.
pub proof fn law_stored_record_is_verified_too<A, K, R>(
    connector: &mut MeshConnector<A, K, R>,
    failure: Option<QlinkError>,
    stored: Option<PeerRecord>,
    remote_peer_id: &str,
    started: Instant,
    clock: Clock,
    host_priority: u32,
    r: (Dial, DialAction),
)
    requires
        call_ensures(
            MeshConnector::<A, K, R>::dial,
            (
                connector,
                Dial::Loading { failure },
                DialEvent::Loaded(stored),
                remote_peer_id,
                started,
                clock,
                host_priority,
            ),
            r,
        ),
    ensures
        final(connector).cache == old(connector).cache,
        stored matches Some(record) ==> r.0 == (Dial::Verifying {
            record,
            source: PeerRecordSource::PeerStoreCache,
        }) && r.1 is Verify,
        stored is None ==> r.0 is Finished && (r.1 matches DialAction::Finish(Err(e)) && e@
            == match failure {
            Some(why) => why@,
            None => QlinkErrorView::Protocol(
                "peer "@ + remote_peer_id@ + " not found in rendezvous "@ + old(
                    connector,
                ).config.mesh_id@,
            ),
        }),
{
}

/// A record that is not genuine ends the attempt. A genuine one goes to the
/// registry, and into the store where it came live.
pub proof fn law_only_genuine_records_go_on<A, K, R>(
    connector: &mut MeshConnector<A, K, R>,
    record: PeerRecord,
    source: PeerRecordSource,
    error: Option<QlinkError>,
    remote_peer_id: &str,
    started: Instant,
    clock: Clock,
    host_priority: u32,
    r: (Dial, DialAction),
)
    requires
        call_ensures(
            MeshConnector::<A, K, R>::dial,
            (
                connector,
                Dial::Verifying { record, source },
                DialEvent::Verified(error),
                remote_peer_id,
                started,
                clock,
                host_priority,
            ),
            r,
        ),
    ensures
        final(connector).cache == old(connector).cache,
        error matches Some(why) ==> r.0 is Finished && (r.1 matches DialAction::Finish(Err(e))
            && e@ == why@),
        error is None ==> r.0 == (Dial::AskingRegistry { record, source }) && (r.1 matches
            DialAction::AskRegistry { store } && (store <==> source is RendezvousLive)),
{
}

/// The registry's answer decides: a verdict against the peer ends the attempt, and
/// a verdict for it starts the race exactly where there is something to dial, a
/// certificate of the peer and a device key.
pub proof fn law_registry_answer_starts_the_race<A, K, R>(
    connector: &mut MeshConnector<A, K, R>,
    record: PeerRecord,
    source: PeerRecordSource,
    lookup: Option<Result<Option<RegistryNodeRecord>>>,
    remote_peer_id: &str,
    started: Instant,
    clock: Clock,
    host_priority: u32,
    r: (Dial, DialAction),
)
    requires
        call_ensures(
            MeshConnector::<A, K, R>::dial,
            (
                connector,
                Dial::AskingRegistry { record, source },
                DialEvent::Registry(lookup),
                remote_peer_id,
                started,
                clock,
                host_priority,
            ),
            r,
        ),
    ensures
        ({
            let verdict = dial_verdict(
                record,
                lookup,
                old(connector).config.mesh_trust_policy,
                clock.now_unix,
            );
            let order = old(connector).order(record, remote_peer_id@, clock.now, host_priority);
            let ready = order.len() > 0 && record.body.device_certificate_der@.len() > 0 && old(
                connector,
            ).config.local_device_keypair is Some;
            &&& verdict matches Err(why) ==> r.0 is Finished && (r.1 matches DialAction::Finish(
                Err(e),
            ) && e@ == why) && final(connector).cache == old(connector).cache
            &&& verdict is Ok && ready ==> final(connector).cache == old(connector).cache
                && (r.0 matches Dial::Racing { record: raced, basis } && raced == record
                && basis.registry_decision == verdict->Ok_0 && basis.peer_record_source == source
                && basis.had_direct_candidates && (basis.used_cached_path <==> old(
                connector,
            ).cache@.dom().contains(remote_peer_id@)))
            &&& verdict is Ok && ready ==> (r.1 matches DialAction::Race { probes } && probes@.len()
                == dialable(order).len() && forall|n: int|
                0 <= n < probes@.len() ==> Some((#[trigger] probes@[n]).address.ip)
                    == dialable(order)[n].ip && probes@[n].address.port == dialable(order)[n].port
                    && probes@[n].probe_timeout == old(connector).config.direct_probe_timeout
                    && probes@[n].overall_deadline == old(connector).config.overall_deadline
                    && probes@[n].connect_started == started && (probes@[n].check_path <==> old(
                    connector,
                ).config.local_ice_credentials is Some))
            &&& verdict is Ok && !ready ==> r.0 is Finished && (r.1 matches DialAction::Finish(
                Err(_),
            ))
            &&& verdict is Ok && order.len() == 0 ==> final(connector).cache@ == old(
                connector,
            ).cache@
            &&& verdict is Ok && !ready && order.len() > 0 ==> final(connector).cache@ == old(
                connector,
            ).cache@.remove(remote_peer_id@)
        }),
{
    let order = old(connector).order(record, remote_peer_id@, clock.now, host_priority);
    law_every_dialable_candidate_gets_a_probe(
        race_settings(old(connector).config, record, started),
        order,
    );
}

/// A won race ends the attempt with the winner's address, which becomes the peer's
/// path. A lost one ends it with a refusal and forgets the path that was tried.
pub proof fn law_race_settles_the_attempt<A, K, R>(
    connector: &mut MeshConnector<A, K, R>,
    record: PeerRecord,
    basis: ConnectBasis,
    race: DirectProbeResult,
    remote_peer_id: &str,
    started: Instant,
    clock: Clock,
    host_priority: u32,
    r: (Dial, DialAction),
)
    requires
        call_ensures(
            MeshConnector::<A, K, R>::dial,
            (
                connector,
                Dial::Racing { record, basis },
                DialEvent::Raced(race),
                remote_peer_id,
                started,
                clock,
                host_priority,
            ),
            r,
        ),
    ensures
        r.0 is Finished,
        final(connector).mdns_cache == old(connector).mdns_cache,
        race matches DirectProbeResult::Established { address, attempts } ==> {
            &&& final(connector).cache@ == old(connector).cache@.insert(
                remote_peer_id@,
                CachedPath { address, last_used: clock.now },
            )
            &&& r.1 matches DialAction::Finish(Ok(outcome)) && outcome.remote_addr == Some(address)
                && outcome.path_kind is Direct && outcome.remote_peer_id@ == remote_peer_id@
                && outcome.attempts == attempts && outcome.registry_decision
                == basis.registry_decision && outcome.peer_record_source
                == basis.peer_record_source && outcome.used_cached_path == basis.used_cached_path
                && outcome.total_elapsed.nanos == if clock.now.nanos >= started.nanos {
                clock.now.nanos - started.nanos
            } else {
                0
            }
        },
        race is Exhausted ==> (r.1 matches DialAction::Finish(Err(_))),
        race is Exhausted && basis.had_direct_candidates ==> final(connector).cache@ == old(
            connector,
        ).cache@.remove(remote_peer_id@),
        race is Exhausted && !basis.had_direct_candidates ==> final(connector).cache@ == old(
            connector,
        ).cache@,
{
}

/// An event that the attempt does not wait for changes nothing.
pub proof fn law_untimely_event_changes_nothing<A, K, R>(
    connector: &mut MeshConnector<A, K, R>,
    dial: Dial,
    event: DialEvent,
    remote_peer_id: &str,
    started: Instant,
    clock: Clock,
    host_priority: u32,
    r: (Dial, DialAction),
)
    requires
        call_ensures(
            MeshConnector::<A, K, R>::dial,
            (connector, dial, event, remote_peer_id, started, clock, host_priority),
            r,
        ),
        !(dial is Admitting && event is Admission),
        !(dial is LookingUp && event is Looked),
        !(dial is Loading && event is Loaded),
        !(dial is Verifying && event is Verified),
        !(dial is AskingRegistry && event is Registry),
        !(dial is Racing && event is Raced),
    ensures
        r.0 == dial,
        r.1 is Wait,
        *final(connector) == *old(connector),
{
}

/// Every candidate of the record but a relay is dialled, and no relay. Every
/// address at which a fresh observation with the record's fingerprint saw the peer
/// is dialled, unless the record lists it as a relay's.
pub proof fn law_dial_order_covers_record_and_sightings(
    record: PeerRecord,
    seen: Seq<StampedView>,
    cached_addr: Option<SocketAddr>,
    host_priority: u32,
)
    ensures
        ({
            let order = dial_order(record, seen, cached_addr, host_priority);
            &&& forall|i: int|
                0 <= i < record.body.endpoints@.len() && (
                #[trigger] record.body.endpoints@[i]).candidate_type != CandidateType::Relay
                    ==> order.contains(record.body.endpoints@[i]@)
            &&& forall|i: int|
                0 <= i < order.len() ==> (#[trigger] order[i]).candidate_type
                    != CandidateType::Relay
            &&& forall|k: int, j: int|
                0 <= k < seen.len() && 0 <= j < seen[k].observation.addresses.len()
                    && seen[k].observation.announcement.public_key_fingerprint
                    == record.body.device_public_key.fingerprint@ ==> is_named(
                    order + candidate_views(record.body.endpoints@),
                    #[trigger] seen[k].observation.addresses[j],
                )
        }),
{
    let listed = candidate_views(record.body.endpoints@);
    let fingerprint = record.body.device_public_key.fingerprint@;
    let all = with_observations(listed, unstamped(seen), fingerprint, host_priority);
    let order = dial_order(record, seen, cached_addr, host_priority);
    law_observations_add_seen_hosts(listed, unstamped(seen), fingerprint, host_priority);
    all.to_multiset_ensures();
    order.to_multiset_ensures();
    assert forall|i: int|
        0 <= i < all.len() && (
        #[trigger] all[i]).candidate_type != CandidateType::Relay implies order.contains(
        all[i],
    ) by {
        law_all_but_relays_are_tried(all, cached_addr, all[i]);
        assert(all.contains(all[i]));
        assert(all.to_multiset().count(all[i]) > 0);
    }
    assert forall|i: int|
        0 <= i < record.body.endpoints@.len() && (
        #[trigger] record.body.endpoints@[i]).candidate_type
            != CandidateType::Relay implies order.contains(record.body.endpoints@[i]@) by {
        assert(all.subrange(0, listed.len() as int)[i] == listed[i]);
        assert(all[i] == record.body.endpoints@[i]@);
    }
    assert forall|i: int| 0 <= i < order.len() implies (#[trigger] order[i]).candidate_type
        != CandidateType::Relay by {
        law_all_but_relays_are_tried(all, cached_addr, order[i]);
        assert(order.contains(order[i]));
        assert(order.to_multiset().count(order[i]) > 0);
    }
    assert forall|k: int, j: int|
        0 <= k < seen.len() && 0 <= j < seen[k].observation.addresses.len()
            && seen[k].observation.announcement.public_key_fingerprint
            == record.body.device_public_key.fingerprint@ implies is_named(
        order + listed,
        #[trigger] seen[k].observation.addresses[j],
    ) by {
        let addr = seen[k].observation.addresses[j];
        assert(unstamped(seen)[k] == seen[k].observation);
        assert(is_named(all, unstamped(seen)[k].addresses[j]));
        let i = choose|i: int|
            0 <= i < all.len() && (#[trigger] all[i]).port == addr.port && all[i].address
                == ip_text(addr.ip);
        if i < listed.len() {
            assert(all.subrange(0, listed.len() as int)[i] == listed[i]);
            assert((order + listed)[order.len() + i] == all[i]);
        } else {
            assert(order.contains(all[i]));
            let n = choose|n: int| 0 <= n < order.len() && order[n] == all[i];
            assert((order + listed)[n] == all[i]);
        }
    }
}

/// A connector dials by what its caches hold: the path of that peer, and the
/// sightings of that peer that are not older than the window.
pub proof fn law_connector_dials_by_its_caches<A, K, R>(
    connector: MeshConnector<A, K, R>,
    record: PeerRecord,
    peer_id: Seq<char>,
    now: Instant,
    host_priority: u32,
)
    ensures
        connector.cache@.dom().contains(peer_id) ==> connector.order(
            record,
            peer_id,
            now,
            host_priority,
        ) == dial_order(
            record,
            connector.seen(peer_id, now),
            Some(connector.cache@[peer_id].address),
            host_priority,
        ),
        !connector.cache@.dom().contains(peer_id) ==> connector.order(
            record,
            peer_id,
            now,
            host_priority,
        ) == dial_order(record, connector.seen(peer_id, now), None, host_priority),
        connector.mdns_cache@.dom().contains(peer_id) ==> connector.seen(peer_id, now)
            == connector.mdns_cache@[peer_id].filter(
            |s: StampedView|
                s.recorded_at.nanos + connector.mdns_cache.window().nanos >= now.nanos,
        ),
        !connector.mdns_cache@.dom().contains(peer_id) ==> connector.seen(peer_id, now).len() == 0,
{
    if connector.mdns_cache@.dom().contains(peer_id) {
        law_fresh_sightings_are_those_in_the_window(
            connector.mdns_cache@[peer_id],
            now,
            connector.mdns_cache.window(),
        );
    }
}

/// The sightings that count are those no older than the window, in their order.
pub proof fn law_fresh_sightings_are_those_in_the_window(
    entries: Seq<StampedView>,
    now: Instant,
    ttl: Duration,
)
    ensures
        fresh_entries(entries, now, ttl) == entries.filter(
            |s: StampedView| s.recorded_at.nanos + ttl.nanos >= now.nanos,
        ),
    decreases entries.len(),
{
    reveal(Seq::filter);
    if entries.len() > 0 {
        law_fresh_sightings_are_those_in_the_window(entries.drop_last(), now, ttl);
    }
}

proof fn lemma_other_addresses(entries: Seq<StampedView>, addresses: Seq<SocketAddr>)
    ensures
        with_other_addresses(entries, addresses) == entries.filter(
            |s: StampedView| s.observation.addresses != addresses,
        ),
    decreases entries.len(),
{
    reveal(Seq::filter);
    if entries.len() > 0 {
        lemma_other_addresses(entries.drop_last(), addresses);
    }
}

/// A sighting becomes the latest of its peer and takes the place of the one with
/// the same addresses; what is known of other peers stays.
pub proof fn law_sighting_becomes_the_latest(
    cache: &mut MdnsObservationCache,
    observation: MdnsPeerObservation,
    now: Instant,
)
    requires
        call_ensures(MdnsObservationCache::record, (cache, observation, now), ()),
    ensures
        ({
            let peer_id = observation@.announcement.peer_id;
            let known = if old(cache)@.dom().contains(peer_id) {
                old(cache)@[peer_id]
            } else {
                Seq::empty()
            };
            &&& final(cache)@.dom() == old(cache)@.dom().insert(peer_id)
            &&& final(cache)@[peer_id] == known.filter(
                |s: StampedView| s.observation.addresses != observation@.addresses,
            ).push(StampedView { observation: observation@, recorded_at: now })
            &&& forall|other: Seq<char>|
                other != peer_id && old(cache)@.dom().contains(other) ==> final(cache)@[other]
                    == #[trigger] old(cache)@[other]
            &&& final(cache).window() == old(cache).window()
        }),
{
    let peer_id = observation@.announcement.peer_id;
    lemma_other_addresses(entries_of(old(cache)@, peer_id), observation@.addresses);
}

/// Reading a peer's sightings gives the fresh ones in their order, keeps those and
/// drops the stale ones; other peers' stay.
pub proof fn law_reading_sightings_drops_the_stale(
    cache: &mut MdnsObservationCache,
    peer_id: &str,
    now: Instant,
    r: Vec<MdnsPeerObservation>,
)
    requires
        call_ensures(MdnsObservationCache::observations_for, (cache, peer_id, now), r),
        old(cache)@.dom().contains(peer_id@),
    ensures
        ({
            let fresh = old(cache)@[peer_id@].filter(
                |s: StampedView|
                    s.recorded_at.nanos + old(cache).window().nanos >= now.nanos,
            );
            &&& r@.len() == fresh.len()
            &&& forall|i: int| 0 <= i < r@.len() ==> (#[trigger] r@[i])@ == fresh[i].observation
            &&& fresh.len() > 0 ==> final(cache)@ == old(cache)@.insert(peer_id@, fresh)
            &&& fresh.len() == 0 ==> final(cache)@ == old(cache)@.remove(peer_id@)
        }),
{
    law_fresh_sightings_are_those_in_the_window(old(cache)@[peer_id@], now, old(cache).window());
    let views = observation_views(r@);
    assert(views.len() == r@.len());
    assert forall|i: int| 0 <= i < r@.len() implies (#[trigger] r@[i])@ == fresh_entries(
        old(cache)@[peer_id@],
        now,
        old(cache).window(),
    )[i].observation by {
        assert(views[i] == r@[i]@);
    }
}

/// A changed path and a wake-up forget every path and ask for new probes. Falling
/// asleep and a lost network do neither; a regained one asks for probes alone.
pub proof fn law_network_events_forget_paths<A, K, R>(
    connector: &mut MeshConnector<A, K, R>,
    event: NetworkEvent,
    r: NetworkEventResponse,
)
    requires
        call_ensures(MeshConnector::<A, K, R>::handle_network_event, (connector, event), r),
    ensures
        event is PathChanged || event is PostWake ==> final(connector).cache@ == Map::<
            Seq<char>,
            CachedPath,
        >::empty() && r.cache_entries_invalidated == old(connector).cache@.dom().len()
            && r.reprobe_recommended,
        event is PreSleep || event is ReachabilityChanged ==> final(connector).cache@ == old(
            connector,
        ).cache@ && r.cache_entries_invalidated == 0,
        event is PreSleep ==> !r.reprobe_recommended,
        event matches NetworkEvent::ReachabilityChanged { reachable } ==> r.reprobe_recommended
            == reachable,
        final(connector).mdns_cache == old(connector).mdns_cache,
        final(connector).config == old(connector).config,
{
}

/// Dialling a peer anew forgets its path and no other.
pub proof fn law_reconnecting_forgets_the_path<A, K, R>(
    connector: &mut MeshConnector<A, K, R>,
    remote_peer_id: &str,
    dial: Dial,
)
    requires
        call_ensures(MeshConnector::<A, K, R>::reconnect, (connector, remote_peer_id), dial),
    ensures
        dial is Admitting,
        !final(connector).cache@.dom().contains(remote_peer_id@),
        forall|other: Seq<char>|
            other != remote_peer_id@ && old(connector).cache@.dom().contains(other)
                ==> final(connector).cache@.dom().contains(other) && final(connector).cache@[other]
                == #[trigger] old(connector).cache@[other],
        final(connector).mdns_cache == old(connector).mdns_cache,
{
}

} // verus!
