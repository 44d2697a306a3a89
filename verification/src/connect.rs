//! The decisions of an attempt to connect, from the access list to the outcome.
//! The caller looks records up, races the probes and hands in what came of it.

use crate::bytes::{be_value, lemma_byte_ranges, read_be};
use crate::discovery::{
    CandidateEndpoint, CandidateType, CandidateView, PeerRecord, candidate_socket_addr,
    candidate_views, socket_addr_of,
};
use crate::dytallix_identity::{
    MeshTrustPolicy, RegistryDecision, RegistryNodeRecord, binding_verdict,
};
use crate::dytallix_identity_v2::reason_view;
use crate::error::{QlinkError, QlinkErrorView, Result, error_text};
use crate::mdns_discovery::MdnsPeerObservation;
use crate::mesh_connection::{
    CachedPath, ConnectionOutcome, LastGoodCache, ObservationView, PathKind, PeerRecordSource,
    ProbeAttempt, ProbeAttemptView, attempt_views, observation_views,
};
use crate::net::{SocketAddr, ip_text};
use crate::outside::random_bytes;
use crate::probe::{ProbeOutcome, ProbeOutcomeRecord, ProbeOutcomeView, ProbePlan, ProbeRecordView};
use crate::text::{join2, same_text};
use crate::time::{Duration, Instant, elapsed, left_of, saturated};
use vstd::multiset::*;
use vstd::prelude::*;
use vstd::seq_lib::*;
use vstd::string::*;

verus! {

// ---------------------------------------------------------------------------
// Which record
// ---------------------------------------------------------------------------

/// Lets a peer through that no access list was asked about, or that the list
/// allows. `decision` is what the list says: whether the peer is allowed, and why.
pub fn admit_by_acl(remote_peer_id: &str, decision: Option<(bool, String)>) -> (r: Result<()>)
    ensures
        match decision {
            Some(d) => if d.0 {
                r is Ok
            } else {
                r matches Err(e) && e@ == QlinkErrorView::Protocol(
                    "peer "@ + remote_peer_id@ + " rejected by ACL: "@ + d.1@,
                )
            },
            None => r is Ok,
        },
{
    match decision {
        Some(d) => if d.0 {
            Ok(())
        } else {
            let mut text = "peer ".to_owned();
            text.append(remote_peer_id);
            text.append(" rejected by ACL: ");
            text.append(d.1.as_str());
            Err(QlinkError::Protocol(text))
        },
        None => Ok(()),
    }
}

/// Chooses the record of a peer: the live one, or the stored one where the
/// rendezvous has none or cannot be asked. `lookup` is what the rendezvous said,
/// `stored` what the local store holds.
pub fn choose_peer_record(
    remote_peer_id: &str,
    mesh_id: &str,
    lookup: Result<Option<PeerRecord>>,
    stored: Option<PeerRecord>,
) -> (r: Result<(PeerRecord, PeerRecordSource)>)
    ensures
        match (lookup, stored) {
            (Ok(Some(fresh)), _) => r == Ok::<(PeerRecord, PeerRecordSource), QlinkError>(
                (fresh, PeerRecordSource::RendezvousLive),
            ),
            (_, Some(cached)) => r == Ok::<(PeerRecord, PeerRecordSource), QlinkError>(
                (cached, PeerRecordSource::PeerStoreCache),
            ),
            (Ok(None), None) => r matches Err(e) && e@ == QlinkErrorView::Protocol(
                "peer "@ + remote_peer_id@ + " not found in rendezvous "@ + mesh_id@,
            ),
            (Err(why), None) => r matches Err(e) && e@ == why@,
        },
{
    match lookup {
        Ok(Some(fresh)) => Ok((fresh, PeerRecordSource::RendezvousLive)),
        Ok(None) => match stored {
            Some(cached) => Ok((cached, PeerRecordSource::PeerStoreCache)),
            None => {
                let mut text = "peer ".to_owned();
                text.append(remote_peer_id);
                text.append(" not found in rendezvous ");
                text.append(mesh_id);
                Err(QlinkError::Protocol(text))
            },
        },
        Err(e) => match stored {
            Some(cached) => Ok((cached, PeerRecordSource::PeerStoreCache)),
            None => Err(e),
        },
    }
}

/// A live record is stored only once it is verified.
pub fn should_store(source: PeerRecordSource, verified: bool) -> (b: bool)
    ensures
        b == (source == PeerRecordSource::RendezvousLive && verified),
{
    source == PeerRecordSource::RendezvousLive && verified
}

/// What a policy makes of a lookup in the registry: where the lookup fails, a
/// public mesh gives up and the others go on without a record.
pub open spec fn registry_evidence(
    lookup: Option<Result<Option<RegistryNodeRecord>>>,
    policy: MeshTrustPolicy,
) -> Result<Option<RegistryNodeRecord>, QlinkErrorView> {
    match lookup {
        None => Ok(None),
        Some(Ok(record)) => Ok(record),
        Some(Err(e)) => if policy == MeshTrustPolicy::PublicRequired {
            Err(QlinkErrorView::Protocol("identity registry lookup failed: "@ + error_text(e@)))
        } else {
            Ok(None)
        },
    }
}

pub fn weigh_registry_lookup(
    lookup: Option<Result<Option<RegistryNodeRecord>>>,
    policy: MeshTrustPolicy,
) -> (r: Result<Option<RegistryNodeRecord>>)
    ensures
        match registry_evidence(lookup, policy) {
            Ok(record) => r == Ok::<Option<RegistryNodeRecord>, QlinkError>(record),
            Err(why) => r matches Err(e) && e@ == why,
        },
{
    match lookup {
        None => Ok(None),
        Some(Ok(record)) => Ok(record),
        Some(Err(e)) => if policy == MeshTrustPolicy::PublicRequired {
            let reason = e.to_string();
            Err(QlinkError::Protocol(join2("identity registry lookup failed: ", reason.as_str())))
        } else {
            Ok(None)
        },
    }
}

// ---------------------------------------------------------------------------
// Which addresses
// ---------------------------------------------------------------------------

/// A candidate names an address by its text and port.
pub open spec fn names(c: CandidateView, addr: SocketAddr) -> bool {
    c.port == addr.port && c.address == ip_text(addr.ip)
}

/// The candidate that an address seen on the local network makes.
pub open spec fn host_candidate(addr: SocketAddr, host_priority: u32) -> CandidateView {
    CandidateView {
        candidate_type: CandidateType::Host,
        address: ip_text(addr.ip),
        ip: Some(addr.ip),
        port: addr.port,
        priority: host_priority,
    }
}

/// Candidates with one more address, unless they name it already.
pub open spec fn with_address(
    endpoints: Seq<CandidateView>,
    addr: SocketAddr,
    host_priority: u32,
) -> Seq<CandidateView> {
    if exists|i: int| 0 <= i < endpoints.len() && names(#[trigger] endpoints[i], addr) {
        endpoints
    } else {
        endpoints.push(host_candidate(addr, host_priority))
    }
}

/// Candidates with the addresses of a list, one after the other.
pub open spec fn with_addresses(
    endpoints: Seq<CandidateView>,
    addresses: Seq<SocketAddr>,
    host_priority: u32,
) -> Seq<CandidateView>
    decreases addresses.len(),
{
    if addresses.len() == 0 {
        endpoints
    } else {
        with_address(
            with_addresses(endpoints, addresses.drop_last(), host_priority),
            addresses.last(),
            host_priority,
        )
    }
}

/// Candidates with the addresses of every observation that carries the
/// fingerprint of the peer's key; other observations are passed over.
pub open spec fn with_observations(
    endpoints: Seq<CandidateView>,
    observations: Seq<ObservationView>,
    fingerprint: Seq<char>,
    host_priority: u32,
) -> Seq<CandidateView>
    decreases observations.len(),
{
    if observations.len() == 0 {
        endpoints
    } else {
        let before = with_observations(
            endpoints,
            observations.drop_last(),
            fingerprint,
            host_priority,
        );
        let last = observations.last();
        if last.announcement.public_key_fingerprint == fingerprint {
            with_addresses(before, last.addresses, host_priority)
        } else {
            before
        }
    }
}

fn add_address(endpoints: &mut Vec<CandidateEndpoint>, addr: SocketAddr, host_priority: u32)
    ensures
        candidate_views(final(endpoints)@) == with_address(
            candidate_views(old(endpoints)@),
            addr,
            host_priority,
        ),
{
    let text = addr.ip.to_string();
    let mut i: usize = 0;
    while i < endpoints.len()
        invariant
            i <= endpoints@.len(),
            endpoints@ == old(endpoints)@,
            text@ == ip_text(addr.ip),
            forall|j: int| 0 <= j < i ==> !names(#[trigger] candidate_views(endpoints@)[j], addr),
        decreases endpoints@.len() - i,
    {
        if endpoints[i].port == addr.port && same_text(
            endpoints[i].address.as_str(),
            text.as_str(),
        ) {
            assert(names(candidate_views(endpoints@)[i as int], addr));
            return;
        }
        i = i + 1;
    }
    let ghost before = endpoints@;
    endpoints.push(
        CandidateEndpoint {
            candidate_type: CandidateType::Host,
            address: text,
            ip: Some(addr.ip),
            port: addr.port,
            priority: host_priority,
        },
    );
    assert(candidate_views(endpoints@) =~= candidate_views(before).push(
        host_candidate(addr, host_priority),
    ));
}

/// Adds the addresses under which the peer was seen on the local network, as host
/// candidates of the given priority. An observation counts only where its
/// fingerprint is that of the key in the peer's signed record.
pub fn fold_observations(
    endpoints: &Vec<CandidateEndpoint>,
    observations: &Vec<MdnsPeerObservation>,
    fingerprint: &str,
    host_priority: u32,
) -> (all: Vec<CandidateEndpoint>)
    ensures
        candidate_views(all@) == with_observations(
            candidate_views(endpoints@),
            observation_views(observations@),
            fingerprint@,
            host_priority,
        ),
{
    let mut all: Vec<CandidateEndpoint> = Vec::new();
    let mut i: usize = 0;
    while i < endpoints.len()
        invariant
            i <= endpoints@.len(),
            all@.len() == i,
            forall|j: int| 0 <= j < i ==> (#[trigger] all@[j])@ == endpoints@[j]@,
        decreases endpoints@.len() - i,
    {
        all.push(endpoints[i].duplicate());
        i = i + 1;
    }
    let ghost start = candidate_views(endpoints@);
    let ghost seen = observation_views(observations@);
    assert(candidate_views(all@) =~= start);
    assert(seen.subrange(0, 0) =~= Seq::empty());
    let mut k: usize = 0;
    while k < observations.len()
        invariant
            k <= observations@.len(),
            seen == observation_views(observations@),
            candidate_views(all@) == with_observations(
                start,
                seen.subrange(0, k as int),
                fingerprint@,
                host_priority,
            ),
        decreases observations@.len() - k,
    {
        proof {
            assert(seen.subrange(0, k + 1).drop_last() =~= seen.subrange(0, k as int));
            assert(seen.subrange(0, k + 1).last() == observations@[k as int]@);
        }
        if same_text(
            observations[k].announcement.public_key_fingerprint.as_str(),
            fingerprint,
        ) {
            let ghost before = candidate_views(all@);
            let ghost addresses = observations@[k as int].addresses@;
            let mut j: usize = 0;
            assert(addresses.subrange(0, 0) =~= Seq::empty());
            while j < observations[k as usize].addresses.len()
                invariant
                    k < observations@.len(),
                    addresses == observations@[k as int].addresses@,
                    j <= addresses.len(),
                    candidate_views(all@) == with_addresses(
                        before,
                        addresses.subrange(0, j as int),
                        host_priority,
                    ),
                decreases addresses.len() - j,
            {
                assert(addresses.subrange(0, j + 1).drop_last() =~= addresses.subrange(
                    0,
                    j as int,
                ));
                add_address(&mut all, observations[k].addresses[j], host_priority);
                j = j + 1;
            }
            assert(addresses.subrange(0, j as int) =~= addresses);
        }
        k = k + 1;
    }
    assert(seen.subrange(0, k as int) =~= seen);
    all
}

/// A candidate that can be dialled directly.
pub open spec fn is_direct(c: CandidateView) -> bool {
    c.candidate_type == CandidateType::Host || c.candidate_type == CandidateType::ServerReflexive
}

/// The direct candidates of a list, in their order.
pub open spec fn direct_of(endpoints: Seq<CandidateView>) -> Seq<CandidateView>
    decreases endpoints.len(),
{
    if endpoints.len() == 0 {
        Seq::empty()
    } else if is_direct(endpoints.last()) {
        direct_of(endpoints.drop_last()).push(endpoints.last())
    } else {
        direct_of(endpoints.drop_last())
    }
}

/// Where a candidate belongs among ranked ones: behind all that are not of lower
/// priority.
pub open spec fn rank(ranked: Seq<CandidateView>, priority: u32) -> int
    decreases ranked.len(),
{
    if ranked.len() == 0 {
        0
    } else if ranked.last().priority < priority {
        rank(ranked.drop_last(), priority)
    } else {
        ranked.len() as int
    }
}

/// Candidates by falling priority; equals keep their order.
pub open spec fn by_priority(candidates: Seq<CandidateView>) -> Seq<CandidateView>
    decreases candidates.len(),
{
    if candidates.len() == 0 {
        Seq::empty()
    } else {
        let front = by_priority(candidates.drop_last());
        front.insert(rank(front, candidates.last().priority), candidates.last())
    }
}

/// A candidate stands for a socket address.
pub open spec fn stands_for(c: CandidateView, addr: SocketAddr) -> bool {
    c.ip == Some(addr.ip) && c.port == addr.port
}

/// Where a candidate for an address first stands, or the length of the list.
pub open spec fn first_for(candidates: Seq<CandidateView>, addr: SocketAddr) -> int
    decreases candidates.len(),
{
    if candidates.len() == 0 {
        0
    } else if stands_for(candidates[0], addr) {
        0
    } else {
        1 + first_for(candidates.drop_first(), addr)
    }
}

/// Candidates with the first one for the cached address moved to the front.
pub open spec fn cached_first(candidates: Seq<CandidateView>, cached: Option<SocketAddr>) -> Seq<
    CandidateView,
> {
    match cached {
        Some(addr) => {
            let k = first_for(candidates, addr);
            if k < candidates.len() {
                candidates.remove(k).insert(0, candidates[k])
            } else {
                candidates
            }
        },
        None => candidates,
    }
}

/// The order in which addresses are tried.
pub open spec fn direct_order(endpoints: Seq<CandidateView>, cached: Option<SocketAddr>) -> Seq<
    CandidateView,
> {
    cached_first(by_priority(direct_of(endpoints)), cached)
}

pub fn candidate_matches_addr(candidate: &CandidateEndpoint, addr: SocketAddr) -> (b: bool)
    ensures
        b == stands_for(candidate@, addr),
{
    match candidate.ip {
        Some(ip) => ip == addr.ip && candidate.port == addr.port,
        None => false,
    }
}

proof fn lemma_rank_fits(ranked: Seq<CandidateView>, priority: u32)
    ensures
        0 <= rank(ranked, priority) <= ranked.len(),
    decreases ranked.len(),
{
    if ranked.len() > 0 && ranked.last().priority < priority {
        lemma_rank_fits(ranked.drop_last(), priority);
    }
}

/// Puts a candidate where it belongs among ranked ones.
fn place(ranked: &mut Vec<CandidateEndpoint>, candidate: CandidateEndpoint)
    ensures
        candidate_views(final(ranked)@) == candidate_views(old(ranked)@).insert(
            rank(candidate_views(old(ranked)@), candidate.priority),
            candidate@,
        ),
{
    let ghost views = candidate_views(ranked@);
    let mut k: usize = ranked.len();
    assert(views.subrange(0, k as int) =~= views);
    while k > 0 && ranked[k - 1].priority < candidate.priority
        invariant
            k <= ranked@.len(),
            ranked@ == old(ranked)@,
            views == candidate_views(ranked@),
            rank(views, candidate.priority) == rank(
                views.subrange(0, k as int),
                candidate.priority,
            ),
        decreases k,
    {
        assert(views.subrange(0, k as int).last() == ranked@[k - 1]@);
        assert(views.subrange(0, k as int).drop_last() =~= views.subrange(0, k - 1));
        k = k - 1;
    }
    proof {
        if k > 0 {
            assert(views.subrange(0, k as int).last() == ranked@[k - 1]@);
        }
        assert(rank(views, candidate.priority) == k);
    }
    let ghost added = candidate@;
    ranked.insert(k, candidate);
    assert(candidate_views(ranked@) =~= views.insert(k as int, added));
}

proof fn lemma_first_for(candidates: Seq<CandidateView>, addr: SocketAddr, k: int)
    requires
        0 <= k <= candidates.len(),
        k < candidates.len() ==> stands_for(candidates[k], addr),
        forall|j: int| 0 <= j < k ==> !stands_for(#[trigger] candidates[j], addr),
    ensures
        first_for(candidates, addr) == k,
    decreases candidates.len(),
{
    if candidates.len() > 0 && k > 0 {
        assert(!stands_for(candidates[0], addr));
        let rest = candidates.drop_first();
        assert forall|j: int| 0 <= j < k - 1 implies !stands_for(#[trigger] rest[j], addr) by {
            assert(rest[j] == candidates[j + 1]);
        }
        lemma_first_for(rest, addr, k - 1);
    }
}

/// The direct candidates in the order in which they are tried: by falling
/// priority, equals in their own order, and the cached address first.
pub fn order_direct_candidates(
    endpoints: &Vec<CandidateEndpoint>,
    cached_addr: Option<SocketAddr>,
) -> (direct: Vec<CandidateEndpoint>)
    ensures
        candidate_views(direct@) == direct_order(candidate_views(endpoints@), cached_addr),
{
    let mut direct: Vec<CandidateEndpoint> = Vec::new();
    let ghost all = candidate_views(endpoints@);
    let mut i: usize = 0;
    assert(all.subrange(0, 0) =~= Seq::empty());
    assert(candidate_views(direct@) =~= Seq::empty());
    while i < endpoints.len()
        invariant
            i <= endpoints@.len(),
            all == candidate_views(endpoints@),
            candidate_views(direct@) == by_priority(direct_of(all.subrange(0, i as int))),
        decreases endpoints@.len() - i,
    {
        proof {
            assert(all.subrange(0, i + 1).drop_last() =~= all.subrange(0, i as int));
            assert(all.subrange(0, i + 1).last() == endpoints@[i as int]@);
        }
        if endpoints[i].candidate_type == CandidateType::Host || endpoints[i].candidate_type
            == CandidateType::ServerReflexive {
            proof {
                let grown = direct_of(all.subrange(0, i + 1));
                assert(grown.drop_last() =~= direct_of(all.subrange(0, i as int)));
            }
            place(&mut direct, endpoints[i].duplicate());
        }
        i = i + 1;
    }
    assert(all.subrange(0, i as int) =~= all);
    if let Some(target) = cached_addr {
        let ghost ranked = candidate_views(direct@);
        let mut k: usize = 0;
        while k < direct.len() && !candidate_matches_addr(&direct[k], target)
            invariant
                k <= direct@.len(),
                ranked == candidate_views(direct@),
                forall|j: int| 0 <= j < k ==> !stands_for(#[trigger] ranked[j], target),
            decreases direct@.len() - k,
        {
            assert(!stands_for(ranked[k as int], target));
            k = k + 1;
        }
        proof {
            lemma_first_for(ranked, target, k as int);
        }
        if k < direct.len() {
            let cached = direct.remove(k);
            direct.insert(0, cached);
            assert(candidate_views(direct@) =~= ranked.remove(k as int).insert(
                0,
                ranked[k as int],
            ));
        }
    }
    direct
}

// ---------------------------------------------------------------------------
// Laws of the order
// ---------------------------------------------------------------------------

/// Falling priorities.
pub open spec fn is_ranked(candidates: Seq<CandidateView>) -> bool {
    forall|i: int, j: int|
        0 <= i < j < candidates.len() ==> (#[trigger] candidates[i]).priority >= (
        #[trigger] candidates[j]).priority
}

pub(crate) proof fn lemma_rank_splits(ranked: Seq<CandidateView>, priority: u32)
    requires
        is_ranked(ranked),
    ensures
        forall|i: int|
            0 <= i < rank(ranked, priority) ==> (#[trigger] ranked[i]).priority >= priority,
        forall|i: int|
            rank(ranked, priority) <= i < ranked.len() ==> (#[trigger] ranked[i]).priority
                < priority,
        0 <= rank(ranked, priority) <= ranked.len(),
    decreases ranked.len(),
{
    if ranked.len() > 0 {
        let front = ranked.drop_last();
        assert(is_ranked(front)) by {
            assert forall|i: int, j: int| 0 <= i < j < front.len() implies (
            #[trigger] front[i]).priority >= (#[trigger] front[j]).priority by {
                assert(front[i] == ranked[i] && front[j] == ranked[j]);
            }
        }
        if ranked.last().priority < priority {
            lemma_rank_splits(front, priority);
            assert forall|i: int| 0 <= i < rank(ranked, priority) implies (
            #[trigger] ranked[i]).priority >= priority by {
                assert(ranked[i] == front[i]);
            }
            assert forall|i: int| rank(ranked, priority) <= i < ranked.len() implies (
            #[trigger] ranked[i]).priority < priority by {
                if i < front.len() {
                    assert(ranked[i] == front[i]);
                }
            }
        } else {
            assert forall|i: int| 0 <= i < ranked.len() implies (#[trigger] ranked[i]).priority
                >= priority by {
                if i < ranked.len() - 1 {
                    assert(ranked[i].priority >= ranked[ranked.len() - 1].priority);
                }
            }
        }
    }
}

/// Ranking a list ranks it, and neither loses nor adds a candidate.
pub proof fn law_ranking_sorts(candidates: Seq<CandidateView>)
    ensures
        is_ranked(by_priority(candidates)),
        by_priority(candidates).to_multiset() == candidates.to_multiset(),
        by_priority(candidates).len() == candidates.len(),
    decreases candidates.len(),
{
    if candidates.len() > 0 {
        let front = by_priority(candidates.drop_last());
        let x = candidates.last();
        law_ranking_sorts(candidates.drop_last());
        lemma_rank_splits(front, x.priority);
        let k = rank(front, x.priority);
        let all = front.insert(k, x);
        assert forall|i: int, j: int| 0 <= i < j < all.len() implies (#[trigger] all[i]).priority
            >= (#[trigger] all[j]).priority by {
            let a = if i < k {
                i
            } else {
                i - 1
            };
            let b = if j < k {
                j
            } else {
                j - 1
            };
            if i != k {
                assert(all[i] == front[a]);
            }
            if j != k {
                assert(all[j] == front[b]);
            }
        }
        to_multiset_insert(front, k, x);
        assert(candidates =~= candidates.drop_last().push(x));
        to_multiset_build(candidates.drop_last(), x);
    } else {
        assert(by_priority(candidates) =~= candidates);
    }
}

/// The order of tries holds exactly the direct candidates; without a cached
/// address among them it is by falling priority, else the cached address stands
/// first.
pub proof fn law_direct_order(endpoints: Seq<CandidateView>, cached: Option<SocketAddr>)
    ensures
        direct_order(endpoints, cached).to_multiset() == direct_of(endpoints).to_multiset(),
        cached is None ==> is_ranked(direct_order(endpoints, cached)),
        cached matches Some(addr) ==> ((exists|i: int|
            0 <= i < direct_of(endpoints).len() && stands_for(
                #[trigger] direct_of(endpoints)[i],
                addr,
            )) ==> direct_order(endpoints, cached).len() > 0 && stands_for(
            direct_order(endpoints, cached)[0],
            addr,
        )),
{
    let direct = direct_of(endpoints);
    let ranked = by_priority(direct);
    law_ranking_sorts(direct);
    if let Some(addr) = cached {
        lemma_first_for_bounds(ranked, addr);
        let k = first_for(ranked, addr);
        if k < ranked.len() {
            to_multiset_remove(ranked, k);
            to_multiset_insert(ranked.remove(k), 0, ranked[k]);
            assert(ranked.to_multiset().count(ranked[k]) > 0) by {
                ranked.to_multiset_ensures();
                assert(ranked.contains(ranked[k]));
            }
            assert(direct_order(endpoints, cached).to_multiset() =~= ranked.to_multiset());
        } else if exists|i: int|
            0 <= i < direct.len() && stands_for(#[trigger] direct[i], addr) {
            let i = choose|i: int|
                0 <= i < direct.len() && stands_for(#[trigger] direct[i], addr);
            direct.to_multiset_ensures();
            ranked.to_multiset_ensures();
            assert(direct.contains(direct[i]));
            assert(ranked.to_multiset().count(direct[i]) > 0);
            assert(ranked.contains(direct[i]));
            let j = choose|j: int| 0 <= j < ranked.len() && ranked[j] == direct[i];
            assert(!stands_for(ranked[j], addr));
        }
    }
}

pub(crate) proof fn lemma_first_for_bounds(candidates: Seq<CandidateView>, addr: SocketAddr)
    ensures
        0 <= first_for(candidates, addr) <= candidates.len(),
        first_for(candidates, addr) < candidates.len() ==> stands_for(
            candidates[first_for(candidates, addr)],
            addr,
        ),
        forall|j: int|
            0 <= j < first_for(candidates, addr) ==> !stands_for(#[trigger] candidates[j], addr),
    decreases candidates.len(),
{
    if candidates.len() > 0 && !stands_for(candidates[0], addr) {
        let rest = candidates.drop_first();
        lemma_first_for_bounds(rest, addr);
        assert forall|j: int| 0 <= j < first_for(candidates, addr) implies !stands_for(
            #[trigger] candidates[j],
            addr,
        ) by {
            if j > 0 {
                assert(rest[j - 1] == candidates[j]);
            }
        }
    }
}

proof fn to_multiset_insert(s: Seq<CandidateView>, k: int, x: CandidateView)
    requires
        0 <= k <= s.len(),
    ensures
        s.insert(k, x).to_multiset() == s.to_multiset().insert(x),
{
    s.to_multiset_ensures();
    let grown = s.insert(k, x);
    grown.to_multiset_ensures();
    assert(grown.remove(k) =~= s);
    assert(grown.to_multiset().remove(x) == s.to_multiset());
    assert(grown.contains(grown[k]));
    assert(grown.to_multiset().count(x) > 0);
    assert(grown.to_multiset() =~= s.to_multiset().insert(x));
}

proof fn to_multiset_build(s: Seq<CandidateView>, x: CandidateView)
    ensures
        s.push(x).to_multiset() == s.to_multiset().insert(x),
{
    s.to_multiset_ensures();
}

proof fn to_multiset_remove(s: Seq<CandidateView>, k: int)
    requires
        0 <= k < s.len(),
    ensures
        s.remove(k).to_multiset() == s.to_multiset().remove(s[k]),
{
    s.to_multiset_ensures();
}

/// An address that was seen on the local network without the right fingerprint is
/// never tried on that account.
pub proof fn law_wrong_fingerprints_add_nothing(
    endpoints: Seq<CandidateView>,
    observations: Seq<ObservationView>,
    fingerprint: Seq<char>,
    host_priority: u32,
)
    requires
        forall|i: int|
            0 <= i < observations.len() ==> (
            #[trigger] observations[i]).announcement.public_key_fingerprint != fingerprint,
    ensures
        with_observations(endpoints, observations, fingerprint, host_priority) == endpoints,
    decreases observations.len(),
{
    if observations.len() > 0 {
        let front = observations.drop_last();
        assert forall|i: int| 0 <= i < front.len() implies (
        #[trigger] front[i]).announcement.public_key_fingerprint != fingerprint by {
            assert(front[i] == observations[i]);
        }
        assert(observations[observations.len() - 1].announcement.public_key_fingerprint
            != fingerprint);
        law_wrong_fingerprints_add_nothing(endpoints, front, fingerprint, host_priority);
    }
}

// ---------------------------------------------------------------------------
// The race
// ---------------------------------------------------------------------------

/// What a connector needs to plan its probes.
#[derive(Debug, Clone, Copy, PartialEq, Eq, Structural)]
pub struct RaceSettings {
    pub probe_pacing: Duration,
    pub direct_probe_timeout: Duration,
    pub overall_deadline: Duration,
    pub ice_check_timeout: Option<Duration>,
    pub connect_started: Instant,
    /// The connector has credentials to check paths with.
    pub check_path: bool,
    /// The peer has published a certificate.
    pub has_certificate: bool,
    /// The connector has a device key.
    pub has_keypair: bool,
}

/// The probe of a candidate: the `index`-th waits for as many pacing intervals.
pub open spec fn probe_plan(
    settings: RaceSettings,
    candidate_type: CandidateType,
    address: SocketAddr,
    priority: u32,
    index: nat,
) -> ProbePlan {
    ProbePlan {
        candidate_type,
        address,
        priority,
        pacing_offset: Duration {
            nanos: saturated(settings.probe_pacing.nanos * (index % 0x1_0000_0000)) as u128,
        },
        probe_timeout: settings.direct_probe_timeout,
        overall_deadline: settings.overall_deadline,
        ice_check_timeout: match settings.ice_check_timeout {
            Some(timeout) => timeout,
            None => settings.direct_probe_timeout,
        },
        connect_started: settings.connect_started,
        check_path: settings.check_path,
    }
}

/// The probes of a list of candidates. A candidate whose text is no address is
/// passed over, but keeps its turn.
pub open spec fn probe_plans(settings: RaceSettings, candidates: Seq<CandidateView>) -> Seq<
    ProbePlan,
>
    decreases candidates.len(),
{
    if candidates.len() == 0 {
        Seq::empty()
    } else {
        let rest = probe_plans(settings, candidates.drop_last());
        match socket_addr_of(candidates.last()) {
            Some(address) => rest.push(
                probe_plan(
                    settings,
                    candidates.last().candidate_type,
                    address,
                    candidates.last().priority,
                    (candidates.len() - 1) as nat,
                ),
            ),
            None => rest,
        }
    }
}

/// The attempt that a connector without a device key reports for an address.
pub open spec fn keyless_attempt(candidate_type: CandidateType, address: SocketAddr) -> ProbeAttemptView {
    ProbeAttemptView {
        candidate_type,
        address,
        elapsed: Duration { nanos: 0 },
        outcome: ProbeOutcomeView::Failed("direct PQC session requires local_device_keypair"@),
        quic_connect_elapsed: None,
        identity_assertion_elapsed: None,
        ice_round_trip: None,
        peer_reflexive_address: None,
    }
}

/// The attempts that a connector without a device key reports.
pub open spec fn keyless_attempts(candidates: Seq<CandidateView>) -> Seq<ProbeAttemptView>
    decreases candidates.len(),
{
    if candidates.len() == 0 {
        Seq::empty()
    } else {
        let rest = keyless_attempts(candidates.drop_last());
        match socket_addr_of(candidates.last()) {
            Some(address) => rest.push(keyless_attempt(candidates.last().candidate_type, address)),
            None => rest,
        }
    }
}

pub fn direct_keypair_required_attempts(candidates: &Vec<CandidateEndpoint>) -> (attempts: Vec<
    ProbeAttempt,
>)
    ensures
        attempt_views(attempts@) == keyless_attempts(candidate_views(candidates@)),
{
    let mut attempts: Vec<ProbeAttempt> = Vec::new();
    let ghost all = candidate_views(candidates@);
    let mut i: usize = 0;
    assert(all.subrange(0, 0) =~= Seq::empty());
    assert(attempt_views(attempts@) =~= Seq::empty());
    while i < candidates.len()
        invariant
            i <= candidates@.len(),
            all == candidate_views(candidates@),
            attempt_views(attempts@) == keyless_attempts(all.subrange(0, i as int)),
        decreases candidates@.len() - i,
    {
        proof {
            assert(all.subrange(0, i + 1).drop_last() =~= all.subrange(0, i as int));
            assert(all.subrange(0, i + 1).last() == candidates@[i as int]@);
        }
        if let Some(address) = candidate_socket_addr(&candidates[i]) {
            let ghost before = attempts@;
            let attempt = ProbeAttempt {
                candidate_type: candidates[i].candidate_type,
                address,
                elapsed: Duration { nanos: 0 },
                outcome: ProbeOutcome::Failed(
                    "direct PQC session requires local_device_keypair".to_owned(),
                ),
                quic_connect_elapsed: None,
                identity_assertion_elapsed: None,
                ice_round_trip: None,
                peer_reflexive_address: None,
            };
            let ghost added = attempt@;
            attempts.push(attempt);
            assert(attempt_views(attempts@) =~= attempt_views(before).push(added));
        }
        i = i + 1;
    }
    assert(all.subrange(0, i as int) =~= all);
    attempts
}

/// A race that is over before it starts, or the probes to launch.
#[derive(Debug, Clone)]
pub enum RacePlan {
    Exhausted { attempts: Vec<ProbeAttempt> },
    Launch { probes: Vec<ProbePlan> },
}

/// Plans the race. Without candidates, or without a certificate of the peer,
/// nothing is tried; without a device key every address counts as a failure.
pub fn plan_race(settings: &RaceSettings, candidates: &Vec<CandidateEndpoint>) -> (plan: RacePlan)
    ensures
        if candidates@.len() == 0 || !settings.has_certificate {
            plan matches RacePlan::Exhausted { attempts } && attempts@.len() == 0
        } else if !settings.has_keypair {
            plan matches RacePlan::Exhausted { attempts } && attempt_views(attempts@)
                == keyless_attempts(candidate_views(candidates@))
        } else {
            plan matches RacePlan::Launch { probes } && probes@ == probe_plans(
                *settings,
                candidate_views(candidates@),
            )
        },
{
    if candidates.len() == 0 || !settings.has_certificate {
        return RacePlan::Exhausted { attempts: Vec::new() };
    }
    if !settings.has_keypair {
        return RacePlan::Exhausted { attempts: direct_keypair_required_attempts(candidates) };
    }
    let mut probes: Vec<ProbePlan> = Vec::new();
    let ghost all = candidate_views(candidates@);
    let mut i: usize = 0;
    assert(all.subrange(0, 0) =~= Seq::empty());
    while i < candidates.len()
        invariant
            i <= candidates@.len(),
            all == candidate_views(candidates@),
            probes@ == probe_plans(*settings, all.subrange(0, i as int)),
        decreases candidates@.len() - i,
    {
        proof {
            assert(all.subrange(0, i + 1).drop_last() =~= all.subrange(0, i as int));
            assert(all.subrange(0, i + 1).last() == candidates@[i as int]@);
        }
        if let Some(address) = candidate_socket_addr(&candidates[i]) {
            let turn: u32 = (i as u64 % 0x1_0000_0000) as u32;
            let ice_check_timeout = match settings.ice_check_timeout {
                Some(timeout) => timeout,
                None => settings.direct_probe_timeout,
            };
            probes.push(
                ProbePlan {
                    candidate_type: candidates[i].candidate_type,
                    address,
                    priority: candidates[i].priority,
                    pacing_offset: settings.probe_pacing.saturating_mul(turn),
                    probe_timeout: settings.direct_probe_timeout,
                    overall_deadline: settings.overall_deadline,
                    ice_check_timeout,
                    connect_started: settings.connect_started,
                    check_path: settings.check_path,
                },
            );
        }
        i = i + 1;
    }
    assert(all.subrange(0, i as int) =~= all);
    RacePlan::Launch { probes }
}

/// How long the race may still take: what is left of the overall deadline.
pub fn race_window(overall_deadline: Duration, connect_started: Instant, now: Instant) -> (d:
    Duration)
    ensures
        d.nanos == left_of(overall_deadline, elapsed(connect_started, now)),
{
    overall_deadline.saturating_sub(now.saturating_duration_since(connect_started))
}

/// The attempt that a finished probe is reported as: only a launched one is.
pub open spec fn attempt_of(record: ProbeRecordView) -> Option<ProbeAttemptView> {
    match record.address {
        Some(address) => if record.launched {
            Some(
                ProbeAttemptView {
                    candidate_type: record.candidate_type,
                    address,
                    elapsed: record.elapsed,
                    outcome: record.outcome,
                    quic_connect_elapsed: record.quic_connect_elapsed,
                    identity_assertion_elapsed: record.identity_assertion_elapsed,
                    ice_round_trip: record.ice_round_trip,
                    peer_reflexive_address: record.peer_reflexive_address,
                },
            )
        } else {
            None
        },
        None => None,
    }
}

/// The attempts of a race after one more probe has finished.
pub open spec fn attempts_after(
    attempts: Seq<ProbeAttemptView>,
    record: ProbeRecordView,
) -> Seq<ProbeAttemptView> {
    match attempt_of(record) {
        Some(attempt) => attempts.push(attempt),
        None => attempts,
    }
}

/// The address with which a finished probe wins the race, if it does.
pub open spec fn winning_address(record: ProbeRecordView) -> Option<SocketAddr> {
    if record.outcome is Established {
        record.address
    } else {
        None
    }
}

/// Takes note of a finished probe. An address that comes back has won the race.
pub fn join_probe(attempts: &mut Vec<ProbeAttempt>, record: ProbeOutcomeRecord) -> (won: Option<
    SocketAddr,
>)
    ensures
        attempt_views(final(attempts)@) == attempts_after(attempt_views(old(attempts)@), record@),
        won == winning_address(record@),
{
    let established = match &record.outcome {
        ProbeOutcome::Established => true,
        _ => false,
    };
    let won = if established {
        record.address
    } else {
        None
    };
    if record.launched {
        if let Some(address) = record.address {
            let ghost before = attempts@;
            let attempt = ProbeAttempt {
                candidate_type: record.candidate_type,
                address,
                elapsed: record.elapsed,
                outcome: record.outcome,
                quic_connect_elapsed: record.quic_connect_elapsed,
                identity_assertion_elapsed: record.identity_assertion_elapsed,
                ice_round_trip: record.ice_round_trip,
                peer_reflexive_address: record.peer_reflexive_address,
            };
            let ghost added = attempt@;
            attempts.push(attempt);
            assert(attempt_views(attempts@) =~= attempt_views(before).push(added));
        }
    }
    won
}

/// What a race comes to once its probes have finished in some order: the first
/// established one wins, and what finishes after it is not waited for.
pub open spec fn race_result(records: Seq<ProbeRecordView>) -> (
    Option<SocketAddr>,
    Seq<ProbeAttemptView>,
)
    decreases records.len(),
{
    if records.len() == 0 {
        (None, Seq::empty())
    } else {
        let before = race_result(records.drop_last());
        if before.0 is Some {
            before
        } else {
            (
                winning_address(records.last()),
                attempts_after(before.1, records.last()),
            )
        }
    }
}

/// A race is won only by a probe that was established, and the winner is the last
/// attempt that is reported.
pub proof fn law_race_is_won_by_an_established_probe(records: Seq<ProbeRecordView>)
    requires
        forall|i: int|
            0 <= i < records.len() ==> ((#[trigger] records[i]).outcome is Established
                ==> records[i].launched && records[i].address is Some),
    ensures
        race_result(records).0 matches Some(address) ==> {
            let attempts = race_result(records).1;
            &&& attempts.len() > 0
            &&& attempts.last().address == address
            &&& attempts.last().outcome is Established
        },
        race_result(records).0 is None ==> forall|i: int|
            0 <= i < records.len() ==> !((#[trigger] records[i]).outcome is Established),
    decreases records.len(),
{
    if records.len() > 0 {
        let front = records.drop_last();
        assert forall|i: int|
            0 <= i < front.len() && (
            #[trigger] front[i]).outcome is Established implies front[i].launched
            && front[i].address is Some by {
            assert(front[i] == records[i]);
        }
        law_race_is_won_by_an_established_probe(front);
        assert(records[records.len() - 1] == records.last());
        if race_result(records).0 is None {
            assert forall|i: int| 0 <= i < records.len() implies !((
            #[trigger] records[i]).outcome is Established) by {
                if i < front.len() {
                    assert(front[i] == records[i]);
                }
            }
        }
    }
}

// ---------------------------------------------------------------------------
// The outcome
// ---------------------------------------------------------------------------

/// What a race of probes came to.
#[derive(Debug, Clone)]
pub enum DirectProbeResult {
    Established { address: SocketAddr, attempts: Vec<ProbeAttempt> },
    Exhausted { attempts: Vec<ProbeAttempt> },
}

/// A race under way: the attempts that have ended so far.
#[derive(Debug, Clone)]
pub struct Race {
    pub attempts: Vec<ProbeAttempt>,
}

/// What a race is told.
#[derive(Debug, Clone)]
pub enum RaceEvent {
    /// A probe has ended.
    Ended(ProbeOutcomeRecord),
    /// A probe was lost without a record.
    Lost,
    /// Every probe has ended.
    NoneLeft,
    /// The race has taken as long as it may.
    DeadlinePassed,
}

/// What a race does next.
#[derive(Debug, Clone)]
pub enum RaceStep {
    Wait(Race),
    /// The race is over; probes that still run are given up.
    Over(DirectProbeResult),
}

impl Race {
    pub fn new() -> (race: Race)
        ensures
            race.attempts@ == Seq::<ProbeAttempt>::empty(),
            attempt_views(race.attempts@) == race_result(Seq::empty()).1,
    {
        let race = Race { attempts: Vec::new() };
        assert(attempt_views(race.attempts@) =~= Seq::empty());
        race
    }

    /// Goes on with a race: the first established probe wins it, and it is lost
    /// when no probe is left or the time is up.
    pub fn next(self, event: RaceEvent) -> (step: RaceStep)
        ensures
            match event {
                RaceEvent::Ended(record) => {
                    let after = attempts_after(attempt_views(self.attempts@), record@);
                    match winning_address(record@) {
                        Some(won) => step matches RaceStep::Over(
                            DirectProbeResult::Established { address, attempts },
                        ) && address == won && attempt_views(attempts@) == after,
                        None => step matches RaceStep::Wait(race) && attempt_views(race.attempts@)
                            == after,
                    }
                },
                RaceEvent::Lost => step == RaceStep::Wait(self),
                RaceEvent::NoneLeft | RaceEvent::DeadlinePassed => step == RaceStep::Over(
                    DirectProbeResult::Exhausted { attempts: self.attempts },
                ),
            },
    {
        match event {
            RaceEvent::Ended(record) => {
                let mut attempts = self.attempts;
                match join_probe(&mut attempts, record) {
                    Some(address) => RaceStep::Over(
                        DirectProbeResult::Established { address, attempts },
                    ),
                    None => RaceStep::Wait(Race { attempts }),
                }
            },
            RaceEvent::Lost => RaceStep::Wait(self),
            RaceEvent::NoneLeft | RaceEvent::DeadlinePassed => RaceStep::Over(
                DirectProbeResult::Exhausted { attempts: self.attempts },
            ),
        }
    }
}

/// A race that goes on holds what the ended probes come to, and one more probe
/// leads to what all of them come to.
pub proof fn law_race_follows_its_probes(records: Seq<ProbeRecordView>, record: ProbeRecordView)
    requires
        race_result(records).0 is None,
    ensures
        race_result(records.push(record)) == (
            winning_address(record),
            attempts_after(race_result(records).1, record),
        ),
{
    assert(records.push(record).drop_last() =~= records);
}

/// An outcome in words.
pub open spec fn outcome_text(outcome: ProbeOutcomeView) -> Seq<char> {
    match outcome {
        ProbeOutcomeView::Failed(reason) => reason,
        ProbeOutcomeView::IceFailed(reason) => reason,
        ProbeOutcomeView::TimedOut => "timed out"@,
        ProbeOutcomeView::Established => "established"@,
    }
}

/// The last attempt in words.
pub fn latest_probe_failure_summary(attempts: &Vec<ProbeAttempt>) -> (r: Option<String>)
    ensures
        attempts@.len() == 0 ==> r is None,
        attempts@.len() > 0 ==> (r matches Some(s) && s@ == outcome_text(
            attempts@.last().outcome@,
        )),
{
    if attempts.len() == 0 {
        return None;
    }
    match &attempts[attempts.len() - 1].outcome {
        ProbeOutcome::Failed(reason) => Some(reason.clone()),
        ProbeOutcome::IceFailed(reason) => Some(reason.clone()),
        ProbeOutcome::TimedOut => Some("timed out".to_owned()),
        ProbeOutcome::Established => Some("established".to_owned()),
    }
}

/// What a failed race adds to the refusal.
pub open spec fn failure_detail(attempts: Seq<ProbeAttemptView>) -> Seq<char> {
    if attempts.len() == 0 {
        Seq::empty()
    } else {
        "; last direct failure: "@ + outcome_text(attempts.last().outcome)
    }
}

/// The refusal after a race that nobody won.
pub open spec fn exhausted_refusal(
    peer_id: Seq<char>,
    attempts: Seq<ProbeAttemptView>,
    relay_server: Option<Seq<char>>,
) -> QlinkErrorView {
    match relay_server {
        None => QlinkErrorView::Protocol(
            "no direct candidate for peer "@ + peer_id + " succeeded"@ + failure_detail(attempts)
                + " and no relay server is configured"@,
        ),
        Some(server) => QlinkErrorView::Protocol(
            "relay PQC session is required for peer "@ + peer_id
                + "; raw relay fallback via "@ + server + " is disabled"@ + failure_detail(
                attempts,
            ),
        ),
    }
}

/// What an attempt to connect is known to rest on before the race.
#[derive(Debug, Clone, Copy, PartialEq, Eq, Structural)]
pub struct ConnectBasis {
    pub registry_decision: RegistryDecision,
    pub peer_record_source: PeerRecordSource,
    pub used_cached_path: bool,
    pub had_direct_candidates: bool,
}

/// Ends an attempt to connect. The winner's address is remembered; after a race
/// that nobody won the remembered one is dropped, and traffic is never relayed
/// without a secured session.
pub fn conclude_connect(
    cache: &mut LastGoodCache,
    remote_peer_id: &str,
    basis: ConnectBasis,
    race: DirectProbeResult,
    relay_server: Option<&str>,
    total_elapsed: Duration,
    now: Instant,
) -> (r: Result<ConnectionOutcome>)
    requires
        old(cache).wf(),
    ensures
        final(cache).wf(),
        match race {
            DirectProbeResult::Established { address, attempts } => {
                &&& final(cache)@ == old(cache)@.insert(
                    remote_peer_id@,
                    (CachedPath { address, last_used: now }),
                )
                &&& r matches Ok(outcome) && outcome.remote_peer_id@ == remote_peer_id@
                    && outcome.path_kind == PathKind::Direct && outcome.remote_addr == Some(address)
                    && outcome.attempts == attempts && outcome.total_elapsed == total_elapsed
                    && outcome.used_cached_path == basis.used_cached_path
                    && outcome.registry_decision == basis.registry_decision
                    && outcome.peer_record_source == basis.peer_record_source
            },
            DirectProbeResult::Exhausted { attempts } => {
                &&& final(cache)@ == if basis.had_direct_candidates {
                    old(cache)@.remove(remote_peer_id@)
                } else {
                    old(cache)@
                }
                &&& r matches Err(e) && e@ == exhausted_refusal(
                    remote_peer_id@,
                    attempt_views(attempts@),
                    reason_view(relay_server),
                )
            },
        },
{
    match race {
        DirectProbeResult::Established { address, attempts } => {
            cache.record(remote_peer_id, address, now);
            Ok(
                ConnectionOutcome {
                    remote_peer_id: remote_peer_id.to_owned(),
                    path_kind: PathKind::Direct,
                    remote_addr: Some(address),
                    attempts,
                    total_elapsed,
                    used_cached_path: basis.used_cached_path,
                    registry_decision: basis.registry_decision,
                    peer_record_source: basis.peer_record_source,
                },
            )
        },
        DirectProbeResult::Exhausted { attempts } => {
            if basis.had_direct_candidates {
                cache.invalidate(remote_peer_id);
            }
            let mut detail = String::new();
            if let Some(summary) = latest_probe_failure_summary(&attempts) {
                detail.append("; last direct failure: ");
                detail.append(summary.as_str());
            }
            assert(detail@ =~= failure_detail(attempt_views(attempts@)));
            let mut text;
            match relay_server {
                None => {
                    text = "no direct candidate for peer ".to_owned();
                    text.append(remote_peer_id);
                    text.append(" succeeded");
                    text.append(detail.as_str());
                    text.append(" and no relay server is configured");
                },
                Some(server) => {
                    text = "relay PQC session is required for peer ".to_owned();
                    text.append(remote_peer_id);
                    text.append("; raw relay fallback via ");
                    text.append(server);
                    text.append(" is disabled");
                    text.append(detail.as_str());
                },
            }
            Err(QlinkError::Protocol(text))
        },
    }
}

/// What stands between choosing a record and racing probes: the addresses to try,
/// in their order, and what the attempt rests on.
#[derive(Debug, Clone)]
pub struct ConnectPlan {
    pub candidates: Vec<CandidateEndpoint>,
    pub basis: ConnectBasis,
}

/// The verdict on a verified record before anything is dialled: the policy must be
/// satisfied with the registry's answer, and the record bound by it.
pub open spec fn dial_verdict(
    record: PeerRecord,
    lookup: Option<Result<Option<RegistryNodeRecord>>>,
    policy: MeshTrustPolicy,
    now_unix: u64,
) -> Result<RegistryDecision, QlinkErrorView> {
    match registry_evidence(lookup, policy) {
        Err(why) => Err(why),
        Ok(registry_record) => binding_verdict(record, registry_record, policy, now_unix),
    }
}

/// Puts the addresses of an accepted record and of the local network into the
/// order in which they are tried.
pub fn order_plan(
    record: &PeerRecord,
    source: PeerRecordSource,
    decision: RegistryDecision,
    observations: &Vec<MdnsPeerObservation>,
    cached_addr: Option<SocketAddr>,
    host_priority: u32,
) -> (plan: ConnectPlan)
    ensures
        candidate_views(plan.candidates@) == direct_order(
            with_observations(
                candidate_views(record.body.endpoints@),
                observation_views(observations@),
                record.body.device_public_key.fingerprint@,
                host_priority,
            ),
            cached_addr,
        ),
        plan.basis == (ConnectBasis {
            registry_decision: decision,
            peer_record_source: source,
            used_cached_path: cached_addr is Some,
            had_direct_candidates: candidate_views(plan.candidates@).len() > 0,
        }),
{
    let endpoints = fold_observations(
        &record.body.endpoints,
        observations,
        record.body.device_public_key.fingerprint.as_str(),
        host_priority,
    );
    let candidates = order_direct_candidates(&endpoints, cached_addr);
    assert(candidate_views(candidates@).len() == candidates@.len());
    let had_direct_candidates = candidates.len() > 0;
    ConnectPlan {
        candidates,
        basis: ConnectBasis {
            registry_decision: decision,
            peer_record_source: source,
            used_cached_path: cached_addr.is_some(),
            had_direct_candidates,
        },
    }
}

/// A public mesh dials nobody whom the registry does not bind: not where the
/// lookup failed, not where there is no registry, not where it has no record.
pub proof fn law_public_mesh_dials_only_the_bound(
    record: PeerRecord,
    lookup: Option<Result<Option<RegistryNodeRecord>>>,
    now_unix: u64,
)
    ensures
        dial_verdict(record, lookup, MeshTrustPolicy::PublicRequired, now_unix) is Ok
            ==> (lookup matches Some(Ok(Some(r))) && binding_verdict(
            record,
            Some(r),
            MeshTrustPolicy::PublicRequired,
            now_unix,
        ) == Ok::<RegistryDecision, QlinkErrorView>(RegistryDecision::Accepted)),
{
}

/// A failed lookup is as good as none under the other policies.
pub proof fn law_other_meshes_excuse_a_failed_lookup(
    record: PeerRecord,
    failure: QlinkError,
    policy: MeshTrustPolicy,
    now_unix: u64,
)
    requires
        policy != MeshTrustPolicy::PublicRequired,
    ensures
        dial_verdict(record, Some(Err(failure)), policy, now_unix) == dial_verdict(
            record,
            None,
            policy,
            now_unix,
        ),
{
}

/// The value that breaks ties between two checking sides.
pub open spec fn tiebreaker_of(entropy: Option<Seq<u8>>) -> nat {
    match entropy {
        Some(bytes) => be_value(bytes),
        None => 0xdead_beef_d00d_feed,
    }
}

/// The tiebreaker that eight random bytes stand for, or a constant without them.
pub fn tiebreaker(entropy: Option<&[u8]>) -> (n: u64)
    requires
        entropy matches Some(bytes) ==> bytes@.len() == 8,
    ensures
        n == match entropy {
            Some(bytes) => tiebreaker_of(Some(bytes@)),
            None => tiebreaker_of(None),
        },
{
    match entropy {
        Some(bytes) => {
            proof {
                lemma_byte_ranges();
                assert(bytes@.subrange(0, 8) =~= bytes@);
            }
            read_be(bytes, 0, 8) as u64
        },
        None => 0xdead_beef_d00d_feed,
    }
}

/// A random tiebreaker. Which one is left to the system's generator.
pub fn rand_u64() -> (n: u64)
    ensures
        n == tiebreaker_of(None) || exists|bytes: Seq<u8>|
            bytes.len() == 8 && n == #[trigger] be_value(bytes),
{
    match random_bytes(8) {
        Ok(bytes) => tiebreaker(Some(bytes.as_slice())),
        Err(_) => tiebreaker(None),
    }
}

} // verus!
