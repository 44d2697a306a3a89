//! What holds of the library's settings and of the small decisions at its edges.

use crate::connector::MeshConnector;
use crate::discovery::{DevicePublicKey, PeerRecord};
use crate::dytallix_identity::{
    DytallixEnrollmentWallet, DytallixIdentityRegistry, DytallixRegistryConfig, EnrollmentPlan,
    JsonField, MeshTrustPolicy, RegistryIdentityLookupRecord, contract_result_bytes,
    enrolled_wallet, normal_address, require_match,
};
use crate::dytallix_identity_v2::{
    RegistryIdentityRecordV2, StableIdentityV2Result, decode_hex, require_sha256_hex,
    signed_peer_record_issued_at_unix,
};
use crate::dytallix_provisioning_v2::{
    ConfirmationStep, DytallixStableIdentityProvisionerV2, ReadbackStep, StableIdentityPolicyV2,
    StableIdentityProvisioningConfigV2, TransactionPoll, confirmation_step, readback_outcome,
    readback_step, require_keystore, require_tx_hash, same_identity, select_provisioning_wallet,
    validate_provisioning_endpoint, wallet_owner,
};
use crate::error::{QlinkError, QlinkErrorView, Result};
use crate::ffi::QlinkDevQuicTransportHandle;
use crate::ice::IceCredentials;
use crate::local_loopback::{
    MeshLoopbackResult, RelayLoopbackResult, run_local_mesh_loopback, run_relay_loopback,
};
use crate::mdns_discovery::MdnsPeerObservation;
use crate::mesh_connection::{CachedPath, MeshConnectorConfig, StampedView};
use crate::outside::parsed_url;
use crate::provisioning_laws::agree;
use crate::provisioning_run::{IdentityChange, Provisioning};
use crate::registry_laws::is_digest_text;
use crate::text::{hex_text, is_hex_digit, is_hex_text, law_hex_round_trip, trimmed};
use crate::time::{Duration, Instant};
use vstd::prelude::*;
use vstd::string::*;
use vstd::utf8::*;

verus! {

// ---------------------------------------------------------------------------
// Connectors
// ---------------------------------------------------------------------------

/// A new connector's settings name its mesh and itself, take three seconds in all
/// and three quarters of one for a probe, and ask for nothing else.
pub proof fn law_new_connector_settings<A, K, R>(
    mesh_id: &str,
    local_peer_id: &str,
    c: MeshConnectorConfig<A, K, R>,
)
    requires
        call_ensures(MeshConnectorConfig::<A, K, R>::new, (mesh_id, local_peer_id), c),
    ensures
        c.mesh_id@ == mesh_id@,
        c.local_peer_id@ == local_peer_id@,
        c.direct_probe_timeout.nanos == 750_000_000,
        c.overall_deadline.nanos == 3_000_000_000,
        c.probe_pacing.nanos == 50_000_000,
        c.mesh_trust_policy is DevelopmentOptional,
        c.local_ice_credentials is None,
        c.ice_check_timeout is None,
        c.relay_server is None,
        c.peer_acl is None,
        c.local_device_keypair is None,
        c.identity_registry_lookup is None,
{
}

/// Each time that is set is the one that was meant, and the others stay.
pub proof fn law_connector_times_are_set_apart<A, K, R>(
    c: MeshConnectorConfig<A, K, R>,
    time: Duration,
    probe: MeshConnectorConfig<A, K, R>,
    whole: MeshConnectorConfig<A, K, R>,
    pacing: MeshConnectorConfig<A, K, R>,
    check: MeshConnectorConfig<A, K, R>,
)
    requires
        call_ensures(MeshConnectorConfig::<A, K, R>::with_direct_probe_timeout, (c, time), probe),
        call_ensures(MeshConnectorConfig::<A, K, R>::with_overall_deadline, (c, time), whole),
        call_ensures(MeshConnectorConfig::<A, K, R>::with_probe_pacing, (c, time), pacing),
        call_ensures(MeshConnectorConfig::<A, K, R>::with_ice_check_timeout, (c, time), check),
    ensures
        probe.direct_probe_timeout == time && probe.overall_deadline == c.overall_deadline
            && probe.probe_pacing == c.probe_pacing && probe.mesh_trust_policy
            == c.mesh_trust_policy,
        whole.overall_deadline == time && whole.direct_probe_timeout == c.direct_probe_timeout
            && whole.probe_pacing == c.probe_pacing,
        pacing.probe_pacing == time && pacing.direct_probe_timeout == c.direct_probe_timeout
            && pacing.overall_deadline == c.overall_deadline,
        check.ice_check_timeout == Some(time) && check.direct_probe_timeout
            == c.direct_probe_timeout && check.overall_deadline == c.overall_deadline,
{
}

/// Each means that is set is the one that was given, and the policy changes only
/// where it is set.
pub proof fn law_connector_means_are_set_apart<A, K, R>(
    c: MeshConnectorConfig<A, K, R>,
    acl: A,
    keypair: K,
    lookup: R,
    server: String,
    credentials: IceCredentials,
    policy: MeshTrustPolicy,
    listed: MeshConnectorConfig<A, K, R>,
    keyed: MeshConnectorConfig<A, K, R>,
    bound: MeshConnectorConfig<A, K, R>,
    relayed: MeshConnectorConfig<A, K, R>,
    checked: MeshConnectorConfig<A, K, R>,
    trusted: MeshConnectorConfig<A, K, R>,
)
    requires
        call_ensures(MeshConnectorConfig::<A, K, R>::with_peer_acl, (c, acl), listed),
        call_ensures(MeshConnectorConfig::<A, K, R>::with_local_device_keypair, (c, keypair), keyed),
        call_ensures(
            MeshConnectorConfig::<A, K, R>::with_identity_registry_lookup,
            (c, lookup),
            bound,
        ),
        call_ensures(MeshConnectorConfig::<A, K, R>::with_relay_server, (c, server), relayed),
        call_ensures(
            MeshConnectorConfig::<A, K, R>::with_local_ice_credentials,
            (c, credentials),
            checked,
        ),
        call_ensures(MeshConnectorConfig::<A, K, R>::with_mesh_trust_policy, (c, policy), trusted),
    ensures
        listed.peer_acl == Some(acl) && listed.mesh_trust_policy == c.mesh_trust_policy,
        keyed.local_device_keypair == Some(keypair) && keyed.mesh_trust_policy
            == c.mesh_trust_policy,
        bound.identity_registry_lookup == Some(lookup) && bound.mesh_trust_policy
            == c.mesh_trust_policy,
        relayed.relay_server == Some(server) && relayed.mesh_trust_policy == c.mesh_trust_policy,
        checked.local_ice_credentials == Some(credentials) && checked.mesh_trust_policy
            == c.mesh_trust_policy,
        trusted.mesh_trust_policy == policy && trusted.peer_acl == c.peer_acl
            && trusted.local_device_keypair == c.local_device_keypair
            && trusted.identity_registry_lookup == c.identity_registry_lookup
            && trusted.relay_server == c.relay_server && trusted.overall_deadline
            == c.overall_deadline,
{
}

/// A new connector remembers no path and has seen nobody; sightings count for five
/// minutes.
pub proof fn law_new_connector_knows_nobody<A, K, R>(
    config: MeshConnectorConfig<A, K, R>,
    c: MeshConnector<A, K, R>,
)
    requires
        call_ensures(MeshConnector::<A, K, R>::new, (config,), c),
    ensures
        c.config == config,
        c.cache@ == Map::<Seq<char>, CachedPath>::empty(),
        c.mdns_cache@ == Map::<Seq<char>, Seq<StampedView>>::empty(),
        c.mdns_cache.window().nanos == 300_000_000_000,
{
}

/// A connector's sighting becomes the latest of its peer, and its paths stay.
pub proof fn law_connector_records_sightings<A, K, R>(
    connector: &mut MeshConnector<A, K, R>,
    observation: MdnsPeerObservation,
    now: Instant,
)
    requires
        call_ensures(
            MeshConnector::<A, K, R>::record_mdns_observation,
            (connector, observation, now),
            (),
        ),
    ensures
        ({
            let peer_id = observation@.announcement.peer_id;
            let after = final(connector).mdns_cache@;
            &&& after.dom() == old(connector).mdns_cache@.dom().insert(peer_id)
            &&& after[peer_id].len() > 0
            &&& after[peer_id].last() == (StampedView {
                observation: observation@,
                recorded_at: now,
            })
            &&& forall|other: Seq<char>|
                other != peer_id && old(connector).mdns_cache@.dom().contains(other)
                    ==> after[other] == #[trigger] old(connector).mdns_cache@[other]
            &&& final(connector).cache == old(connector).cache
            &&& final(connector).config == old(connector).config
        }),
{
}

// ---------------------------------------------------------------------------
// Provisioning
// ---------------------------------------------------------------------------

/// Settings for provisioning are made where the endpoint is safe and the contract
/// an address; they wait for a minute and ask every two seconds.
pub proof fn law_provisioning_settings(
    endpoint: &str,
    contract: &str,
    keystore_path: &str,
    wallet_name: Option<String>,
    r: Result<StableIdentityProvisioningConfigV2>,
    safe: Result<()>,
)
    requires
        call_ensures(
            StableIdentityProvisioningConfigV2::new,
            (endpoint, contract, keystore_path, wallet_name),
            r,
        ),
        call_ensures(validate_provisioning_endpoint, (endpoint,), safe),
    ensures
        r is Ok <==> safe is Ok && normal_address(contract@) is Ok,
        r matches Ok(c) ==> {
            &&& c.endpoint@ == endpoint@
            &&& Ok::<Seq<char>, QlinkErrorView>(c.contract_address@) == normal_address(contract@)
            &&& c.keystore_path is Some && c.keystore_path->0@ == keystore_path@
            &&& c.wallet_name == wallet_name
            &&& c.confirmation_timeout.nanos == 60_000_000_000
            &&& c.poll_interval.nanos == 2_000_000_000
            &&& c.chain_id is None && c.network_id is None
        },
{
}

/// An endpoint is safe where it is a URL, and encrypted or on this host.
pub proof fn law_safe_endpoints(endpoint: &str, r: Result<()>)
    requires
        call_ensures(validate_provisioning_endpoint, (endpoint,), r),
    ensures
        r is Ok <==> match parsed_url(endpoint@) {
            Err(_) => false,
            Ok((_, scheme, host)) => scheme == "https"@ || (scheme == "http"@ && (host == Some(
                "localhost"@,
            ) || host == Some("127.0.0.1"@) || host == Some("::1"@))),
        },
{
}

/// A provisioner looks stable identities up, at its own endpoint, and writes
/// nothing by its lookups.
pub proof fn law_provisioner_looks_stable_identities_up(
    config: StableIdentityProvisioningConfigV2,
    r: Result<DytallixStableIdentityProvisionerV2>,
)
    requires
        call_ensures(DytallixStableIdentityProvisionerV2::new, (config,), r),
    ensures
        r matches Ok(p) ==> p.config == config && p.lookup.write_config is None
            && p.lookup.lookup_config.endpoint@ == config.endpoint@
            && p.lookup.lookup_config.binding_version is StableIdentityV2,
{
}

/// Every change starts by reading the identity, as the change that was asked for.
pub proof fn law_changes_start_by_reading(
    p: &DytallixStableIdentityProvisionerV2,
    key: DevicePublicKey,
    policy: StableIdentityPolicyV2,
    peer_id: &str,
    registered: Provisioning,
    updated: Provisioning,
    reactivated: Provisioning,
    suspended: Provisioning,
    revoked: Provisioning,
)
    requires
        call_ensures(DytallixStableIdentityProvisionerV2::register, (p, key, policy), registered),
        call_ensures(DytallixStableIdentityProvisionerV2::update, (p, key, policy), updated),
        call_ensures(
            DytallixStableIdentityProvisionerV2::reactivate,
            (p, key, policy),
            reactivated,
        ),
        call_ensures(DytallixStableIdentityProvisionerV2::suspend, (p, peer_id), suspended),
        call_ensures(DytallixStableIdentityProvisionerV2::revoke, (p, peer_id), revoked),
    ensures
        registered == (Provisioning::Reading {
            change: IdentityChange::Register { device_public_key: key, policy },
        }),
        updated == (Provisioning::Reading {
            change: IdentityChange::Update { device_public_key: key, policy },
        }),
        reactivated == (Provisioning::Reading {
            change: IdentityChange::Reactivate { device_public_key: key, policy },
        }),
        suspended matches Provisioning::Reading { change: IdentityChange::Suspend { peer_id: s } }
            && s@ == peer_id@,
        revoked matches Provisioning::Reading { change: IdentityChange::Revoke { peer_id: s } }
            && s@ == peer_id@,
{
}

/// A confirmed transaction is done at its block, a failed one fails, and any other
/// is asked for again until the time is up.
pub proof fn law_confirmations_are_waited_for(
    tx_hash: &str,
    poll: TransactionPoll,
    waited: Duration,
    timeout: Duration,
    step: ConfirmationStep,
)
    requires
        call_ensures(confirmation_step, (tx_hash, poll, waited, timeout), step),
    ensures
        poll matches TransactionPoll::Confirmed { block } ==> step == (ConfirmationStep::Done {
            block,
        }),
        poll is Failed ==> step is Fail,
        (poll is Pending || poll is Unavailable) && waited.nanos < timeout.nanos
            ==> step is AskAgain,
        (poll is Pending || poll is Unavailable) && waited.nanos >= timeout.nanos
            ==> step is Fail,
{
}

/// What is read back is done where it agrees in every field.
pub proof fn law_readbacks_are_waited_for(
    expected: &RegistryIdentityRecordV2,
    found: Option<RegistryIdentityRecordV2>,
    waited: Duration,
    timeout: Duration,
    step: ReadbackStep,
)
    requires
        call_ensures(readback_step, (expected, found, waited, timeout), step),
    ensures
        step is Done <==> found is Some && agree(found->0, *expected),
        step matches ReadbackStep::Done { identity } ==> Some(identity) == found,
        !(step is Done) && found is Some && found->0.identity_revision
            > expected.identity_revision ==> step is Fail,
        !(step is Done) && (found is None || found->0.identity_revision
            <= expected.identity_revision) ==> (if waited.nanos >= timeout.nanos {
            step is Fail
        } else {
            step is ReadAgain
        }),
{
    if found is Some {
        assert(agree(found->0, *expected) <==> same_identity(found->0, *expected));
    }
}

/// A read identity is a stable one or none; one of the older kind is refused.
pub proof fn law_readback_takes_stable_identities(
    record: Option<RegistryIdentityLookupRecord>,
    r: Result<Option<RegistryIdentityRecordV2>>,
)
    requires
        call_ensures(readback_outcome, (record,), r),
    ensures
        record is None ==> r == Ok::<Option<RegistryIdentityRecordV2>, QlinkError>(None),
        record matches Some(RegistryIdentityLookupRecord::StableIdentityV2(identity)) ==> r == Ok::<
            Option<RegistryIdentityRecordV2>,
            QlinkError,
        >(Some(identity)),
        record matches Some(RegistryIdentityLookupRecord::ExactPeerRecordV1(_)) ==> r is Err,
{
}

/// A transaction's hash is required, and may not be blank.
pub proof fn law_transaction_needs_a_hash(tx_hash: JsonField, hash: JsonField, r: Result<String>)
    requires
        call_ensures(require_tx_hash, (tx_hash, hash), r),
    ensures
        tx_hash matches JsonField::Text(text) ==> (r is Ok <==> trimmed(text@).len() > 0),
        tx_hash matches JsonField::Text(text) ==> (r is Ok ==> r->Ok_0@ == text@),
        tx_hash is Other ==> r is Err,
        tx_hash is Absent ==> (hash matches JsonField::Text(text) ==> (r is Ok <==> trimmed(
            text@,
        ).len() > 0)),
        tx_hash is Absent && !(hash is Text) ==> r is Err,
{
}

/// A wallet for provisioning needs a keystore, and is the configured one before
/// the active one.
pub proof fn law_provisioning_wallet(
    keystore_path: &Option<String>,
    path: Result<&str>,
    configured: Option<&str>,
    active: Option<&str>,
    name: Result<String>,
    derived: Result<String, String>,
    owner: Result<String>,
)
    requires
        call_ensures(require_keystore, (keystore_path,), path),
        call_ensures(select_provisioning_wallet, (configured, active), name),
        call_ensures(wallet_owner, (derived,), owner),
    ensures
        path is Ok <==> keystore_path is Some,
        path matches Ok(p) ==> p@ == keystore_path->0@,
        name is Ok <==> configured is Some || active is Some,
        configured matches Some(n) ==> name->Ok_0@ == n@,
        configured is None ==> (active matches Some(n) ==> name->Ok_0@ == n@),
        owner is Ok <==> derived is Ok,
        derived matches Ok(o) ==> owner == Ok::<String, QlinkError>(o),
{
}

// ---------------------------------------------------------------------------
// Registry
// ---------------------------------------------------------------------------

/// A wallet that was enrolled is told as it was planned, with its address.
pub proof fn law_enrolled_wallet_is_told(
    keystore_path: &str,
    plan: &EnrollmentPlan,
    address: Result<String, String>,
    r: Result<DytallixEnrollmentWallet>,
)
    requires
        call_ensures(enrolled_wallet, (keystore_path, plan, address), r),
    ensures
        r is Ok <==> address is Ok,
        r matches Ok(w) ==> w.keystore_path@ == keystore_path@ && w.wallet_name@
            == plan.wallet_name@ && w.wallet_address@ == address->Ok_0@ && w.created_wallet
            == plan.create_wallet,
{
}

/// A contract's result is bytes where it is text in hexadecimal, refused where it
/// is other text, and nothing where it is no text.
pub proof fn law_contract_results_are_hexadecimal(
    result: &JsonField,
    response_kind: &str,
    r: Result<Option<Vec<u8>>>,
)
    requires
        call_ensures(contract_result_bytes, (result, response_kind), r),
    ensures
        !(result is Text) ==> (r matches Ok(None)),
        result matches JsonField::Text(text) ==> (r is Ok <==> text@.len() % 2 == 0 && forall|i: int|
            0 <= i < text@.len() ==> ('0' <= #[trigger] text@[i] <= '9' || 'a' <= text@[i] <= 'f'
                || 'A' <= text@[i] <= 'F')),
        result matches JsonField::Text(text) ==> (r is Ok ==> (r->Ok_0 matches Some(v) && v@.len()
            * 2 == text@.len())),
{
    if let JsonField::Text(text) = *result {
        if is_hex_text(text@) {
            assert forall|i: int| 0 <= i < text@.len() implies ('0' <= #[trigger] text@[i] <= '9'
                || 'a' <= text@[i] <= 'f' || 'A' <= text@[i] <= 'F') by {
                assert(is_hex_digit(text@[i]));
            }
        }
    }
}

/// Hexadecimal of bytes decodes to the bytes, and to nothing else.
pub proof fn law_hexadecimal_decodes_to_its_bytes(
    field: &str,
    value: &str,
    bytes: Seq<u8>,
    r: StableIdentityV2Result<Vec<u8>>,
)
    requires
        call_ensures(decode_hex, (field, value), r),
        value@ == hex_text(bytes),
    ensures
        r matches Ok(v) && v@ == bytes,
{
    law_hex_round_trip(bytes);
}

/// A field is a digest exactly where it is sixty-four digits of lowercase
/// hexadecimal.
pub proof fn law_digests_are_required(field: &str, value: &str, r: StableIdentityV2Result<()>)
    requires
        call_ensures(require_sha256_hex, (field, value), r),
    ensures
        r is Ok <==> is_digest_text(value@),
{
}

/// A date that is missing from a record is none.
pub proof fn law_records_are_dated(p: &PeerRecord, r: StableIdentityV2Result<u64>)
    requires
        call_ensures(signed_peer_record_issued_at_unix, (p,), r),
    ensures
        r is Ok <==> p.body.issued_at_unix != 0,
        r matches Ok(at) ==> at == p.body.issued_at_unix,
{
}

/// Without a wallet a registry refuses to write; with one it writes by its
/// settings.
pub proof fn law_writing_needs_a_wallet(
    registry: &DytallixIdentityRegistry,
    r: Result<&DytallixRegistryConfig>,
)
    requires
        call_ensures(DytallixIdentityRegistry::write_config, (registry,), r),
    ensures
        r is Ok <==> registry.write_config is Some,
        r matches Ok(c) ==> Some(*c) == registry.write_config,
{
}

/// Two texts match where they are the same; otherwise the refusal names the field.
pub proof fn law_fields_match_by_their_text(
    field: &str,
    actual: &str,
    expected: &str,
    r: Result<()>,
)
    requires
        call_ensures(require_match, (field, actual, expected), r),
    ensures
        r is Ok <==> actual@ == expected@,
        r matches Err(e) ==> e@ == QlinkErrorView::Protocol(field@ + " mismatch"@),
{
}

/// The disabled loopbacks fail.
pub proof fn law_loopbacks_are_disabled(
    mesh: Result<MeshLoopbackResult>,
    relay: Result<RelayLoopbackResult>,
)
    requires
        call_ensures(run_local_mesh_loopback, (), mesh),
        call_ensures(run_relay_loopback, (), relay),
    ensures
        mesh is Err,
        relay is Err,
{
}

/// The development transport sends and receives nothing, and counts every try.
pub proof fn law_development_transport_counts_failures(
    sender: &mut QlinkDevQuicTransportHandle,
    code: i32,
    receiver: &mut QlinkDevQuicTransportHandle,
    received: bool,
)
    requires
        call_ensures(QlinkDevQuicTransportHandle::send_frame, (sender,), code),
        call_ensures(QlinkDevQuicTransportHandle::receive_frame, (receiver,), received),
        old(sender).metrics.send_failures < u64::MAX,
        old(receiver).metrics.receive_failures < u64::MAX,
    ensures
        code == -1,
        !received,
        final(sender).metrics.send_failures == old(sender).metrics.send_failures + 1,
        final(sender).metrics.frames_sent == old(sender).metrics.frames_sent,
        final(receiver).metrics.receive_failures == old(receiver).metrics.receive_failures + 1,
        final(receiver).metrics.frames_received == old(receiver).metrics.frames_received,
{
}

} // verus!
