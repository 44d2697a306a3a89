//! What holds of every change of a stable identity: what it leaves as it was, what
//! it sets, and when it counts as done.

use crate::discovery::DevicePublicKey;
use crate::dytallix_identity::{JsonField, RegistryIdentityLookupRecord};
use crate::dytallix_identity_v2::{
    RegistryIdentityRecordV2, RegistryIdentityStatusV2, record_refusal,
};
use crate::dytallix_provisioning_v2::{
    ChangeBasis, DytallixStableIdentityProvisionerV2, KeystoreMetadata, StableIdentityPolicyV2,
    StableIdentityProvisioningConfigV2, StableIdentityProvisioningOperationV2, TransactionPoll,
    judge_endpoint, record_mutation_json, registration_basis, require_pinned_chain,
    require_unregistered, same_identity, stable_refusal_text, status_after_update, status_change,
    status_mutation_json, update_basis, validate_keystore_file,
};
use crate::error::{QlinkErrorView, Result};
use crate::identity_laws::law_digest_is_a_record_hash;
use crate::outside::{optional_text, sha256};
use crate::provisioning_run::{
    IdentityChange, Provisioning, ProvisioningAction, ProvisioningEvent, gave_up, is_to_authorize,
    is_written,
};
use crate::registry_laws::{is_digest_text, mesh_digest};
use crate::text::{decimal, hex_text, trimmed};
use crate::time::Duration;
use vstd::prelude::*;
use vstd::string::*;
use vstd::utf8::*;

verus! {

// ---------------------------------------------------------------------------
// What a change makes of an identity
// ---------------------------------------------------------------------------

/// An update leaves the standing of an identity as it was and reactivation makes
/// it active; both keep the owner and count the revision up by one. Neither is
/// there for a revoked identity, nor reactivation for one that is not suspended.
pub proof fn law_update_keeps_standing_and_owner(
    operation: StableIdentityProvisioningOperationV2,
    current: &Option<RegistryIdentityRecordV2>,
    r: Result<ChangeBasis>,
)
    requires
        call_ensures(update_basis, (operation, current), r),
    ensures
        r is Ok <==> current is Some && !(current->0.status is Revoked)
            && current->0.identity_revision < u64::MAX && (operation is Reactivate
            ==> current->0.status is Suspended),
        r matches Ok(basis) ==> {
            &&& basis.owner_daddr@ == current->0.owner_daddr@
            &&& basis.revision == current->0.identity_revision + 1
            &&& operation is Update ==> basis.status == current->0.status
            &&& operation is Reactivate ==> basis.status is Active
        },
        current is None ==> r->Err_0@ == QlinkErrorView::Protocol(
            "stable identity v2 is not registered"@,
        ),
        current is Some && current->0.status is Revoked ==> r->Err_0@ == QlinkErrorView::Protocol(
            "stable identity v2 revocation is terminal"@,
        ),
{
}

/// The standing after an update is the one before it, and after reactivation it is
/// active, whatever it was.
pub proof fn law_standing_after_an_update(current: RegistryIdentityStatusV2)
    ensures
        status_after_update(StableIdentityProvisioningOperationV2::Update, current) == current,
        status_after_update(StableIdentityProvisioningOperationV2::Reactivate, current)
            == RegistryIdentityStatusV2::Active,
{
}

/// A registration starts active, at the first revision, under its owner.
pub proof fn law_registration_starts_active(owner_daddr: String, basis: ChangeBasis)
    requires
        call_ensures(registration_basis, (owner_daddr,), basis),
    ensures
        basis.owner_daddr == owner_daddr,
        basis.status is Active,
        basis.revision == 1,
{
}

/// Suspending and revoking set the standing, count the revision up by one, and
/// leave everything else as it was.
pub proof fn law_status_change_sets_the_standing_alone(
    current: Option<RegistryIdentityRecordV2>,
    status: RegistryIdentityStatusV2,
    r: Result<RegistryIdentityRecordV2>,
)
    requires
        call_ensures(status_change, (current, status), r),
    ensures
        r is Ok <==> current is Some && !(current->0.status is Revoked)
            && current->0.identity_revision < u64::MAX,
        r matches Ok(next) ==> {
            let was = current->0;
            &&& next.status == status
            &&& next.identity_revision == was.identity_revision + 1
            &&& next.schema_version == was.schema_version
            &&& next.peer_id == was.peer_id
            &&& next.owner_daddr == was.owner_daddr
            &&& next.device_public_key_hash_hex == was.device_public_key_hash_hex
            &&& next.node_signing_public_key_hash_hex == was.node_signing_public_key_hash_hex
            &&& next.authorization_expires_at == was.authorization_expires_at
            &&& next.max_peer_record_ttl_seconds == was.max_peer_record_ttl_seconds
            &&& next.mesh_scope_hash_hex == was.mesh_scope_hash_hex
            &&& next.metadata_commitment_hex == was.metadata_commitment_hex
        },
{
}

/// A written record is made of its basis, the device's key and the policy.
pub open spec fn is_made_of(
    r: RegistryIdentityRecordV2,
    owner: Seq<char>,
    status: RegistryIdentityStatusV2,
    revision: int,
    key: DevicePublicKey,
    policy: StableIdentityPolicyV2,
) -> bool {
    &&& r.schema_version == 2
    &&& r.owner_daddr@ == owner
    &&& r.status == status
    &&& r.identity_revision == revision
    &&& r.peer_id@ == key.peer_id@
    &&& r.device_public_key_hash_hex@ == hex_text(sha256(key.json@)@)
    &&& r.node_signing_public_key_hash_hex@ == hex_text(sha256(key.json@)@)
    &&& r.authorization_expires_at == policy.authorization_expires_at
    &&& r.max_peer_record_ttl_seconds == policy.max_peer_record_ttl_seconds
    &&& (policy.mesh_scope is None ==> r.mesh_scope_hash_hex is None)
    &&& (policy.mesh_scope matches Some(scope) ==> (r.mesh_scope_hash_hex matches Some(hash)
        && hash@ == mesh_digest(scope@)))
    &&& r.metadata_commitment_hex == policy.metadata_commitment_hex
}

/// A policy and a key that a record can be made of.
pub open spec fn can_be_written(
    key: DevicePublicKey,
    policy: StableIdentityPolicyV2,
    owner_error: Option<String>,
) -> bool {
    &&& trimmed(key.peer_id@).len() > 0
    &&& owner_error is None
    &&& policy.authorization_expires_at != Some(0u64)
    &&& 30 <= policy.max_peer_record_ttl_seconds <= 86400
    &&& (policy.metadata_commitment_hex is None || is_digest_text(
        policy.metadata_commitment_hex->0@,
    ))
}

proof fn lemma_written(
    made: RegistryIdentityRecordV2,
    owner: Seq<char>,
    status: RegistryIdentityStatusV2,
    revision: u64,
    key: DevicePublicKey,
    policy: StableIdentityPolicyV2,
    owner_error: Option<String>,
)
    requires
        is_written(made, (owner, status, revision), key, policy),
        revision > 0,
    ensures
        is_made_of(made, owner, status, revision as int, key, policy),
        record_refusal(made, optional_text(owner_error)) is None <==> can_be_written(
            key,
            policy,
            owner_error,
        ),
{
    law_digest_is_a_record_hash(key.json@);
    if let Some(scope) = policy.mesh_scope {
        law_digest_is_a_record_hash(
            encode_utf8("QuantumLink Dytallix stable identity mesh scope v2"@).push(0u8)
                + encode_utf8(scope@),
        );
    }
}

// ---------------------------------------------------------------------------
// The steps of a change
// ---------------------------------------------------------------------------

/// A change goes on from what the registry holds: a registration where it holds
/// nothing, any other change where it holds an identity that is not revoked, has a
/// revision left and, for reactivation, is suspended.
pub proof fn law_change_starts_from_what_is_registered(
    p: &DytallixStableIdentityProvisionerV2,
    change: IdentityChange,
    found: Result<Option<RegistryIdentityLookupRecord>>,
    waited: Duration,
    r: (Provisioning, ProvisioningAction),
)
    requires
        call_ensures(
            DytallixStableIdentityProvisionerV2::provision,
            (p, Provisioning::Reading { change }, ProvisioningEvent::Read { found, waited }),
            r,
        ),
    ensures
        ({
            let goes_on = match found {
                Ok(None) => change is Register,
                Ok(Some(RegistryIdentityLookupRecord::StableIdentityV2(c))) => !(
                change is Register) && !(c.status is Revoked) && c.identity_revision < u64::MAX && (
                change is Reactivate ==> c.status is Suspended),
                _ => false,
            };
            &&& goes_on ==> r.1 is OpenWallet && r.0 == (Provisioning::OpeningWallet {
                change,
                current: match found {
                    Ok(Some(RegistryIdentityLookupRecord::StableIdentityV2(c))) => Some(c),
                    _ => None,
                },
            })
            &&& !goes_on ==> r.0 is Finished && (r.1 matches ProvisioningAction::Finish(Err(_)))
            &&& found matches Err(why) ==> (r.1 matches ProvisioningAction::Finish(Err(e)) && e@
                == why@)
        }),
{
}

/// An update that can be written is to write the same standing and owner at the
/// next revision, with the key and the policy that were asked for. One that cannot
/// ends.
pub proof fn law_update_writes_the_same_standing(
    p: &DytallixStableIdentityProvisionerV2,
    key: DevicePublicKey,
    policy: StableIdentityPolicyV2,
    current: RegistryIdentityRecordV2,
    owner: Result<String, String>,
    owner_error: Option<String>,
    r: (Provisioning, ProvisioningAction),
)
    requires
        call_ensures(
            DytallixStableIdentityProvisionerV2::provision,
            (
                p,
                Provisioning::OpeningWallet {
                    change: IdentityChange::Update { device_public_key: key, policy },
                    current: Some(current),
                },
                ProvisioningEvent::Wallet { owner, owner_error },
            ),
            r,
        ),
        !(current.status is Revoked),
        current.identity_revision < u64::MAX,
    ensures
        can_be_written(key, policy, owner_error) ==> r.1 is Authorize && (r.0 matches
            Provisioning::Authorizing { operation, peer_id, expected } && operation is Update
            && peer_id@ == key.peer_id@ && is_made_of(
            expected,
            current.owner_daddr@,
            current.status,
            current.identity_revision + 1,
            key,
            policy,
        )),
        !can_be_written(key, policy, owner_error) ==> r.0 is Finished && (r.1 matches
            ProvisioningAction::Finish(Err(_))),
{
    let revision = (current.identity_revision + 1) as u64;
    let basis = (current.owner_daddr@, current.status, revision);
    let made = choose|made: RegistryIdentityRecordV2| #[trigger]
        is_written(made, basis, key, policy) && match record_refusal(
            made,
            optional_text(owner_error),
        ) {
            Some(why) => gave_up(r.0, r.1, stable_refusal_text(why)),
            None => is_to_authorize(
                r.0,
                r.1,
                IdentityChange::Update { device_public_key: key, policy },
                made,
            ),
        };
    lemma_written(made, basis.0, basis.1, revision, key, policy, owner_error);
}

/// A reactivation that can be written is to write an active standing, under the
/// same owner, at the next revision.
pub proof fn law_reactivation_writes_an_active_standing(
    p: &DytallixStableIdentityProvisionerV2,
    key: DevicePublicKey,
    policy: StableIdentityPolicyV2,
    current: RegistryIdentityRecordV2,
    owner: Result<String, String>,
    owner_error: Option<String>,
    r: (Provisioning, ProvisioningAction),
)
    requires
        call_ensures(
            DytallixStableIdentityProvisionerV2::provision,
            (
                p,
                Provisioning::OpeningWallet {
                    change: IdentityChange::Reactivate { device_public_key: key, policy },
                    current: Some(current),
                },
                ProvisioningEvent::Wallet { owner, owner_error },
            ),
            r,
        ),
        current.status is Suspended,
        current.identity_revision < u64::MAX,
    ensures
        can_be_written(key, policy, owner_error) ==> r.1 is Authorize && (r.0 matches
            Provisioning::Authorizing { operation, peer_id, expected } && operation is Reactivate
            && peer_id@ == key.peer_id@ && is_made_of(
            expected,
            current.owner_daddr@,
            RegistryIdentityStatusV2::Active,
            current.identity_revision + 1,
            key,
            policy,
        )),
        !can_be_written(key, policy, owner_error) ==> r.0 is Finished && (r.1 matches
            ProvisioningAction::Finish(Err(_))),
{
    let revision = (current.identity_revision + 1) as u64;
    let basis = (current.owner_daddr@, RegistryIdentityStatusV2::Active, revision);
    let made = choose|made: RegistryIdentityRecordV2| #[trigger]
        is_written(made, basis, key, policy) && match record_refusal(
            made,
            optional_text(owner_error),
        ) {
            Some(why) => gave_up(r.0, r.1, stable_refusal_text(why)),
            None => is_to_authorize(
                r.0,
                r.1,
                IdentityChange::Reactivate { device_public_key: key, policy },
                made,
            ),
        };
    lemma_written(made, basis.0, basis.1, revision, key, policy, owner_error);
}

/// A registration that can be written is to write an active standing at the first
/// revision, under the address that the wallet's key stands for.
pub proof fn law_registration_writes_the_first_revision(
    p: &DytallixStableIdentityProvisionerV2,
    key: DevicePublicKey,
    policy: StableIdentityPolicyV2,
    owner: Result<String, String>,
    owner_error: Option<String>,
    r: (Provisioning, ProvisioningAction),
)
    requires
        call_ensures(
            DytallixStableIdentityProvisionerV2::provision,
            (
                p,
                Provisioning::OpeningWallet {
                    change: IdentityChange::Register { device_public_key: key, policy },
                    current: None,
                },
                ProvisioningEvent::Wallet { owner, owner_error },
            ),
            r,
        ),
    ensures
        owner is Ok && can_be_written(key, policy, owner_error) ==> r.1 is Authorize && (
        r.0 matches Provisioning::Authorizing { operation, peer_id, expected }
            && operation is Register && peer_id@ == key.peer_id@ && is_made_of(
            expected,
            owner->Ok_0@,
            RegistryIdentityStatusV2::Active,
            1,
            key,
            policy,
        )),
        owner is Err || !can_be_written(key, policy, owner_error) ==> r.0 is Finished && (
        r.1 matches ProvisioningAction::Finish(Err(_))),
{
    if let Ok(named) = owner {
        let basis = (named@, RegistryIdentityStatusV2::Active, 1u64);
        let made = choose|made: RegistryIdentityRecordV2| #[trigger]
            is_written(made, basis, key, policy) && match record_refusal(
                made,
                optional_text(owner_error),
            ) {
                Some(why) => gave_up(r.0, r.1, stable_refusal_text(why)),
                None => is_to_authorize(
                    r.0,
                    r.1,
                    IdentityChange::Register { device_public_key: key, policy },
                    made,
                ),
            };
        lemma_written(made, basis.0, basis.1, 1, key, policy, owner_error);
    }
}

/// Suspension and revocation are to write what is registered, with that standing
/// and the next revision and nothing else changed.
pub proof fn law_suspension_and_revocation_change_the_standing_alone(
    p: &DytallixStableIdentityProvisionerV2,
    change: IdentityChange,
    current: RegistryIdentityRecordV2,
    owner: Result<String, String>,
    owner_error: Option<String>,
    r: (Provisioning, ProvisioningAction),
)
    requires
        call_ensures(
            DytallixStableIdentityProvisionerV2::provision,
            (
                p,
                Provisioning::OpeningWallet { change, current: Some(current) },
                ProvisioningEvent::Wallet { owner, owner_error },
            ),
            r,
        ),
        change is Suspend || change is Revoke,
        !(current.status is Revoked),
        current.identity_revision < u64::MAX,
    ensures
        r.1 is Authorize,
        r.0 matches Provisioning::Authorizing { operation, peer_id, expected } && {
            &&& change matches IdentityChange::Suspend { peer_id: named } ==> operation is Suspend
                && expected.status is Suspended && peer_id@ == named@
            &&& change matches IdentityChange::Revoke { peer_id: named } ==> operation is Revoke
                && expected.status is Revoked && peer_id@ == named@
            &&& expected.identity_revision == current.identity_revision + 1
            &&& expected.schema_version == current.schema_version
            &&& expected.peer_id == current.peer_id
            &&& expected.owner_daddr == current.owner_daddr
            &&& expected.device_public_key_hash_hex == current.device_public_key_hash_hex
            &&& expected.node_signing_public_key_hash_hex
                == current.node_signing_public_key_hash_hex
            &&& expected.authorization_expires_at == current.authorization_expires_at
            &&& expected.max_peer_record_ttl_seconds == current.max_peer_record_ttl_seconds
            &&& expected.mesh_scope_hash_hex == current.mesh_scope_hash_hex
            &&& expected.metadata_commitment_hex == current.metadata_commitment_hex
        },
{
}

/// An authorized change asks the chain who it is, and is still the same change.
pub proof fn law_authorized_change_is_pinned(
    p: &DytallixStableIdentityProvisionerV2,
    operation: StableIdentityProvisioningOperationV2,
    peer_id: String,
    expected: RegistryIdentityRecordV2,
    event: ProvisioningEvent,
    r: (Provisioning, ProvisioningAction),
)
    requires
        call_ensures(
            DytallixStableIdentityProvisionerV2::provision,
            (p, Provisioning::Authorizing { operation, peer_id, expected }, event),
            r,
        ),
    ensures
        ({
            let written = operation is Register || operation is Update || operation is Reactivate;
            &&& written && event is RecordAuthorized ==> r.1 is AskCheckpoint && (r.0 matches
                Provisioning::Pinning { operation: o, expected: x, request_json } && o == operation
                && x == expected && request_json@ == record_mutation_json(
                expected,
                event->RecordAuthorized_wallet,
                event->device,
            ))
            &&& !written && event is StatusAuthorized ==> r.1 is AskCheckpoint && (r.0 matches
                Provisioning::Pinning { operation: o, expected: x, request_json } && o == operation
                && x == expected && request_json@ == status_mutation_json(
                peer_id@,
                expected.identity_revision,
                event->StatusAuthorized_wallet,
            ))
            &&& written && event is StatusAuthorized ==> r.0 == (Provisioning::Authorizing {
                operation,
                peer_id,
                expected,
            }) && r.1 is Wait
            &&& !written && event is RecordAuthorized ==> r.0 == (Provisioning::Authorizing {
                operation,
                peer_id,
                expected,
            }) && r.1 is Wait
            &&& event matches ProvisioningEvent::NotAuthorized(why) ==> r.0 is Finished && (
            r.1 matches ProvisioningAction::Finish(Err(e)) && e@ == why@)
        }),
{
}

/// A change is submitted only to the chain that is pinned, where one is, and to
/// the configured contract, under the method of its kind.
pub proof fn law_change_is_submitted_to_the_pinned_chain(
    p: &DytallixStableIdentityProvisionerV2,
    operation: StableIdentityProvisioningOperationV2,
    expected: RegistryIdentityRecordV2,
    request_json: String,
    observed: Result<String, String>,
    r: (Provisioning, ProvisioningAction),
)
    requires
        call_ensures(
            DytallixStableIdentityProvisionerV2::provision,
            (
                p,
                Provisioning::Pinning { operation, expected, request_json },
                ProvisioningEvent::Checkpoint(observed),
            ),
            r,
        ),
    ensures
        ({
            let fits = observed is Ok && (p.config.chain_id is None || p.config.chain_id->0@
                == observed->Ok_0@);
            &&& !fits ==> r.0 is Finished && (r.1 matches ProvisioningAction::Finish(Err(_)))
            &&& fits ==> (r.0 matches Provisioning::Submitting {
                operation: o,
                expected: x,
                request_json: j,
                checkpoint,
            } && o == operation && x == expected && j == request_json && checkpoint@
                == observed->Ok_0@)
            &&& fits ==> (r.1 matches ProvisioningAction::Submit { call } && {
                &&& call.chain_id@ == observed->Ok_0@
                &&& call.contract_address@ == p.config.contract_address@
                &&& call.args_hex@ == hex_text(encode_utf8(request_json@))
                &&& call.gas_limit == 1_000_000
                &&& operation is Register ==> call.method@ == "register_identity"@
                &&& operation is Update || operation is Reactivate ==> call.method@
                    == "update_identity"@
                &&& operation is Suspend ==> call.method@ == "suspend_identity"@
                &&& operation is Revoke ==> call.method@ == "revoke_identity"@
            })
        }),
{
}

/// A submission without a transaction's hash ends the change; with one the chain
/// is asked for that transaction.
pub proof fn law_submission_is_followed_by_its_hash(
    p: &DytallixStableIdentityProvisionerV2,
    operation: StableIdentityProvisioningOperationV2,
    expected: RegistryIdentityRecordV2,
    request_json: String,
    checkpoint: String,
    tx_hash: JsonField,
    hash: JsonField,
    r: (Provisioning, ProvisioningAction),
)
    requires
        call_ensures(
            DytallixStableIdentityProvisionerV2::provision,
            (
                p,
                Provisioning::Submitting { operation, expected, request_json, checkpoint },
                ProvisioningEvent::Submitted { tx_hash, hash },
            ),
            r,
        ),
    ensures
        ({
            let named: Option<Seq<char>> = if tx_hash is Text {
                Some(tx_hash->Text_0@)
            } else if tx_hash is Absent && hash is Text {
                Some(hash->Text_0@)
            } else {
                None
            };
            &&& named is Some && trimmed(named->0).len() > 0 ==> r.1 is Poll && (r.0 matches
                Provisioning::Confirming { operation: o, expected: x, tx_hash: h } && o == operation
                && x == expected && h@ == named->0)
            &&& named is None || trimmed(named->0).len() == 0 ==> r.0 is Finished && (r.1 matches
                ProvisioningAction::Finish(Err(_)))
        }),
{
}

/// A confirmed transaction is read back and a failed one ends the change. An
/// undecided one is asked for again until the time is up.
pub proof fn law_confirmation_decides(
    p: &DytallixStableIdentityProvisionerV2,
    operation: StableIdentityProvisioningOperationV2,
    expected: RegistryIdentityRecordV2,
    tx_hash: String,
    poll: TransactionPoll,
    waited: Duration,
    r: (Provisioning, ProvisioningAction),
)
    requires
        call_ensures(
            DytallixStableIdentityProvisionerV2::provision,
            (
                p,
                Provisioning::Confirming { operation, expected, tx_hash },
                ProvisioningEvent::Polled { poll, waited },
            ),
            r,
        ),
    ensures
        poll matches TransactionPoll::Confirmed { block } ==> r.1 is ReadBack && r.0 == (
        Provisioning::ReadingBack { operation, expected, tx_hash, block }),
        poll matches TransactionPoll::Failed { reason } ==> r.0 is Finished && (r.1 matches
            ProvisioningAction::Finish(Err(e)) && e@ == QlinkErrorView::Protocol(
            "Dytallix transaction "@ + tx_hash@ + " failed: "@ + reason@,
        )),
        (poll is Pending || poll is Unavailable) && waited.nanos
            < p.config.confirmation_timeout.nanos ==> r.1 is PauseAndPoll && r.0 == (
        Provisioning::Confirming { operation, expected, tx_hash }),
        (poll is Pending || poll is Unavailable) && waited.nanos
            >= p.config.confirmation_timeout.nanos ==> r.0 is Finished && (r.1 matches
            ProvisioningAction::Finish(Err(_))),
{
}

/// The two identities agree in every field.
pub open spec fn agree(a: RegistryIdentityRecordV2, b: RegistryIdentityRecordV2) -> bool {
    &&& a.schema_version == b.schema_version
    &&& a.peer_id@ == b.peer_id@
    &&& a.owner_daddr@ == b.owner_daddr@
    &&& a.device_public_key_hash_hex@ == b.device_public_key_hash_hex@
    &&& a.node_signing_public_key_hash_hex@ == b.node_signing_public_key_hash_hex@
    &&& a.status == b.status
    &&& a.identity_revision == b.identity_revision
    &&& a.authorization_expires_at == b.authorization_expires_at
    &&& a.max_peer_record_ttl_seconds == b.max_peer_record_ttl_seconds
    &&& (a.mesh_scope_hash_hex is Some <==> b.mesh_scope_hash_hex is Some)
    &&& (a.mesh_scope_hash_hex is Some ==> a.mesh_scope_hash_hex->0@ == b.mesh_scope_hash_hex->0@)
    &&& (a.metadata_commitment_hex is Some <==> b.metadata_commitment_hex is Some)
    &&& (a.metadata_commitment_hex is Some ==> a.metadata_commitment_hex->0@
        == b.metadata_commitment_hex->0@)
}

/// A change is closed only once the registry shows what was to be written, field
/// by field. A later revision ends it as overtaken; anything else is read again
/// until the time is up.
pub proof fn law_readback_compares_every_field(
    p: &DytallixStableIdentityProvisionerV2,
    operation: StableIdentityProvisioningOperationV2,
    expected: RegistryIdentityRecordV2,
    tx_hash: String,
    block: u64,
    found: Option<RegistryIdentityRecordV2>,
    waited: Duration,
    r: (Provisioning, ProvisioningAction),
)
    requires
        call_ensures(
            DytallixStableIdentityProvisionerV2::provision,
            (
                p,
                Provisioning::ReadingBack { operation, expected, tx_hash, block },
                ProvisioningEvent::Read {
                    found: Ok(
                        match found {
                            Some(shown) => Some(
                                RegistryIdentityLookupRecord::StableIdentityV2(shown),
                            ),
                            None => None,
                        },
                    ),
                    waited,
                },
            ),
            r,
        ),
    ensures
        ({
            let shown = found is Some && agree(found->0, expected);
            let overtaken = found is Some && !agree(found->0, expected)
                && found->0.identity_revision > expected.identity_revision;
            &&& shown ==> r.1 is AskCheckpoint && r.0 == (Provisioning::Closing {
                operation,
                tx_hash,
                block,
                identity: found->0,
            })
            &&& overtaken ==> r.0 is Finished && (r.1 matches ProvisioningAction::Finish(Err(e))
                && e@ == QlinkErrorView::Protocol(
                "Dytallix readback advanced past expected identity revision "@ + decimal(
                    expected.identity_revision as nat,
                ),
            ))
            &&& !shown && !overtaken && waited.nanos < p.config.confirmation_timeout.nanos
                ==> r.1 is PauseAndReadBack && r.0 == (Provisioning::ReadingBack {
                operation,
                expected,
                tx_hash,
                block,
            })
            &&& !shown && !overtaken && waited.nanos >= p.config.confirmation_timeout.nanos
                ==> r.0 is Finished && (r.1 matches ProvisioningAction::Finish(Err(_)))
        }),
{
    if found is Some {
        let a = found->0;
        assert(agree(a, expected) <==> same_identity(a, expected));
    }
}

/// The receipt of a change tells what was done: the operation, the transaction and
/// its block, the checkpoint, and the identity that the registry shows.
pub proof fn law_receipt_tells_what_was_done(
    p: &DytallixStableIdentityProvisionerV2,
    operation: StableIdentityProvisioningOperationV2,
    tx_hash: String,
    block: u64,
    identity: RegistryIdentityRecordV2,
    observed: Result<String, String>,
    r: (Provisioning, ProvisioningAction),
)
    requires
        call_ensures(
            DytallixStableIdentityProvisionerV2::provision,
            (
                p,
                Provisioning::Closing { operation, tx_hash, block, identity },
                ProvisioningEvent::Checkpoint(observed),
            ),
            r,
        ),
    ensures
        r.0 is Finished,
        observed is Err ==> (r.1 matches ProvisioningAction::Finish(Err(_))),
        observed is Ok ==> (r.1 matches ProvisioningAction::Finish(Ok(receipt)) && {
            &&& receipt.operation == operation
            &&& receipt.tx_hash == tx_hash
            &&& receipt.confirmed_block == block
            &&& receipt.chain_checkpoint_observed == observed->Ok_0
            &&& receipt.identity == identity
            &&& receipt.readback_verified
            &&& receipt.endpoint@ == p.config.endpoint@
            &&& receipt.contract_address@ == p.config.contract_address@
        }),
{
}

/// An event that a change does not wait for changes nothing, and a finished change
/// stays finished.
pub proof fn law_untimely_provisioning_event_changes_nothing(
    p: &DytallixStableIdentityProvisionerV2,
    run: Provisioning,
    event: ProvisioningEvent,
    r: (Provisioning, ProvisioningAction),
)
    requires
        call_ensures(DytallixStableIdentityProvisionerV2::provision, (p, run, event), r),
        !(run is Reading && event is Read),
        !(run is OpeningWallet && (event is Wallet || event is NoWallet)),
        !(run is Authorizing && (event is RecordAuthorized || event is StatusAuthorized
            || event is NotAuthorized)),
        !(run is Pinning && (event is Checkpoint || event is NotSubmitted)),
        !(run is Submitting && (event is Submitted || event is NotSubmitted)),
        !(run is Confirming && event is Polled),
        !(run is ReadingBack && event is Read),
        !(run is Closing && event is Checkpoint),
    ensures
        r.0 == run,
        r.1 is Wait,
{
}

// ---------------------------------------------------------------------------
// Settings and keystores
// ---------------------------------------------------------------------------

/// Only encrypted endpoints are written through, and plain ones on this host.
pub proof fn law_plain_endpoints_only_on_this_host(
    scheme: &str,
    host: Option<&str>,
    r: Result<()>,
)
    requires
        call_ensures(judge_endpoint, (scheme, host), r),
    ensures
        r is Ok <==> scheme@ == "https"@ || (scheme@ == "http"@ && host is Some && (host->0@
            == "localhost"@ || host->0@ == "127.0.0.1"@ || host->0@ == "::1"@)),
{
    reveal_strlit("https");
    reveal_strlit("http");
}

/// A keystore is opened only where it can be inspected, is a regular file, and is
/// open to its owner alone.
pub proof fn law_keystore_is_private(
    path: &str,
    inspected: &Result<KeystoreMetadata, String>,
    r: Result<()>,
)
    requires
        call_ensures(validate_keystore_file, (path, inspected), r),
    ensures
        r is Ok <==> inspected is Ok && inspected->Ok_0.is_regular_file && (
        inspected->Ok_0.mode is None || inspected->Ok_0.mode->0 as int % 64 == 0),
{
}

/// A chain is the right one where none is pinned or where it is the pinned one.
pub proof fn law_pinned_chain_is_required(pinned: Option<&str>, observed: &str, r: Result<()>)
    requires
        call_ensures(require_pinned_chain, (pinned, observed), r),
    ensures
        r is Ok <==> pinned is None || pinned->0@ == observed@,
{
}

/// Waiting times are taken exactly where the interval is positive and no longer
/// than the whole wait.
pub proof fn law_waiting_times_make_sense(
    config: StableIdentityProvisioningConfigV2,
    timeout: Duration,
    poll_interval: Duration,
    r: Result<StableIdentityProvisioningConfigV2>,
)
    requires
        call_ensures(
            StableIdentityProvisioningConfigV2::with_confirmation_timing,
            (config, timeout, poll_interval),
            r,
        ),
    ensures
        r is Ok <==> 0 < poll_interval.nanos && poll_interval.nanos <= timeout.nanos,
        r matches Ok(c) ==> c.confirmation_timeout == timeout && c.poll_interval == poll_interval
            && c.endpoint == config.endpoint && c.contract_address == config.contract_address
            && c.network_id == config.network_id && c.chain_id == config.chain_id
            && c.allowed_rpc_endpoints == config.allowed_rpc_endpoints && c.keystore_path
            == config.keystore_path && c.wallet_name == config.wallet_name,
{
}

/// A registration is refused where an identity is there already, and no other is.
pub proof fn law_registration_needs_a_free_place(
    existing: &Option<RegistryIdentityRecordV2>,
    r: Result<()>,
)
    requires
        call_ensures(require_unregistered, (existing,), r),
    ensures
        r is Ok <==> existing is None,
{
}

} // verus!
