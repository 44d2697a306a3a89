//! What every document for the registry says, letter by letter: the payloads that
//! are hashed and signed, and the requests that are sent.

use crate::discovery::PeerRecord;
use crate::dytallix_identity::{
    DytallixIdentityRegistry, DytallixRegistryBindingVersion, EncodedContractCall,
    RegisterNodeRequest, RegistryContractMethod, RegistryNodeRecord, RegistryNodeStatus,
    RevokeNodeRequest, binding_payload, encode_contract_call_args, get_request_json, joined_url,
    json_raw_field, json_text_field, node_record_json, register_request_json, revoke_request_json,
    submission_body, wallet_record_payload, wallet_revoke_payload,
};
use crate::dytallix_identity_v2::{
    DeviceAuthorizationV2, RegistryIdentityOperationV2, RegistryIdentityRecordV2,
    RegistryIdentityStatusV2, WalletAuthorizationV2, device_payload, identity_json, wallet_payload,
};
use crate::dytallix_provisioning_v2::{endpoint_path, record_mutation_json, status_mutation_json};
use crate::error::Result;
use crate::outside::sha256;
use crate::text::{decimal, has_prefix, hex_text, json_quoted};
use vstd::prelude::*;
use vstd::string::*;
use vstd::utf8::*;

verus! {

/// A field of text follows what comes before it.
proof fn lemma_text_follows(
    before: Seq<char>,
    open: Seq<char>,
    name: Seq<char>,
    value: Seq<char>,
)
    requires
        ",\""@ + name + "\":"@ == open,
    ensures
        before + json_text_field(name, value) == before + open + json_quoted(value),
{
    assert(before + (open + json_quoted(value)) =~= before + open + json_quoted(value));
}

/// A field of any other value follows what comes before it.
proof fn lemma_raw_follows(before: Seq<char>, open: Seq<char>, name: Seq<char>, value: Seq<char>)
    requires
        ",\""@ + name + "\":"@ == open,
    ensures
        before + json_raw_field(name, value) == before + open + value,
{
    assert(before + (open + value) =~= before + open + value);
}

proof fn lemma_name_actor_public_key_hex()
    ensures
        ",\""@ + "actor_public_key_hex"@ + "\":"@ == ",\"actor_public_key_hex\":"@,
{
    reveal_strlit(",\"");
    reveal_strlit("\":");
    reveal_strlit("actor_public_key_hex");
    reveal_strlit(",\"actor_public_key_hex\":");
    assert(",\""@ + "actor_public_key_hex"@ + "\":"@ =~= ",\"actor_public_key_hex\":"@);
}

proof fn lemma_name_actor_signature_hex()
    ensures
        ",\""@ + "actor_signature_hex"@ + "\":"@ == ",\"actor_signature_hex\":"@,
{
    reveal_strlit(",\"");
    reveal_strlit("\":");
    reveal_strlit("actor_signature_hex");
    reveal_strlit(",\"actor_signature_hex\":");
    assert(",\""@ + "actor_signature_hex"@ + "\":"@ =~= ",\"actor_signature_hex\":"@);
}

proof fn lemma_name_args()
    ensures
        ",\""@ + "args"@ + "\":"@ == ",\"args\":"@,
{
    reveal_strlit(",\"");
    reveal_strlit("\":");
    reveal_strlit("args");
    reveal_strlit(",\"args\":");
    assert(",\""@ + "args"@ + "\":"@ =~= ",\"args\":"@);
}

proof fn lemma_name_authorization_expires_at()
    ensures
        ",\""@ + "authorization_expires_at"@ + "\":"@ == ",\"authorization_expires_at\":"@,
{
    reveal_strlit(",\"");
    reveal_strlit("\":");
    reveal_strlit("authorization_expires_at");
    reveal_strlit(",\"authorization_expires_at\":");
    assert(",\""@ + "authorization_expires_at"@ + "\":"@ =~= ",\"authorization_expires_at\":"@);
}

proof fn lemma_name_binding()
    ensures
        ",\""@ + "binding"@ + "\":"@ == ",\"binding\":"@,
{
    reveal_strlit(",\"");
    reveal_strlit("\":");
    reveal_strlit("binding");
    reveal_strlit(",\"binding\":");
    assert(",\""@ + "binding"@ + "\":"@ =~= ",\"binding\":"@);
}

proof fn lemma_name_block_time()
    ensures
        ",\""@ + "block_time"@ + "\":"@ == ",\"block_time\":"@,
{
    reveal_strlit(",\"");
    reveal_strlit("\":");
    reveal_strlit("block_time");
    reveal_strlit(",\"block_time\":");
    assert(",\""@ + "block_time"@ + "\":"@ =~= ",\"block_time\":"@);
}

proof fn lemma_name_device_binding_signature_hex()
    ensures
        ",\""@ + "device_binding_signature_hex"@ + "\":"@ == ",\"device_binding_signature_hex\":"@,
{
    reveal_strlit(",\"");
    reveal_strlit("\":");
    reveal_strlit("device_binding_signature_hex");
    reveal_strlit(",\"device_binding_signature_hex\":");
    assert(",\""@ + "device_binding_signature_hex"@
        + "\":"@ =~= ",\"device_binding_signature_hex\":"@);
}

proof fn lemma_name_device_public_key_algorithm()
    ensures
        ",\""@ + "device_public_key_algorithm"@ + "\":"@ == ",\"device_public_key_algorithm\":"@,
{
    reveal_strlit(",\"");
    reveal_strlit("\":");
    reveal_strlit("device_public_key_algorithm");
    reveal_strlit(",\"device_public_key_algorithm\":");
    assert(",\""@ + "device_public_key_algorithm"@
        + "\":"@ =~= ",\"device_public_key_algorithm\":"@);
}

proof fn lemma_name_device_public_key_hash_hex()
    ensures
        ",\""@ + "device_public_key_hash_hex"@ + "\":"@ == ",\"device_public_key_hash_hex\":"@,
{
    reveal_strlit(",\"");
    reveal_strlit("\":");
    reveal_strlit("device_public_key_hash_hex");
    reveal_strlit(",\"device_public_key_hash_hex\":");
    assert(",\""@ + "device_public_key_hash_hex"@ + "\":"@ =~= ",\"device_public_key_hash_hex\":"@);
}

proof fn lemma_name_device_public_key_hex()
    ensures
        ",\""@ + "device_public_key_hex"@ + "\":"@ == ",\"device_public_key_hex\":"@,
{
    reveal_strlit(",\"");
    reveal_strlit("\":");
    reveal_strlit("device_public_key_hex");
    reveal_strlit(",\"device_public_key_hex\":");
    assert(",\""@ + "device_public_key_hex"@ + "\":"@ =~= ",\"device_public_key_hex\":"@);
}

proof fn lemma_name_device_signature_hex()
    ensures
        ",\""@ + "device_signature_hex"@ + "\":"@ == ",\"device_signature_hex\":"@,
{
    reveal_strlit(",\"");
    reveal_strlit("\":");
    reveal_strlit("device_signature_hex");
    reveal_strlit(",\"device_signature_hex\":");
    assert(",\""@ + "device_signature_hex"@ + "\":"@ =~= ",\"device_signature_hex\":"@);
}

proof fn lemma_name_expires_at()
    ensures
        ",\""@ + "expires_at"@ + "\":"@ == ",\"expires_at\":"@,
{
    reveal_strlit(",\"");
    reveal_strlit("\":");
    reveal_strlit("expires_at");
    reveal_strlit(",\"expires_at\":");
    assert(",\""@ + "expires_at"@ + "\":"@ =~= ",\"expires_at\":"@);
}

proof fn lemma_name_identity_revision()
    ensures
        ",\""@ + "identity_revision"@ + "\":"@ == ",\"identity_revision\":"@,
{
    reveal_strlit(",\"");
    reveal_strlit("\":");
    reveal_strlit("identity_revision");
    reveal_strlit(",\"identity_revision\":");
    assert(",\""@ + "identity_revision"@ + "\":"@ =~= ",\"identity_revision\":"@);
}

proof fn lemma_name_latest_peer_record_hash_hex()
    ensures
        ",\""@ + "latest_peer_record_hash_hex"@ + "\":"@ == ",\"latest_peer_record_hash_hex\":"@,
{
    reveal_strlit(",\"");
    reveal_strlit("\":");
    reveal_strlit("latest_peer_record_hash_hex");
    reveal_strlit(",\"latest_peer_record_hash_hex\":");
    assert(",\""@ + "latest_peer_record_hash_hex"@
        + "\":"@ =~= ",\"latest_peer_record_hash_hex\":"@);
}

proof fn lemma_name_max_peer_record_ttl_seconds()
    ensures
        ",\""@ + "max_peer_record_ttl_seconds"@ + "\":"@ == ",\"max_peer_record_ttl_seconds\":"@,
{
    reveal_strlit(",\"");
    reveal_strlit("\":");
    reveal_strlit("max_peer_record_ttl_seconds");
    reveal_strlit(",\"max_peer_record_ttl_seconds\":");
    assert(",\""@ + "max_peer_record_ttl_seconds"@
        + "\":"@ =~= ",\"max_peer_record_ttl_seconds\":"@);
}

proof fn lemma_name_mesh_scope_hash_hex()
    ensures
        ",\""@ + "mesh_scope_hash_hex"@ + "\":"@ == ",\"mesh_scope_hash_hex\":"@,
{
    reveal_strlit(",\"");
    reveal_strlit("\":");
    reveal_strlit("mesh_scope_hash_hex");
    reveal_strlit(",\"mesh_scope_hash_hex\":");
    assert(",\""@ + "mesh_scope_hash_hex"@ + "\":"@ =~= ",\"mesh_scope_hash_hex\":"@);
}

proof fn lemma_name_metadata_commitment_hex()
    ensures
        ",\""@ + "metadata_commitment_hex"@ + "\":"@ == ",\"metadata_commitment_hex\":"@,
{
    reveal_strlit(",\"");
    reveal_strlit("\":");
    reveal_strlit("metadata_commitment_hex");
    reveal_strlit(",\"metadata_commitment_hex\":");
    assert(",\""@ + "metadata_commitment_hex"@ + "\":"@ =~= ",\"metadata_commitment_hex\":"@);
}

proof fn lemma_name_method()
    ensures
        ",\""@ + "method"@ + "\":"@ == ",\"method\":"@,
{
    reveal_strlit(",\"");
    reveal_strlit("\":");
    reveal_strlit("method");
    reveal_strlit(",\"method\":");
    assert(",\""@ + "method"@ + "\":"@ =~= ",\"method\":"@);
}

proof fn lemma_name_node_signing_public_key_hash_hex()
    ensures
        ",\""@ + "node_signing_public_key_hash_hex"@ + "\":"@
            == ",\"node_signing_public_key_hash_hex\":"@,
{
    reveal_strlit(",\"");
    reveal_strlit("\":");
    reveal_strlit("node_signing_public_key_hash_hex");
    reveal_strlit(",\"node_signing_public_key_hash_hex\":");
    assert(",\""@ + "node_signing_public_key_hash_hex"@
        + "\":"@ =~= ",\"node_signing_public_key_hash_hex\":"@);
}

proof fn lemma_name_operation()
    ensures
        ",\""@ + "operation"@ + "\":"@ == ",\"operation\":"@,
{
    reveal_strlit(",\"");
    reveal_strlit("\":");
    reveal_strlit("operation");
    reveal_strlit(",\"operation\":");
    assert(",\""@ + "operation"@ + "\":"@ =~= ",\"operation\":"@);
}

proof fn lemma_name_owner_daddr()
    ensures
        ",\""@ + "owner_daddr"@ + "\":"@ == ",\"owner_daddr\":"@,
{
    reveal_strlit(",\"");
    reveal_strlit("\":");
    reveal_strlit("owner_daddr");
    reveal_strlit(",\"owner_daddr\":");
    assert(",\""@ + "owner_daddr"@ + "\":"@ =~= ",\"owner_daddr\":"@);
}

proof fn lemma_name_peer_id()
    ensures
        ",\""@ + "peer_id"@ + "\":"@ == ",\"peer_id\":"@,
{
    reveal_strlit(",\"");
    reveal_strlit("\":");
    reveal_strlit("peer_id");
    reveal_strlit(",\"peer_id\":");
    assert(",\""@ + "peer_id"@ + "\":"@ =~= ",\"peer_id\":"@);
}

proof fn lemma_name_pqc_binding_hash_hex()
    ensures
        ",\""@ + "pqc_binding_hash_hex"@ + "\":"@ == ",\"pqc_binding_hash_hex\":"@,
{
    reveal_strlit(",\"");
    reveal_strlit("\":");
    reveal_strlit("pqc_binding_hash_hex");
    reveal_strlit(",\"pqc_binding_hash_hex\":");
    assert(",\""@ + "pqc_binding_hash_hex"@ + "\":"@ =~= ",\"pqc_binding_hash_hex\":"@);
}

proof fn lemma_name_purpose()
    ensures
        ",\""@ + "purpose"@ + "\":"@ == ",\"purpose\":"@,
{
    reveal_strlit(",\"");
    reveal_strlit("\":");
    reveal_strlit("purpose");
    reveal_strlit(",\"purpose\":");
    assert(",\""@ + "purpose"@ + "\":"@ =~= ",\"purpose\":"@);
}

proof fn lemma_name_record()
    ensures
        ",\""@ + "record"@ + "\":"@ == ",\"record\":"@,
{
    reveal_strlit(",\"");
    reveal_strlit("\":");
    reveal_strlit("record");
    reveal_strlit(",\"record\":");
    assert(",\""@ + "record"@ + "\":"@ =~= ",\"record\":"@);
}

proof fn lemma_name_reputation_score()
    ensures
        ",\""@ + "reputation_score"@ + "\":"@ == ",\"reputation_score\":"@,
{
    reveal_strlit(",\"");
    reveal_strlit("\":");
    reveal_strlit("reputation_score");
    reveal_strlit(",\"reputation_score\":");
    assert(",\""@ + "reputation_score"@ + "\":"@ =~= ",\"reputation_score\":"@);
}

proof fn lemma_name_signed_tx()
    ensures
        ",\""@ + "signed_tx"@ + "\":"@ == ",\"signed_tx\":"@,
{
    reveal_strlit(",\"");
    reveal_strlit("\":");
    reveal_strlit("signed_tx");
    reveal_strlit(",\"signed_tx\":");
    assert(",\""@ + "signed_tx"@ + "\":"@ =~= ",\"signed_tx\":"@);
}

proof fn lemma_name_stake_status()
    ensures
        ",\""@ + "stake_status"@ + "\":"@ == ",\"stake_status\":"@,
{
    reveal_strlit(",\"");
    reveal_strlit("\":");
    reveal_strlit("stake_status");
    reveal_strlit(",\"stake_status\":");
    assert(",\""@ + "stake_status"@ + "\":"@ =~= ",\"stake_status\":"@);
}

proof fn lemma_name_status()
    ensures
        ",\""@ + "status"@ + "\":"@ == ",\"status\":"@,
{
    reveal_strlit(",\"");
    reveal_strlit("\":");
    reveal_strlit("status");
    reveal_strlit(",\"status\":");
    assert(",\""@ + "status"@ + "\":"@ =~= ",\"status\":"@);
}

proof fn lemma_name_transport_public_key_hash_hex()
    ensures
        ",\""@ + "transport_public_key_hash_hex"@ + "\":"@
            == ",\"transport_public_key_hash_hex\":"@,
{
    reveal_strlit(",\"");
    reveal_strlit("\":");
    reveal_strlit("transport_public_key_hash_hex");
    reveal_strlit(",\"transport_public_key_hash_hex\":");
    assert(",\""@ + "transport_public_key_hash_hex"@
        + "\":"@ =~= ",\"transport_public_key_hash_hex\":"@);
}

proof fn lemma_name_updated_at()
    ensures
        ",\""@ + "updated_at"@ + "\":"@ == ",\"updated_at\":"@,
{
    reveal_strlit(",\"");
    reveal_strlit("\":");
    reveal_strlit("updated_at");
    reveal_strlit(",\"updated_at\":");
    assert(",\""@ + "updated_at"@ + "\":"@ =~= ",\"updated_at\":"@);
}

/// An optional text: quoted, or the word for nothing.
pub open spec fn optional_quoted(value: Option<String>) -> Seq<char> {
    match value {
        Some(text) => json_quoted(text@),
        None => "null"@,
    }
}

/// An optional number: in decimal, or the word for nothing.
pub open spec fn optional_decimal(value: Option<u64>) -> Seq<char> {
    match value {
        Some(n) => decimal(n as nat),
        None => "null"@,
    }
}

/// The word for a record's standing.
pub open spec fn node_status_word(status: RegistryNodeStatus) -> Seq<char> {
    if status is Active {
        "active"@
    } else if status is Revoked {
        "revoked"@
    } else {
        "suspended"@
    }
}

/// The word for an identity's standing.
pub open spec fn identity_status_word(status: RegistryIdentityStatusV2) -> Seq<char> {
    if status is Active {
        "active"@
    } else if status is Revoked {
        "revoked"@
    } else {
        "suspended"@
    }
}

/// The word for a method of the registry.
pub open spec fn node_method_word(method: RegistryContractMethod) -> Seq<char> {
    if method is RegisterNode {
        "register_node"@
    } else if method is UpdateNode {
        "update_node"@
    } else if method is RevokeNode {
        "revoke_node"@
    } else {
        "get_node"@
    }
}

/// The word for an operation on a stable identity.
pub open spec fn identity_method_word(operation: RegistryIdentityOperationV2) -> Seq<char> {
    if operation is Register {
        "register_identity"@
    } else {
        "update_identity"@
    }
}

/// The payload that a device binds to its owner names both, the digests of the key
/// and of the certificate, and the hash of the peer record.
pub proof fn law_binding_payload_text(owner_daddr: Seq<char>, p: PeerRecord)
    ensures
        binding_payload(owner_daddr, p)
            == "{\"contract\":\"quantumlink-node-registry\",\"version\":1"@ + ",\"owner_daddr\":"@
            + json_quoted(owner_daddr) + ",\"peer_id\":"@ + json_quoted(p.body.peer_id@)
            + ",\"device_public_key_hash_hex\":"@
            + json_quoted(hex_text(sha256(p.body.device_public_key.json@)@))
            + ",\"node_signing_public_key_hash_hex\":"@
            + json_quoted(hex_text(sha256(p.body.device_public_key.json@)@))
            + ",\"transport_public_key_hash_hex\":"@
            + json_quoted(hex_text(sha256(p.body.device_certificate_der@)@))
            + ",\"latest_peer_record_hash_hex\":"@ + json_quoted(hex_text(p.record_hash@)) + "}"@,
{
    reveal_strlit(",\"");
    reveal_strlit("\":");
    lemma_name_owner_daddr();
    lemma_name_peer_id();
    lemma_name_device_public_key_hash_hex();
    lemma_name_node_signing_public_key_hash_hex();
    lemma_name_transport_public_key_hash_hex();
    lemma_name_latest_peer_record_hash_hex();
    let t0 = "{\"contract\":\"quantumlink-node-registry\",\"version\":1"@;
    lemma_text_follows(t0, ",\"owner_daddr\":"@, "owner_daddr"@, owner_daddr);
    let t1 = t0 + ",\"owner_daddr\":"@ + json_quoted(owner_daddr);
    lemma_text_follows(t1, ",\"peer_id\":"@, "peer_id"@, p.body.peer_id@);
    let t2 = t1 + ",\"peer_id\":"@ + json_quoted(p.body.peer_id@);
    lemma_text_follows(
        t2,
        ",\"device_public_key_hash_hex\":"@,
        "device_public_key_hash_hex"@,
        hex_text(sha256(p.body.device_public_key.json@)@),
    );
    let t3 = t2 + ",\"device_public_key_hash_hex\":"@
        + json_quoted(hex_text(sha256(p.body.device_public_key.json@)@));
    lemma_text_follows(
        t3,
        ",\"node_signing_public_key_hash_hex\":"@,
        "node_signing_public_key_hash_hex"@,
        hex_text(sha256(p.body.device_public_key.json@)@),
    );
    let t4 = t3 + ",\"node_signing_public_key_hash_hex\":"@
        + json_quoted(hex_text(sha256(p.body.device_public_key.json@)@));
    lemma_text_follows(
        t4,
        ",\"transport_public_key_hash_hex\":"@,
        "transport_public_key_hash_hex"@,
        hex_text(sha256(p.body.device_certificate_der@)@),
    );
    let t5 = t4 + ",\"transport_public_key_hash_hex\":"@
        + json_quoted(hex_text(sha256(p.body.device_certificate_der@)@));
    lemma_text_follows(
        t5,
        ",\"latest_peer_record_hash_hex\":"@,
        "latest_peer_record_hash_hex"@,
        hex_text(p.record_hash@),
    );
    let t6 = t5 + ",\"latest_peer_record_hash_hex\":"@ + json_quoted(hex_text(p.record_hash@));
}

/// A registry record holds all its fields under their names.
pub proof fn law_node_record_text(r: RegistryNodeRecord)
    ensures
        node_record_json(r)
            == "{\"peer_id\":"@ + json_quoted(r.peer_id@) + ",\"owner_daddr\":"@
            + json_quoted(r.owner_daddr@) + ",\"device_public_key_hash_hex\":"@
            + json_quoted(r.device_public_key_hash_hex@) + ",\"pqc_binding_hash_hex\":"@
            + json_quoted(r.pqc_binding_hash_hex@) + ",\"node_signing_public_key_hash_hex\":"@
            + json_quoted(r.node_signing_public_key_hash_hex@)
            + ",\"transport_public_key_hash_hex\":"@
            + json_quoted(r.transport_public_key_hash_hex@) + ",\"latest_peer_record_hash_hex\":"@
            + json_quoted(r.latest_peer_record_hash_hex@) + ",\"status\":"@
            + json_quoted(node_status_word(r.status)) + ",\"reputation_score\":"@
            + decimal(r.reputation_score as nat) + ",\"stake_status\":"@
            + optional_quoted(r.stake_status) + ",\"updated_at\":"@ + decimal(r.updated_at as nat)
            + ",\"expires_at\":"@ + optional_decimal(r.expires_at)
            + ",\"metadata_commitment_hex\":"@ + optional_quoted(r.metadata_commitment_hex) + "}"@,
{
    reveal_strlit(",\"");
    reveal_strlit("\":");
    lemma_name_owner_daddr();
    lemma_name_device_public_key_hash_hex();
    lemma_name_pqc_binding_hash_hex();
    lemma_name_node_signing_public_key_hash_hex();
    lemma_name_transport_public_key_hash_hex();
    lemma_name_latest_peer_record_hash_hex();
    lemma_name_status();
    lemma_name_reputation_score();
    lemma_name_stake_status();
    lemma_name_updated_at();
    lemma_name_expires_at();
    lemma_name_metadata_commitment_hex();
    let t0 = "{\"peer_id\":"@ + json_quoted(r.peer_id@);
    lemma_text_follows(t0, ",\"owner_daddr\":"@, "owner_daddr"@, r.owner_daddr@);
    let t1 = t0 + ",\"owner_daddr\":"@ + json_quoted(r.owner_daddr@);
    lemma_text_follows(
        t1,
        ",\"device_public_key_hash_hex\":"@,
        "device_public_key_hash_hex"@,
        r.device_public_key_hash_hex@,
    );
    let t2 = t1 + ",\"device_public_key_hash_hex\":"@ + json_quoted(r.device_public_key_hash_hex@);
    lemma_text_follows(
        t2,
        ",\"pqc_binding_hash_hex\":"@,
        "pqc_binding_hash_hex"@,
        r.pqc_binding_hash_hex@,
    );
    let t3 = t2 + ",\"pqc_binding_hash_hex\":"@ + json_quoted(r.pqc_binding_hash_hex@);
    lemma_text_follows(
        t3,
        ",\"node_signing_public_key_hash_hex\":"@,
        "node_signing_public_key_hash_hex"@,
        r.node_signing_public_key_hash_hex@,
    );
    let t4 = t3 + ",\"node_signing_public_key_hash_hex\":"@
        + json_quoted(r.node_signing_public_key_hash_hex@);
    lemma_text_follows(
        t4,
        ",\"transport_public_key_hash_hex\":"@,
        "transport_public_key_hash_hex"@,
        r.transport_public_key_hash_hex@,
    );
    let t5 = t4 + ",\"transport_public_key_hash_hex\":"@
        + json_quoted(r.transport_public_key_hash_hex@);
    lemma_text_follows(
        t5,
        ",\"latest_peer_record_hash_hex\":"@,
        "latest_peer_record_hash_hex"@,
        r.latest_peer_record_hash_hex@,
    );
    let t6 = t5 + ",\"latest_peer_record_hash_hex\":"@
        + json_quoted(r.latest_peer_record_hash_hex@);
    lemma_text_follows(t6, ",\"status\":"@, "status"@, node_status_word(r.status));
    let t7 = t6 + ",\"status\":"@ + json_quoted(node_status_word(r.status));
    lemma_raw_follows(
        t7,
        ",\"reputation_score\":"@,
        "reputation_score"@,
        decimal(r.reputation_score as nat),
    );
    let t8 = t7 + ",\"reputation_score\":"@ + decimal(r.reputation_score as nat);
    lemma_raw_follows(t8, ",\"stake_status\":"@, "stake_status"@, optional_quoted(r.stake_status));
    let t9 = t8 + ",\"stake_status\":"@ + optional_quoted(r.stake_status);
    lemma_raw_follows(t9, ",\"updated_at\":"@, "updated_at"@, decimal(r.updated_at as nat));
    let t10 = t9 + ",\"updated_at\":"@ + decimal(r.updated_at as nat);
    lemma_raw_follows(t10, ",\"expires_at\":"@, "expires_at"@, optional_decimal(r.expires_at));
    let t11 = t10 + ",\"expires_at\":"@ + optional_decimal(r.expires_at);
    lemma_raw_follows(
        t11,
        ",\"metadata_commitment_hex\":"@,
        "metadata_commitment_hex"@,
        optional_quoted(r.metadata_commitment_hex),
    );
    let t12 = t11 + ",\"metadata_commitment_hex\":"@ + optional_quoted(r.metadata_commitment_hex);
}

/// A stable identity holds all its fields under their names.
pub proof fn law_identity_text(r: RegistryIdentityRecordV2)
    ensures
        identity_json(r)
            == "{\"schema_version\":"@ + decimal(r.schema_version as nat) + ",\"peer_id\":"@
            + json_quoted(r.peer_id@) + ",\"owner_daddr\":"@ + json_quoted(r.owner_daddr@)
            + ",\"device_public_key_hash_hex\":"@ + json_quoted(r.device_public_key_hash_hex@)
            + ",\"node_signing_public_key_hash_hex\":"@
            + json_quoted(r.node_signing_public_key_hash_hex@) + ",\"status\":"@
            + json_quoted(identity_status_word(r.status)) + ",\"identity_revision\":"@
            + decimal(r.identity_revision as nat) + ",\"authorization_expires_at\":"@
            + optional_decimal(r.authorization_expires_at) + ",\"max_peer_record_ttl_seconds\":"@
            + decimal(r.max_peer_record_ttl_seconds as nat) + ",\"mesh_scope_hash_hex\":"@
            + optional_quoted(r.mesh_scope_hash_hex) + ",\"metadata_commitment_hex\":"@
            + optional_quoted(r.metadata_commitment_hex) + "}"@,
{
    reveal_strlit(",\"");
    reveal_strlit("\":");
    lemma_name_peer_id();
    lemma_name_owner_daddr();
    lemma_name_device_public_key_hash_hex();
    lemma_name_node_signing_public_key_hash_hex();
    lemma_name_status();
    lemma_name_identity_revision();
    lemma_name_authorization_expires_at();
    lemma_name_max_peer_record_ttl_seconds();
    lemma_name_mesh_scope_hash_hex();
    lemma_name_metadata_commitment_hex();
    let t0 = "{\"schema_version\":"@ + decimal(r.schema_version as nat);
    lemma_text_follows(t0, ",\"peer_id\":"@, "peer_id"@, r.peer_id@);
    let t1 = t0 + ",\"peer_id\":"@ + json_quoted(r.peer_id@);
    lemma_text_follows(t1, ",\"owner_daddr\":"@, "owner_daddr"@, r.owner_daddr@);
    let t2 = t1 + ",\"owner_daddr\":"@ + json_quoted(r.owner_daddr@);
    lemma_text_follows(
        t2,
        ",\"device_public_key_hash_hex\":"@,
        "device_public_key_hash_hex"@,
        r.device_public_key_hash_hex@,
    );
    let t3 = t2 + ",\"device_public_key_hash_hex\":"@ + json_quoted(r.device_public_key_hash_hex@);
    lemma_text_follows(
        t3,
        ",\"node_signing_public_key_hash_hex\":"@,
        "node_signing_public_key_hash_hex"@,
        r.node_signing_public_key_hash_hex@,
    );
    let t4 = t3 + ",\"node_signing_public_key_hash_hex\":"@
        + json_quoted(r.node_signing_public_key_hash_hex@);
    lemma_text_follows(t4, ",\"status\":"@, "status"@, identity_status_word(r.status));
    let t5 = t4 + ",\"status\":"@ + json_quoted(identity_status_word(r.status));
    lemma_raw_follows(
        t5,
        ",\"identity_revision\":"@,
        "identity_revision"@,
        decimal(r.identity_revision as nat),
    );
    let t6 = t5 + ",\"identity_revision\":"@ + decimal(r.identity_revision as nat);
    lemma_raw_follows(
        t6,
        ",\"authorization_expires_at\":"@,
        "authorization_expires_at"@,
        optional_decimal(r.authorization_expires_at),
    );
    let t7 = t6 + ",\"authorization_expires_at\":"@ + optional_decimal(r.authorization_expires_at);
    lemma_raw_follows(
        t7,
        ",\"max_peer_record_ttl_seconds\":"@,
        "max_peer_record_ttl_seconds"@,
        decimal(r.max_peer_record_ttl_seconds as nat),
    );
    let t8 = t7 + ",\"max_peer_record_ttl_seconds\":"@
        + decimal(r.max_peer_record_ttl_seconds as nat);
    lemma_raw_follows(
        t8,
        ",\"mesh_scope_hash_hex\":"@,
        "mesh_scope_hash_hex"@,
        optional_quoted(r.mesh_scope_hash_hex),
    );
    let t9 = t8 + ",\"mesh_scope_hash_hex\":"@ + optional_quoted(r.mesh_scope_hash_hex);
    lemma_raw_follows(
        t9,
        ",\"metadata_commitment_hex\":"@,
        "metadata_commitment_hex"@,
        optional_quoted(r.metadata_commitment_hex),
    );
    let t10 = t9 + ",\"metadata_commitment_hex\":"@ + optional_quoted(r.metadata_commitment_hex);
}

/// A wallet signs the method and the record.
pub proof fn law_wallet_record_text(method: RegistryContractMethod, r: RegistryNodeRecord)
    ensures
        wallet_record_payload(method, r)
            == "{\"contract\":\"quantumlink-node-registry\",\"version\":1"@ + ",\"operation\":"@
            + json_quoted(node_method_word(method)) + ",\"record\":"@ + node_record_json(r) + "}"@,
{
    reveal_strlit(",\"");
    reveal_strlit("\":");
    lemma_name_operation();
    lemma_name_record();
    let t0 = "{\"contract\":\"quantumlink-node-registry\",\"version\":1"@;
    lemma_text_follows(t0, ",\"operation\":"@, "operation"@, node_method_word(method));
    let t1 = t0 + ",\"operation\":"@ + json_quoted(node_method_word(method));
    lemma_raw_follows(t1, ",\"record\":"@, "record"@, node_record_json(r));
    let t2 = t1 + ",\"record\":"@ + node_record_json(r);
}

/// A wallet signs a revocation with the peer and the time of the block.
pub proof fn law_wallet_revocation_text(peer_id: Seq<char>, block_time: u64)
    ensures
        wallet_revoke_payload(peer_id, block_time)
            == "{\"contract\":\"quantumlink-node-registry\",\"version\":1"@ + ",\"operation\":"@
            + json_quoted("revoke_node"@) + ",\"peer_id\":"@ + json_quoted(peer_id)
            + ",\"block_time\":"@ + decimal(block_time as nat) + "}"@,
{
    reveal_strlit(",\"");
    reveal_strlit("\":");
    lemma_name_operation();
    lemma_name_peer_id();
    lemma_name_block_time();
    let t0 = "{\"contract\":\"quantumlink-node-registry\",\"version\":1"@;
    lemma_text_follows(t0, ",\"operation\":"@, "operation"@, "revoke_node"@);
    let t1 = t0 + ",\"operation\":"@ + json_quoted("revoke_node"@);
    lemma_text_follows(t1, ",\"peer_id\":"@, "peer_id"@, peer_id);
    let t2 = t1 + ",\"peer_id\":"@ + json_quoted(peer_id);
    lemma_raw_follows(t2, ",\"block_time\":"@, "block_time"@, decimal(block_time as nat));
    let t3 = t2 + ",\"block_time\":"@ + decimal(block_time as nat);
}

/// A wallet signs the operation on a stable identity and the identity.
pub proof fn law_wallet_identity_text(
    operation: RegistryIdentityOperationV2,
    r: RegistryIdentityRecordV2,
)
    ensures
        wallet_payload(operation, r)
            == "{\"contract\":\"quantumlink-node-registry-v2\",\"schema_version\":2"@
            + ",\"operation\":"@ + json_quoted(identity_method_word(operation)) + ",\"record\":"@
            + identity_json(r) + "}"@,
{
    reveal_strlit(",\"");
    reveal_strlit("\":");
    lemma_name_operation();
    lemma_name_record();
    let t0 = "{\"contract\":\"quantumlink-node-registry-v2\",\"schema_version\":2"@;
    lemma_text_follows(t0, ",\"operation\":"@, "operation"@, identity_method_word(operation));
    let t1 = t0 + ",\"operation\":"@ + json_quoted(identity_method_word(operation));
    lemma_raw_follows(t1, ",\"record\":"@, "record"@, identity_json(r));
    let t2 = t1 + ",\"record\":"@ + identity_json(r);
}

/// A device signs its purpose and the identity.
pub proof fn law_device_identity_text(r: RegistryIdentityRecordV2)
    ensures
        device_payload(r)
            == "{\"contract\":\"quantumlink-node-registry-v2\",\"schema_version\":2"@
            + ",\"purpose\":"@ + json_quoted("authorize-stable-identity-binding"@)
            + ",\"binding\":"@ + identity_json(r) + "}"@,
{
    reveal_strlit(",\"");
    reveal_strlit("\":");
    lemma_name_purpose();
    lemma_name_binding();
    let t0 = "{\"contract\":\"quantumlink-node-registry-v2\",\"schema_version\":2"@;
    lemma_text_follows(t0, ",\"purpose\":"@, "purpose"@, "authorize-stable-identity-binding"@);
    let t1 = t0 + ",\"purpose\":"@ + json_quoted("authorize-stable-identity-binding"@);
    lemma_raw_follows(t1, ",\"binding\":"@, "binding"@, identity_json(r));
    let t2 = t1 + ",\"binding\":"@ + identity_json(r);
}

/// A registration carries the record and what authorizes it.
pub proof fn law_register_request_text(r: RegisterNodeRequest)
    ensures
        register_request_json(r)
            == "{\"record\":"@ + node_record_json(r.record) + ",\"actor_public_key_hex\":"@
            + json_quoted(r.wallet_authorization.actor_public_key_hex@)
            + ",\"actor_signature_hex\":"@
            + json_quoted(r.wallet_authorization.actor_signature_hex@)
            + ",\"device_public_key_algorithm\":"@
            + json_quoted(r.device_binding_authorization.device_public_key_algorithm@)
            + ",\"device_public_key_hex\":"@
            + json_quoted(r.device_binding_authorization.device_public_key_hex@)
            + ",\"device_binding_signature_hex\":"@
            + json_quoted(r.device_binding_authorization.device_binding_signature_hex@) + "}"@,
{
    reveal_strlit(",\"");
    reveal_strlit("\":");
    lemma_name_actor_public_key_hex();
    lemma_name_actor_signature_hex();
    lemma_name_device_public_key_algorithm();
    lemma_name_device_public_key_hex();
    lemma_name_device_binding_signature_hex();
    let t0 = "{\"record\":"@ + node_record_json(r.record);
    lemma_text_follows(
        t0,
        ",\"actor_public_key_hex\":"@,
        "actor_public_key_hex"@,
        r.wallet_authorization.actor_public_key_hex@,
    );
    let t1 = t0 + ",\"actor_public_key_hex\":"@
        + json_quoted(r.wallet_authorization.actor_public_key_hex@);
    lemma_text_follows(
        t1,
        ",\"actor_signature_hex\":"@,
        "actor_signature_hex"@,
        r.wallet_authorization.actor_signature_hex@,
    );
    let t2 = t1 + ",\"actor_signature_hex\":"@
        + json_quoted(r.wallet_authorization.actor_signature_hex@);
    lemma_text_follows(
        t2,
        ",\"device_public_key_algorithm\":"@,
        "device_public_key_algorithm"@,
        r.device_binding_authorization.device_public_key_algorithm@,
    );
    let t3 = t2 + ",\"device_public_key_algorithm\":"@
        + json_quoted(r.device_binding_authorization.device_public_key_algorithm@);
    lemma_text_follows(
        t3,
        ",\"device_public_key_hex\":"@,
        "device_public_key_hex"@,
        r.device_binding_authorization.device_public_key_hex@,
    );
    let t4 = t3 + ",\"device_public_key_hex\":"@
        + json_quoted(r.device_binding_authorization.device_public_key_hex@);
    lemma_text_follows(
        t4,
        ",\"device_binding_signature_hex\":"@,
        "device_binding_signature_hex"@,
        r.device_binding_authorization.device_binding_signature_hex@,
    );
    let t5 = t4 + ",\"device_binding_signature_hex\":"@
        + json_quoted(r.device_binding_authorization.device_binding_signature_hex@);
}

/// A revocation carries the peer, the time and what authorizes it.
pub proof fn law_revoke_request_text(r: RevokeNodeRequest)
    ensures
        revoke_request_json(r)
            == "{\"peer_id\":"@ + json_quoted(r.peer_id@) + ",\"block_time\":"@
            + decimal(r.block_time as nat) + ",\"actor_public_key_hex\":"@
            + json_quoted(r.wallet_authorization.actor_public_key_hex@)
            + ",\"actor_signature_hex\":"@
            + json_quoted(r.wallet_authorization.actor_signature_hex@) + "}"@,
{
    reveal_strlit(",\"");
    reveal_strlit("\":");
    lemma_name_block_time();
    lemma_name_actor_public_key_hex();
    lemma_name_actor_signature_hex();
    let t0 = "{\"peer_id\":"@ + json_quoted(r.peer_id@);
    lemma_raw_follows(t0, ",\"block_time\":"@, "block_time"@, decimal(r.block_time as nat));
    let t1 = t0 + ",\"block_time\":"@ + decimal(r.block_time as nat);
    lemma_text_follows(
        t1,
        ",\"actor_public_key_hex\":"@,
        "actor_public_key_hex"@,
        r.wallet_authorization.actor_public_key_hex@,
    );
    let t2 = t1 + ",\"actor_public_key_hex\":"@
        + json_quoted(r.wallet_authorization.actor_public_key_hex@);
    lemma_text_follows(
        t2,
        ",\"actor_signature_hex\":"@,
        "actor_signature_hex"@,
        r.wallet_authorization.actor_signature_hex@,
    );
    let t3 = t2 + ",\"actor_signature_hex\":"@
        + json_quoted(r.wallet_authorization.actor_signature_hex@);
}

/// A written identity carries what authorizes it.
pub proof fn law_identity_mutation_text(
    r: RegistryIdentityRecordV2,
    wallet: WalletAuthorizationV2,
    device: DeviceAuthorizationV2,
)
    ensures
        record_mutation_json(r, wallet, device)
            == "{\"record\":"@ + identity_json(r) + ",\"actor_public_key_hex\":"@
            + json_quoted(wallet.actor_public_key_hex@) + ",\"actor_signature_hex\":"@
            + json_quoted(wallet.actor_signature_hex@) + ",\"device_public_key_algorithm\":"@
            + json_quoted(device.device_public_key_algorithm@) + ",\"device_public_key_hex\":"@
            + json_quoted(device.device_public_key_hex@) + ",\"device_signature_hex\":"@
            + json_quoted(device.device_signature_hex@) + "}"@,
{
    reveal_strlit(",\"");
    reveal_strlit("\":");
    lemma_name_actor_public_key_hex();
    lemma_name_actor_signature_hex();
    lemma_name_device_public_key_algorithm();
    lemma_name_device_public_key_hex();
    lemma_name_device_signature_hex();
    let t0 = "{\"record\":"@ + identity_json(r);
    lemma_text_follows(
        t0,
        ",\"actor_public_key_hex\":"@,
        "actor_public_key_hex"@,
        wallet.actor_public_key_hex@,
    );
    let t1 = t0 + ",\"actor_public_key_hex\":"@ + json_quoted(wallet.actor_public_key_hex@);
    lemma_text_follows(
        t1,
        ",\"actor_signature_hex\":"@,
        "actor_signature_hex"@,
        wallet.actor_signature_hex@,
    );
    let t2 = t1 + ",\"actor_signature_hex\":"@ + json_quoted(wallet.actor_signature_hex@);
    lemma_text_follows(
        t2,
        ",\"device_public_key_algorithm\":"@,
        "device_public_key_algorithm"@,
        device.device_public_key_algorithm@,
    );
    let t3 = t2 + ",\"device_public_key_algorithm\":"@
        + json_quoted(device.device_public_key_algorithm@);
    lemma_text_follows(
        t3,
        ",\"device_public_key_hex\":"@,
        "device_public_key_hex"@,
        device.device_public_key_hex@,
    );
    let t4 = t3 + ",\"device_public_key_hex\":"@ + json_quoted(device.device_public_key_hex@);
    lemma_text_follows(
        t4,
        ",\"device_signature_hex\":"@,
        "device_signature_hex"@,
        device.device_signature_hex@,
    );
    let t5 = t4 + ",\"device_signature_hex\":"@ + json_quoted(device.device_signature_hex@);
}

/// A change of the standing carries the peer, the revision and what authorizes it.
pub proof fn law_status_mutation_text(
    peer_id: Seq<char>,
    revision: u64,
    wallet: WalletAuthorizationV2,
)
    ensures
        status_mutation_json(peer_id, revision, wallet)
            == "{\"peer_id\":"@ + json_quoted(peer_id) + ",\"identity_revision\":"@
            + decimal(revision as nat) + ",\"actor_public_key_hex\":"@
            + json_quoted(wallet.actor_public_key_hex@) + ",\"actor_signature_hex\":"@
            + json_quoted(wallet.actor_signature_hex@) + "}"@,
{
    reveal_strlit(",\"");
    reveal_strlit("\":");
    lemma_name_identity_revision();
    lemma_name_actor_public_key_hex();
    lemma_name_actor_signature_hex();
    let t0 = "{\"peer_id\":"@ + json_quoted(peer_id);
    lemma_raw_follows(
        t0,
        ",\"identity_revision\":"@,
        "identity_revision"@,
        decimal(revision as nat),
    );
    let t1 = t0 + ",\"identity_revision\":"@ + decimal(revision as nat);
    lemma_text_follows(
        t1,
        ",\"actor_public_key_hex\":"@,
        "actor_public_key_hex"@,
        wallet.actor_public_key_hex@,
    );
    let t2 = t1 + ",\"actor_public_key_hex\":"@ + json_quoted(wallet.actor_public_key_hex@);
    lemma_text_follows(
        t2,
        ",\"actor_signature_hex\":"@,
        "actor_signature_hex"@,
        wallet.actor_signature_hex@,
    );
    let t3 = t2 + ",\"actor_signature_hex\":"@ + json_quoted(wallet.actor_signature_hex@);
}

/// A call of a contract carries its address, the arguments, the method and the
/// signed transaction.
pub proof fn law_submission_text(
    method: Seq<char>,
    address: Seq<char>,
    args: Seq<char>,
    signed_tx: Seq<char>,
)
    ensures
        submission_body(method, address, args, signed_tx)
            == "{\"address\":"@ + json_quoted(address) + ",\"args\":"@ + json_quoted(args)
            + ",\"method\":"@ + json_quoted(method) + ",\"signed_tx\":"@ + signed_tx + "}"@,
{
    reveal_strlit(",\"");
    reveal_strlit("\":");
    lemma_name_args();
    lemma_name_method();
    lemma_name_signed_tx();
    let t0 = "{\"address\":"@ + json_quoted(address);
    lemma_text_follows(t0, ",\"args\":"@, "args"@, args);
    let t1 = t0 + ",\"args\":"@ + json_quoted(args);
    lemma_text_follows(t1, ",\"method\":"@, "method"@, method);
    let t2 = t1 + ",\"method\":"@ + json_quoted(method);
    lemma_raw_follows(t2, ",\"signed_tx\":"@, "signed_tx"@, signed_tx);
    let t3 = t2 + ",\"signed_tx\":"@ + signed_tx;
}

/// A lookup names the peer and nothing else, and is asked for under the method of
/// its binding, with its arguments in hexadecimal.
pub proof fn law_lookups_name_the_peer(
    registry: &DytallixIdentityRegistry,
    version: DytallixRegistryBindingVersion,
    peer_id: &str,
    path: String,
)
    requires
        call_ensures(DytallixIdentityRegistry::lookup_path, (registry, version, peer_id), path),
    ensures
        get_request_json(peer_id@) == "{\"peer_id\":"@ + json_quoted(peer_id@) + "}"@,
        path@ == "/api/contracts/"@ + registry.lookup_config.contract_address@ + "/query/"@ + (
        if version is ExactPeerRecordV1 {
            "get_node"@
        } else {
            "get_identity"@
        }) + "?args="@ + hex_text(
            encode_utf8("{\"peer_id\":"@ + json_quoted(peer_id@) + "}"@),
        ),
{
}

/// A call carries the method of the registry and the request in hexadecimal.
pub proof fn law_calls_carry_the_request(
    method: RegistryContractMethod,
    request_json: &str,
    r: Result<EncodedContractCall>,
)
    requires
        call_ensures(encode_contract_call_args, (method, request_json), r),
    ensures
        r matches Ok(call) && call.method@ == node_method_word(method) && call.args_hex@
            == hex_text(encode_utf8(request_json@)),
{
}

/// A path is joined to an endpoint with one slash between them, whether the
/// endpoint ends with slashes or the path starts with one.
pub proof fn law_paths_are_joined_with_one_slash(endpoint: Seq<char>, path: Seq<char>)
    requires
        endpoint.len() > 0,
        endpoint.last() != '/',
        path.len() > 0,
        path[0] != '/',
    ensures
        joined_url(endpoint, path) == endpoint + seq!['/'] + path,
        joined_url(endpoint, seq!['/'] + path) == endpoint + seq!['/'] + path,
        joined_url(endpoint.push('/'), path) == endpoint + seq!['/'] + path,
        endpoint_path(endpoint, path) == endpoint + seq!['/'] + path,
        endpoint_path(endpoint, seq!['/'] + path) == endpoint + seq!['/'] + path,
        endpoint_path(endpoint.push('/'), path) == endpoint + seq!['/'] + path,
{
    reveal_strlit("/");
    assert("/"@ =~= seq!['/']);
    let slashed = seq!['/'] + path;
    assert(endpoint.push('/').drop_last() =~= endpoint);
    assert(slashed.subrange(0, 1) =~= seq!['/']);
    assert(slashed.drop_first() =~= path);
    if has_prefix(path, "/"@) {
        assert(path.subrange(0, 1)[0] == path[0]);
    }
    assert(endpoint + slashed =~= endpoint + seq!['/'] + path);
}

} // verus!
