//! Binding of peers to records in the on-chain node registry: the hashes and
//! canonical payloads that a record holds, and what a mesh accepts under its
//! trust policy.

use crate::bytes::push_all;
use crate::discovery::{DevicePublicKey, InboundIdentityAssertion, PeerRecord};
use crate::dytallix_identity_v2::RegistryIdentityRecordV2;
use crate::error::{QlinkError, QlinkErrorView, Result, protocol, result_view};
use crate::outside::{
    hex_decode_error, hex_decode_text, hex_encode_bytes, json_string, optional_text, parse_url,
    parsed_url, sha256, sha256_digest,
};
use crate::text::{
    after_prefix, decimal, has_prefix, hex_bytes, hex_encode, hex_text, is_hex_text, join2,
    json_quoted, lowered, push_decimal, same_text, starts_with, strip_prefix, to_lower, trim,
    trim_trailing, trimmed, without_trailing,
};
use vstd::prelude::*;
use vstd::string::*;
use vstd::utf8::*;

verus! {

pub const CONTRACT_CALL_GAS_LIMIT: u64 = 1_000_000;

/// How much a mesh relies on the registry.
#[derive(Debug, Clone, Copy, PartialEq, Eq, Structural)]
pub enum MeshTrustPolicy {
    PublicRequired,
    PrivatePreferred,
    DevelopmentOptional,
}

/// The standing of a node in the registry.
#[derive(Debug, Clone, Copy, PartialEq, Eq, Structural)]
pub enum RegistryNodeStatus {
    Active,
    Revoked,
    Suspended,
}

/// A node's record in the registry.
#[derive(Debug, Clone, PartialEq, Eq)]
pub struct RegistryNodeRecord {
    pub peer_id: String,
    pub owner_daddr: String,
    pub device_public_key_hash_hex: String,
    pub pqc_binding_hash_hex: String,
    pub node_signing_public_key_hash_hex: String,
    pub transport_public_key_hash_hex: String,
    pub latest_peer_record_hash_hex: String,
    pub status: RegistryNodeStatus,
    pub reputation_score: u64,
    pub stake_status: Option<String>,
    pub updated_at: u64,
    pub expires_at: Option<u64>,
    pub metadata_commitment_hex: Option<String>,
}

/// Why a peer was accepted.
#[derive(Debug, Clone, Copy, PartialEq, Eq, Structural)]
pub enum RegistryDecision {
    Accepted,
    AcceptedWithoutRegistryPrivate,
    AcceptedWithoutRegistryDevelopment,
}

/// What is known of a peer's record in the registry.
#[derive(Debug, Clone, Copy, PartialEq, Eq, Structural)]
pub enum DytallixPolicyStatus {
    Active,
    Missing,
    Revoked,
    Suspended,
    Mismatched,
    Stale,
    Unavailable,
}

/// What a policy makes of a status: whether the peer is accepted, and a warning.
#[derive(Debug, Clone)]
pub struct DytallixPolicyDecision {
    pub accepted: bool,
    pub warning: Option<String>,
}

// ---------------------------------------------------------------------------
// Hashes
// ---------------------------------------------------------------------------

/// The SHA-256 digest of a byte string in lowercase hexadecimal.
pub open spec fn sha256_text(bytes: Seq<u8>) -> Seq<char> {
    hex_text(sha256(bytes)@)
}

pub fn sha256_hex(bytes: &[u8]) -> (s: String)
    ensures
        s@ == sha256_text(bytes@),
{
    let digest = sha256_digest(bytes);
    hex_encode(digest.as_slice())
}

pub fn device_public_key_hash_hex_from_public_key(device_public_key: &DevicePublicKey) -> (r: Result<
    String,
>)
    ensures
        r matches Ok(s) && s@ == sha256_text(device_public_key.json@),
{
    Ok(sha256_hex(device_public_key.json.as_slice()))
}

/// The hash of a record's device key.
pub open spec fn device_key_hash(p: PeerRecord) -> Seq<char> {
    sha256_text(p.body.device_public_key.json@)
}

/// The hash of a record's transport certificate.
pub open spec fn transport_hash(p: PeerRecord) -> Seq<char> {
    sha256_text(p.body.device_certificate_der@)
}

pub fn device_public_key_hash_hex(peer_record: &PeerRecord) -> (r: Result<String>)
    ensures
        r matches Ok(s) && s@ == device_key_hash(*peer_record),
{
    device_public_key_hash_hex_from_public_key(&peer_record.body.device_public_key)
}

pub fn latest_peer_record_hash_hex(peer_record: &PeerRecord) -> (r: Result<String>)
    ensures
        r matches Ok(s) && s@ == hex_text(peer_record.record_hash@),
{
    Ok(hex_encode(peer_record.record_hash.as_slice()))
}

/// The node signs with its device key.
pub fn node_signing_public_key_hash_hex(peer_record: &PeerRecord) -> (r: Result<String>)
    ensures
        r matches Ok(s) && s@ == device_key_hash(*peer_record),
{
    device_public_key_hash_hex(peer_record)
}

pub fn transport_public_key_hash_hex(peer_record: &PeerRecord) -> (s: String)
    ensures
        s@ == transport_hash(*peer_record),
{
    sha256_hex(peer_record.body.device_certificate_der.as_slice())
}

// ---------------------------------------------------------------------------
// Canonical payloads
// ---------------------------------------------------------------------------

/// One text field of a JSON object, with the comma before it.
pub open spec fn json_text_field(name: Seq<char>, value: Seq<char>) -> Seq<char> {
    ",\""@ + name + "\":"@ + json_quoted(value)
}

/// One field of a JSON object whose value is written out already, with the comma
/// before it.
pub open spec fn json_raw_field(name: Seq<char>, value: Seq<char>) -> Seq<char> {
    ",\""@ + name + "\":"@ + value
}

/// An optional text as a JSON value.
pub open spec fn json_optional_text(value: Option<String>) -> Seq<char> {
    match value {
        Some(text) => json_quoted(text@),
        None => "null"@,
    }
}

/// An optional number as a JSON value.
pub open spec fn json_optional_number(value: Option<u64>) -> Seq<char> {
    match value {
        Some(n) => decimal(n as nat),
        None => "null"@,
    }
}

pub(crate) fn push_text_field(s: &mut String, name: &str, value: &str)
    ensures
        final(s)@ == old(s)@ + json_text_field(name@, value@),
{
    s.append(",\"");
    s.append(name);
    s.append("\":");
    let quoted = json_string(value);
    s.append(quoted.as_str());
    assert(s@ =~= old(s)@ + json_text_field(name@, value@));
}

pub(crate) fn push_raw_field(s: &mut String, name: &str, value: &str)
    ensures
        final(s)@ == old(s)@ + json_raw_field(name@, value@),
{
    s.append(",\"");
    s.append(name);
    s.append("\":");
    s.append(value);
    assert(s@ =~= old(s)@ + json_raw_field(name@, value@));
}

pub(crate) fn optional_text_json(value: &Option<String>) -> (s: String)
    ensures
        s@ == json_optional_text(*value),
{
    match value {
        Some(text) => json_string(text.as_str()),
        None => "null".to_owned(),
    }
}

pub(crate) fn number_json(value: u64) -> (s: String)
    ensures
        s@ == decimal(value as nat),
{
    let mut s = String::new();
    push_decimal(&mut s, value);
    assert(s@ =~= decimal(value as nat));
    s
}

pub(crate) fn optional_number_json(value: Option<u64>) -> (s: String)
    ensures
        s@ == json_optional_number(value),
{
    match value {
        Some(n) => number_json(n),
        None => "null".to_owned(),
    }
}

/// The bytes of a text.
pub(crate) fn bytes_of(s: &str) -> (v: Vec<u8>)
    ensures
        v@ == encode_utf8(s@),
{
    let mut v: Vec<u8> = Vec::new();
    push_all(&mut v, s.as_bytes());
    assert(v@ =~= encode_utf8(s@));
    v
}

/// What a device signs to bind itself to an owner, as JSON: the owner, the peer
/// and the hashes of the device key, the node signing key, the transport
/// certificate and the record.
pub open spec fn binding_payload(owner_daddr: Seq<char>, p: PeerRecord) -> Seq<char> {
    "{\"contract\":\"quantumlink-node-registry\",\"version\":1"@ + json_text_field(
        "owner_daddr"@,
        owner_daddr,
    ) + json_text_field("peer_id"@, p.body.peer_id@) + json_text_field(
        "device_public_key_hash_hex"@,
        device_key_hash(p),
    ) + json_text_field("node_signing_public_key_hash_hex"@, device_key_hash(p)) + json_text_field(
        "transport_public_key_hash_hex"@,
        transport_hash(p),
    ) + json_text_field("latest_peer_record_hash_hex"@, hex_text(p.record_hash@)) + "}"@
}

pub fn canonical_binding_payload_bytes(owner_daddr: &str, peer_record: &PeerRecord) -> (r: Result<
    Vec<u8>,
>)
    ensures
        r matches Ok(v) && v@ == encode_utf8(binding_payload(owner_daddr@, *peer_record)),
{
    let key_hash = sha256_hex(peer_record.body.device_public_key.json.as_slice());
    let record_hash = hex_encode(peer_record.record_hash.as_slice());
    let transport = transport_public_key_hash_hex(peer_record);
    let mut s = "{\"contract\":\"quantumlink-node-registry\",\"version\":1".to_owned();
    push_text_field(&mut s, "owner_daddr", owner_daddr);
    push_text_field(&mut s, "peer_id", peer_record.body.peer_id.as_str());
    push_text_field(&mut s, "device_public_key_hash_hex", key_hash.as_str());
    push_text_field(&mut s, "node_signing_public_key_hash_hex", key_hash.as_str());
    push_text_field(&mut s, "transport_public_key_hash_hex", transport.as_str());
    push_text_field(&mut s, "latest_peer_record_hash_hex", record_hash.as_str());
    s.append("}");
    Ok(bytes_of(s.as_str()))
}

/// The hash that binds a peer record to an owner.
pub open spec fn binding_hash(owner_daddr: Seq<char>, p: PeerRecord) -> Seq<char> {
    sha256_text(encode_utf8(binding_payload(owner_daddr, p)))
}

pub fn pqc_binding_hash_hex(owner_daddr: &str, peer_record: &PeerRecord) -> (r: Result<String>)
    ensures
        r matches Ok(s) && s@ == binding_hash(owner_daddr@, *peer_record),
{
    match canonical_binding_payload_bytes(owner_daddr, peer_record) {
        Ok(payload) => Ok(sha256_hex(payload.as_slice())),
        Err(e) => Err(e),
    }
}

/// The name of a status on the wire.
pub open spec fn status_name(status: RegistryNodeStatus) -> Seq<char> {
    match status {
        RegistryNodeStatus::Active => "active"@,
        RegistryNodeStatus::Revoked => "revoked"@,
        RegistryNodeStatus::Suspended => "suspended"@,
    }
}

fn status_str(status: RegistryNodeStatus) -> (s: &'static str)
    ensures
        s@ == status_name(status),
{
    match status {
        RegistryNodeStatus::Active => "active",
        RegistryNodeStatus::Revoked => "revoked",
        RegistryNodeStatus::Suspended => "suspended",
    }
}

/// A registry record as JSON.
pub open spec fn node_record_json(r: RegistryNodeRecord) -> Seq<char> {
    "{\"peer_id\":"@ + json_quoted(r.peer_id@) + json_text_field("owner_daddr"@, r.owner_daddr@)
        + json_text_field("device_public_key_hash_hex"@, r.device_public_key_hash_hex@)
        + json_text_field("pqc_binding_hash_hex"@, r.pqc_binding_hash_hex@) + json_text_field(
        "node_signing_public_key_hash_hex"@,
        r.node_signing_public_key_hash_hex@,
    ) + json_text_field("transport_public_key_hash_hex"@, r.transport_public_key_hash_hex@)
        + json_text_field("latest_peer_record_hash_hex"@, r.latest_peer_record_hash_hex@)
        + json_text_field("status"@, status_name(r.status)) + json_raw_field(
        "reputation_score"@,
        decimal(r.reputation_score as nat),
    ) + json_raw_field("stake_status"@, json_optional_text(r.stake_status)) + json_raw_field(
        "updated_at"@,
        decimal(r.updated_at as nat),
    ) + json_raw_field("expires_at"@, json_optional_number(r.expires_at)) + json_raw_field(
        "metadata_commitment_hex"@,
        json_optional_text(r.metadata_commitment_hex),
    ) + "}"@
}

pub fn registry_node_record_json(record: &RegistryNodeRecord) -> (s: String)
    ensures
        s@ == node_record_json(*record),
{
    let mut s = "{\"peer_id\":".to_owned();
    let peer_id = json_string(record.peer_id.as_str());
    s.append(peer_id.as_str());
    push_text_field(&mut s, "owner_daddr", record.owner_daddr.as_str());
    push_text_field(
        &mut s,
        "device_public_key_hash_hex",
        record.device_public_key_hash_hex.as_str(),
    );
    push_text_field(&mut s, "pqc_binding_hash_hex", record.pqc_binding_hash_hex.as_str());
    push_text_field(
        &mut s,
        "node_signing_public_key_hash_hex",
        record.node_signing_public_key_hash_hex.as_str(),
    );
    push_text_field(
        &mut s,
        "transport_public_key_hash_hex",
        record.transport_public_key_hash_hex.as_str(),
    );
    push_text_field(
        &mut s,
        "latest_peer_record_hash_hex",
        record.latest_peer_record_hash_hex.as_str(),
    );
    push_text_field(&mut s, "status", status_str(record.status));
    let reputation = number_json(record.reputation_score);
    push_raw_field(&mut s, "reputation_score", reputation.as_str());
    let stake = optional_text_json(&record.stake_status);
    push_raw_field(&mut s, "stake_status", stake.as_str());
    let updated = number_json(record.updated_at);
    push_raw_field(&mut s, "updated_at", updated.as_str());
    let expires = optional_number_json(record.expires_at);
    push_raw_field(&mut s, "expires_at", expires.as_str());
    let metadata = optional_text_json(&record.metadata_commitment_hex);
    push_raw_field(&mut s, "metadata_commitment_hex", metadata.as_str());
    s.append("}");
    s
}

/// A method of the registry contract.
#[derive(Debug, Clone, Copy, PartialEq, Eq, Structural)]
pub enum RegistryContractMethod {
    RegisterNode,
    UpdateNode,
    RevokeNode,
    GetNode,
}

/// The name of a contract method.
pub open spec fn method_name(method: RegistryContractMethod) -> Seq<char> {
    match method {
        RegistryContractMethod::RegisterNode => "register_node"@,
        RegistryContractMethod::UpdateNode => "update_node"@,
        RegistryContractMethod::RevokeNode => "revoke_node"@,
        RegistryContractMethod::GetNode => "get_node"@,
    }
}

impl RegistryContractMethod {
    pub fn as_str(self) -> (s: &'static str)
        ensures
            s@ == method_name(self),
    {
        match self {
            RegistryContractMethod::RegisterNode => "register_node",
            RegistryContractMethod::UpdateNode => "update_node",
            RegistryContractMethod::RevokeNode => "revoke_node",
            RegistryContractMethod::GetNode => "get_node",
        }
    }
}

/// What a wallet signs to write a record, as JSON.
pub open spec fn wallet_record_payload(
    operation: RegistryContractMethod,
    record: RegistryNodeRecord,
) -> Seq<char> {
    "{\"contract\":\"quantumlink-node-registry\",\"version\":1"@ + json_text_field(
        "operation"@,
        method_name(operation),
    ) + json_raw_field("record"@, node_record_json(record)) + "}"@
}

pub fn canonical_wallet_record_payload_bytes(
    operation: RegistryContractMethod,
    record: &RegistryNodeRecord,
) -> (r: Result<Vec<u8>>)
    ensures
        r matches Ok(v) && v@ == encode_utf8(wallet_record_payload(operation, *record)),
{
    let mut s = "{\"contract\":\"quantumlink-node-registry\",\"version\":1".to_owned();
    push_text_field(&mut s, "operation", operation.as_str());
    let json = registry_node_record_json(record);
    push_raw_field(&mut s, "record", json.as_str());
    s.append("}");
    Ok(bytes_of(s.as_str()))
}

/// What a wallet signs to revoke a node, as JSON.
pub open spec fn wallet_revoke_payload(peer_id: Seq<char>, block_time: u64) -> Seq<char> {
    "{\"contract\":\"quantumlink-node-registry\",\"version\":1"@ + json_text_field(
        "operation"@,
        method_name(RegistryContractMethod::RevokeNode),
    ) + json_text_field("peer_id"@, peer_id) + json_raw_field(
        "block_time"@,
        decimal(block_time as nat),
    ) + "}"@
}

pub fn canonical_wallet_revoke_payload_bytes(peer_id: &str, block_time: u64) -> (r: Result<Vec<u8>>)
    ensures
        r matches Ok(v) && v@ == encode_utf8(wallet_revoke_payload(peer_id@, block_time)),
{
    let mut s = "{\"contract\":\"quantumlink-node-registry\",\"version\":1".to_owned();
    push_text_field(&mut s, "operation", RegistryContractMethod::RevokeNode.as_str());
    push_text_field(&mut s, "peer_id", peer_id);
    let time = number_json(block_time);
    push_raw_field(&mut s, "block_time", time.as_str());
    s.append("}");
    Ok(bytes_of(s.as_str()))
}

impl RegistryNodeRecord {
    /// The record that binds a peer record to an owner.
    pub fn from_peer_record(
        owner_daddr: &str,
        peer_record: &PeerRecord,
        status: RegistryNodeStatus,
        updated_at: u64,
    ) -> (r: Result<RegistryNodeRecord>)
        ensures
            r matches Ok(record) && is_record_of(
                record,
                owner_daddr@,
                *peer_record,
                status,
                updated_at,
            ),
    {
        let key_hash = sha256_hex(peer_record.body.device_public_key.json.as_slice());
        let binding = match pqc_binding_hash_hex(owner_daddr, peer_record) {
            Ok(hash) => hash,
            Err(e) => {
                return Err(e);
            },
        };
        Ok(
            RegistryNodeRecord {
                peer_id: peer_record.body.peer_id.clone(),
                owner_daddr: owner_daddr.to_owned(),
                device_public_key_hash_hex: key_hash.clone(),
                pqc_binding_hash_hex: binding,
                node_signing_public_key_hash_hex: key_hash,
                transport_public_key_hash_hex: transport_public_key_hash_hex(peer_record),
                latest_peer_record_hash_hex: hex_encode(peer_record.record_hash.as_slice()),
                status,
                reputation_score: 0,
                stake_status: None,
                updated_at,
                expires_at: Some(peer_record.body.expires_at_unix),
                metadata_commitment_hex: None,
            },
        )
    }
}

/// The fields of a record that was made from a peer record.
pub open spec fn is_record_of(
    r: RegistryNodeRecord,
    owner_daddr: Seq<char>,
    p: PeerRecord,
    status: RegistryNodeStatus,
    updated_at: u64,
) -> bool {
    &&& r.peer_id@ == p.body.peer_id@
    &&& r.owner_daddr@ == owner_daddr
    &&& r.device_public_key_hash_hex@ == device_key_hash(p)
    &&& r.pqc_binding_hash_hex@ == binding_hash(owner_daddr, p)
    &&& r.node_signing_public_key_hash_hex@ == device_key_hash(p)
    &&& r.transport_public_key_hash_hex@ == transport_hash(p)
    &&& r.latest_peer_record_hash_hex@ == hex_text(p.record_hash@)
    &&& r.status == status
    &&& r.reputation_score == 0
    &&& r.stake_status is None
    &&& r.updated_at == updated_at
    &&& r.expires_at == Some(p.body.expires_at_unix)
    &&& r.metadata_commitment_hex is None
}

// ---------------------------------------------------------------------------
// Verdicts
// ---------------------------------------------------------------------------

/// Why a peer record is not believed, if it is not: its peer id is not that of
/// its key, it has expired, or its signature does not hold.
pub open spec fn identity_refusal(p: PeerRecord, now_unix: u64) -> Option<QlinkErrorView> {
    if p.body.device_public_key.peer_id@ != p.body.peer_id@ {
        Some(QlinkErrorView::Protocol("peer_id does not match device public key"@))
    } else if p.body.expires_at_unix <= now_unix {
        Some(QlinkErrorView::RecordExpired)
    } else {
        match p.signature_error {
            Some(e) => Some(e@),
            None => None,
        }
    }
}

pub fn verify_peer_record_identity(peer_record: &PeerRecord, now_unix: u64) -> (r: Result<()>)
    ensures
        match identity_refusal(*peer_record, now_unix) {
            Some(why) => r matches Err(e) && e@ == why,
            None => r is Ok,
        },
{
    if !same_text(
        peer_record.body.device_public_key.peer_id.as_str(),
        peer_record.body.peer_id.as_str(),
    ) {
        return Err(protocol("peer_id does not match device public key"));
    }
    if peer_record.body.expires_at_unix <= now_unix {
        return Err(QlinkError::RecordExpired);
    }
    match &peer_record.signature_error {
        Some(e) => Err(e.duplicate()),
        None => Ok(()),
    }
}

/// What a policy makes of a peer without a registry record.
pub open spec fn verdict_without_record(policy: MeshTrustPolicy) -> Result<
    RegistryDecision,
    QlinkErrorView,
> {
    match policy {
        MeshTrustPolicy::PublicRequired => Err(
            QlinkErrorView::Protocol("registry record required by public mesh trust policy"@),
        ),
        MeshTrustPolicy::PrivatePreferred => Ok(RegistryDecision::AcceptedWithoutRegistryPrivate),
        MeshTrustPolicy::DevelopmentOptional => Ok(
            RegistryDecision::AcceptedWithoutRegistryDevelopment,
        ),
    }
}

fn decide_without_record(policy: MeshTrustPolicy) -> (r: Result<RegistryDecision>)
    ensures
        match verdict_without_record(policy) {
            Ok(decision) => r == Ok::<RegistryDecision, QlinkError>(decision),
            Err(why) => r matches Err(e) && e@ == why,
        },
{
    match policy {
        MeshTrustPolicy::PublicRequired => Err(
            protocol("registry record required by public mesh trust policy"),
        ),
        MeshTrustPolicy::PrivatePreferred => Ok(RegistryDecision::AcceptedWithoutRegistryPrivate),
        MeshTrustPolicy::DevelopmentOptional => Ok(
            RegistryDecision::AcceptedWithoutRegistryDevelopment,
        ),
    }
}

/// Why a registry record is not in force, if it is not.
pub open spec fn standing_refusal(r: RegistryNodeRecord, now_unix: u64) -> Option<QlinkErrorView> {
    if r.status != RegistryNodeStatus::Active {
        Some(QlinkErrorView::Protocol("registry record is "@ + status_name(r.status)))
    } else if r.expires_at matches Some(expires_at) && expires_at <= now_unix {
        Some(QlinkErrorView::Protocol("registry record has expired"@))
    } else {
        None
    }
}

fn require_standing(record: &RegistryNodeRecord, now_unix: u64) -> (r: Result<()>)
    ensures
        match standing_refusal(*record, now_unix) {
            Some(why) => r matches Err(e) && e@ == why,
            None => r is Ok,
        },
{
    if record.status != RegistryNodeStatus::Active {
        return Err(QlinkError::Protocol(join2("registry record is ", status_str(record.status))));
    }
    if let Some(expires_at) = record.expires_at {
        if expires_at <= now_unix {
            return Err(protocol("registry record has expired"));
        }
    }
    Ok(())
}

/// The refusal of a field that does not match.
pub open spec fn mismatch(field: Seq<char>) -> QlinkErrorView {
    QlinkErrorView::Protocol(field + " mismatch"@)
}

pub fn require_match(field: &str, actual: &str, expected: &str) -> (r: Result<()>)
    ensures
        actual@ == expected@ ==> r is Ok,
        actual@ != expected@ ==> (r matches Err(e) && e@ == mismatch(field@)),
{
    if same_text(actual, expected) {
        Ok(())
    } else {
        Err(QlinkError::Protocol(join2(field, " mismatch")))
    }
}

/// The first field of a registry record that does not fit a peer record.
pub open spec fn first_mismatch(r: RegistryNodeRecord, p: PeerRecord) -> Option<Seq<char>> {
    if r.peer_id@ != p.body.peer_id@ {
        Some("peer_id"@)
    } else if r.device_public_key_hash_hex@ != device_key_hash(p) {
        Some("device_public_key_hash_hex"@)
    } else if r.latest_peer_record_hash_hex@ != hex_text(p.record_hash@) {
        Some("latest_peer_record_hash_hex"@)
    } else if r.pqc_binding_hash_hex@ != binding_hash(r.owner_daddr@, p) {
        Some("pqc_binding_hash_hex"@)
    } else if r.node_signing_public_key_hash_hex@ != device_key_hash(p) {
        Some("node_signing_public_key_hash_hex"@)
    } else if r.transport_public_key_hash_hex@ != transport_hash(p) {
        Some("transport_public_key_hash_hex"@)
    } else {
        None
    }
}

/// The verdict on a peer record: it must be believed in itself; the registry
/// record, where there is one, must be in force and fit it in every field.
pub open spec fn binding_verdict(
    p: PeerRecord,
    registry_record: Option<RegistryNodeRecord>,
    policy: MeshTrustPolicy,
    now_unix: u64,
) -> Result<RegistryDecision, QlinkErrorView> {
    match identity_refusal(p, now_unix) {
        Some(why) => Err(why),
        None => match registry_record {
            None => verdict_without_record(policy),
            Some(r) => match standing_refusal(r, now_unix) {
                Some(why) => Err(why),
                None => match first_mismatch(r, p) {
                    Some(field) => Err(mismatch(field)),
                    None => Ok(RegistryDecision::Accepted),
                },
            },
        },
    }
}

/// A record behind an optional reference.
pub open spec fn referred<T>(r: Option<&T>) -> Option<T> {
    match r {
        Some(v) => Some(*v),
        None => None,
    }
}

/// Judges a peer record by the registry and the mesh's trust policy.
pub fn verify_registry_binding(
    peer_record: &PeerRecord,
    registry_record: Option<&RegistryNodeRecord>,
    policy: MeshTrustPolicy,
    now_unix: u64,
) -> (r: Result<RegistryDecision>)
    ensures
        match binding_verdict(*peer_record, referred(registry_record), policy, now_unix) {
            Ok(decision) => r == Ok::<RegistryDecision, QlinkError>(decision),
            Err(why) => r matches Err(e) && e@ == why,
        },
{
    if let Err(e) = verify_peer_record_identity(peer_record, now_unix) {
        return Err(e);
    }
    let record = match registry_record {
        Some(record) => record,
        None => {
            return decide_without_record(policy);
        },
    };
    if let Err(e) = require_standing(record, now_unix) {
        return Err(e);
    }
    if let Err(e) = require_match(
        "peer_id",
        record.peer_id.as_str(),
        peer_record.body.peer_id.as_str(),
    ) {
        return Err(e);
    }
    let key_hash = sha256_hex(peer_record.body.device_public_key.json.as_slice());
    if let Err(e) = require_match(
        "device_public_key_hash_hex",
        record.device_public_key_hash_hex.as_str(),
        key_hash.as_str(),
    ) {
        return Err(e);
    }
    let record_hash = hex_encode(peer_record.record_hash.as_slice());
    if let Err(e) = require_match(
        "latest_peer_record_hash_hex",
        record.latest_peer_record_hash_hex.as_str(),
        record_hash.as_str(),
    ) {
        return Err(e);
    }
    let binding = match pqc_binding_hash_hex(record.owner_daddr.as_str(), peer_record) {
        Ok(hash) => hash,
        Err(e) => {
            return Err(e);
        },
    };
    if let Err(e) = require_match(
        "pqc_binding_hash_hex",
        record.pqc_binding_hash_hex.as_str(),
        binding.as_str(),
    ) {
        return Err(e);
    }
    if let Err(e) = require_match(
        "node_signing_public_key_hash_hex",
        record.node_signing_public_key_hash_hex.as_str(),
        key_hash.as_str(),
    ) {
        return Err(e);
    }
    let transport = transport_public_key_hash_hex(peer_record);
    if let Err(e) = require_match(
        "transport_public_key_hash_hex",
        record.transport_public_key_hash_hex.as_str(),
        transport.as_str(),
    ) {
        return Err(e);
    }
    Ok(RegistryDecision::Accepted)
}

/// The verdict on what a dialling peer claims of itself.
pub open spec fn inbound_verdict(
    assertion: InboundIdentityAssertion,
    registry_record: Option<RegistryNodeRecord>,
    policy: MeshTrustPolicy,
    now_unix: u64,
) -> Result<RegistryDecision, QlinkErrorView> {
    let key_hash = sha256_text(assertion.device_public_key.json@);
    match registry_record {
        None => verdict_without_record(policy),
        Some(r) => match standing_refusal(r, now_unix) {
            Some(why) => Err(why),
            None => if r.peer_id@ != assertion.peer_id@ {
                Err(mismatch("peer_id"@))
            } else if r.device_public_key_hash_hex@ != key_hash {
                Err(mismatch("device_public_key_hash_hex"@))
            } else if r.node_signing_public_key_hash_hex@ != key_hash {
                Err(mismatch("node_signing_public_key_hash_hex"@))
            } else {
                Ok(RegistryDecision::Accepted)
            },
        },
    }
}

pub fn verify_inbound_registry_assertion(
    assertion: &InboundIdentityAssertion,
    registry_record: Option<&RegistryNodeRecord>,
    policy: MeshTrustPolicy,
    now_unix: u64,
) -> (r: Result<RegistryDecision>)
    ensures
        match inbound_verdict(*assertion, referred(registry_record), policy, now_unix) {
            Ok(decision) => r == Ok::<RegistryDecision, QlinkError>(decision),
            Err(why) => r matches Err(e) && e@ == why,
        },
{
    let record = match registry_record {
        Some(record) => record,
        None => {
            return decide_without_record(policy);
        },
    };
    if let Err(e) = require_standing(record, now_unix) {
        return Err(e);
    }
    if let Err(e) = require_match("peer_id", record.peer_id.as_str(), assertion.peer_id.as_str()) {
        return Err(e);
    }
    let key_hash = sha256_hex(assertion.device_public_key.json.as_slice());
    if let Err(e) = require_match(
        "device_public_key_hash_hex",
        record.device_public_key_hash_hex.as_str(),
        key_hash.as_str(),
    ) {
        return Err(e);
    }
    if let Err(e) = require_match(
        "node_signing_public_key_hash_hex",
        record.node_signing_public_key_hash_hex.as_str(),
        key_hash.as_str(),
    ) {
        return Err(e);
    }
    Ok(RegistryDecision::Accepted)
}

/// A policy in words.
pub open spec fn policy_label(policy: MeshTrustPolicy) -> Seq<char> {
    match policy {
        MeshTrustPolicy::PublicRequired => "public mesh policy"@,
        MeshTrustPolicy::PrivatePreferred => "private mesh policy"@,
        MeshTrustPolicy::DevelopmentOptional => "development mesh policy"@,
    }
}

pub fn mesh_trust_policy_label(policy: MeshTrustPolicy) -> (s: &'static str)
    ensures
        s@ == policy_label(policy),
{
    match policy {
        MeshTrustPolicy::PublicRequired => "public mesh policy",
        MeshTrustPolicy::PrivatePreferred => "private mesh policy",
        MeshTrustPolicy::DevelopmentOptional => "development mesh policy",
    }
}

/// A status in words.
pub open spec fn policy_status_label(status: DytallixPolicyStatus) -> Seq<char> {
    match status {
        DytallixPolicyStatus::Active => "active"@,
        DytallixPolicyStatus::Missing => "missing"@,
        DytallixPolicyStatus::Revoked => "revoked"@,
        DytallixPolicyStatus::Suspended => "suspended"@,
        DytallixPolicyStatus::Mismatched => "mismatched"@,
        DytallixPolicyStatus::Stale => "stale"@,
        DytallixPolicyStatus::Unavailable => "registry unavailable"@,
    }
}

pub fn dytallix_policy_status_label(status: DytallixPolicyStatus) -> (s: &'static str)
    ensures
        s@ == policy_status_label(status),
{
    match status {
        DytallixPolicyStatus::Active => "active",
        DytallixPolicyStatus::Missing => "missing",
        DytallixPolicyStatus::Revoked => "revoked",
        DytallixPolicyStatus::Suspended => "suspended",
        DytallixPolicyStatus::Mismatched => "mismatched",
        DytallixPolicyStatus::Stale => "stale",
        DytallixPolicyStatus::Unavailable => "registry unavailable",
    }
}

/// An unavailable registry is passed over where nothing asks for verification.
pub open spec fn is_excused(
    policy: MeshTrustPolicy,
    status: DytallixPolicyStatus,
    explicitly_requires_verification: bool,
) -> bool {
    status == DytallixPolicyStatus::Unavailable && !explicitly_requires_verification && policy
        != MeshTrustPolicy::PublicRequired
}

pub fn evaluate_dytallix_policy_status(
    policy: MeshTrustPolicy,
    status: DytallixPolicyStatus,
    explicitly_requires_verification: bool,
) -> (r: Result<DytallixPolicyDecision>)
    ensures
        if status == DytallixPolicyStatus::Active {
            r matches Ok(d) && d.accepted && d.warning is None
        } else if is_excused(policy, status, explicitly_requires_verification) {
            r matches Ok(d) && d.accepted && (d.warning matches Some(w) && w@
                == "Dytallix registry unavailable; continuing under private/development trust policy"@)
        } else {
            r matches Err(e) && e@ == QlinkErrorView::Protocol(
                "active Dytallix registry record required by "@ + policy_label(policy) + ": "@
                    + policy_status_label(status),
            )
        },
{
    if status == DytallixPolicyStatus::Active {
        return Ok(DytallixPolicyDecision { accepted: true, warning: None });
    }
    if status == DytallixPolicyStatus::Unavailable && !explicitly_requires_verification && policy
        != MeshTrustPolicy::PublicRequired {
        return Ok(
            DytallixPolicyDecision {
                accepted: true,
                warning: Some(
                    "Dytallix registry unavailable; continuing under private/development trust policy".to_owned(),
                ),
            },
        );
    }
    let mut text = "active Dytallix registry record required by ".to_owned();
    text.append(mesh_trust_policy_label(policy));
    text.append(": ");
    text.append(dytallix_policy_status_label(status));
    Err(QlinkError::Protocol(text))
}

// ---------------------------------------------------------------------------
// Authorizations and contract calls
// ---------------------------------------------------------------------------

/// A wallet's signature over a canonical payload.
#[derive(Debug, Clone)]
pub struct WalletAuthorization {
    pub actor_public_key_hex: String,
    pub actor_signature_hex: String,
}

/// The authorization that signing a payload with a wallet comes to.
pub open spec fn is_wallet_signature(
    r: Result<WalletAuthorization>,
    public_key: Seq<u8>,
    signature: Result<Vec<u8>, String>,
) -> bool {
    match signature {
        Ok(sig) => r matches Ok(auth) && auth.actor_public_key_hex@ == hex_text(public_key)
            && auth.actor_signature_hex@ == hex_text(sig@),
        Err(err) => r matches Err(e) && e@ == QlinkErrorView::Crypto(
            "dytallix wallet signing failed: "@ + err@,
        ),
    }
}

/// What authorizing the writing of a record with a wallet comes to.
pub open spec fn is_record_authorization<F: Fn(&[u8]) -> Result<Vec<u8>, String>>(
    r: Result<WalletAuthorization>,
    method: RegistryContractMethod,
    record: RegistryNodeRecord,
    public_key: Seq<u8>,
    signer: F,
) -> bool {
    exists|payload: &[u8], signature: Result<Vec<u8>, String>|
        payload@ == encode_utf8(wallet_record_payload(method, record)) && #[trigger] call_ensures(
            signer,
            (payload,),
            signature,
        ) && is_wallet_signature(r, public_key, signature)
}

impl WalletAuthorization {
    /// Authorizes the writing of a record. `signer` signs with the wallet whose
    /// public key is given.
    pub fn sign_record<F: Fn(&[u8]) -> Result<Vec<u8>, String>>(
        method: RegistryContractMethod,
        record: &RegistryNodeRecord,
        public_key: &[u8],
        signer: F,
    ) -> (r: Result<WalletAuthorization>)
        requires
            forall|payload: &[u8]| #[trigger] call_requires(signer, (payload,)),
        ensures
            is_record_authorization(r, method, *record, public_key@, signer),
    {
        match canonical_wallet_record_payload_bytes(method, record) {
            Ok(payload) => WalletAuthorization::sign_payload(payload.as_slice(), public_key, signer),
            Err(e) => Err(e),
        }
    }

    /// Authorizes the revocation of a node.
    pub fn sign_revoke<F: Fn(&[u8]) -> Result<Vec<u8>, String>>(
        peer_id: &str,
        block_time: u64,
        public_key: &[u8],
        signer: F,
    ) -> (r: Result<WalletAuthorization>)
        requires
            forall|payload: &[u8]| #[trigger] call_requires(signer, (payload,)),
        ensures
            exists|payload: &[u8], signature: Result<Vec<u8>, String>|
                payload@ == encode_utf8(wallet_revoke_payload(peer_id@, block_time))
                    && #[trigger] call_ensures(signer, (payload,), signature)
                    && is_wallet_signature(r, public_key@, signature),
    {
        match canonical_wallet_revoke_payload_bytes(peer_id, block_time) {
            Ok(payload) => WalletAuthorization::sign_payload(payload.as_slice(), public_key, signer),
            Err(e) => Err(e),
        }
    }

    fn sign_payload<F: Fn(&[u8]) -> Result<Vec<u8>, String>>(
        payload: &[u8],
        public_key: &[u8],
        signer: F,
    ) -> (r: Result<WalletAuthorization>)
        requires
            forall|payload: &[u8]| #[trigger] call_requires(signer, (payload,)),
        ensures
            exists|signature: Result<Vec<u8>, String>|
                #[trigger] call_ensures(signer, (payload,), signature) && is_wallet_signature(
                    r,
                    public_key@,
                    signature,
                ),
    {
        match signer(payload) {
            Ok(signature) => Ok(
                WalletAuthorization {
                    actor_public_key_hex: hex_encode_bytes(public_key),
                    actor_signature_hex: hex_encode_bytes(signature.as_slice()),
                },
            ),
            Err(err) => Err(
                QlinkError::Crypto(join2("dytallix wallet signing failed: ", err.as_str())),
            ),
        }
    }
}

/// A device's signature over the payload that binds it to an owner.
#[derive(Debug, Clone)]
pub struct DeviceBindingAuthorization {
    pub device_public_key_algorithm: String,
    pub device_public_key_hex: String,
    pub device_binding_signature_hex: String,
}

/// Two keys are the same key.
pub open spec fn same_key(a: DevicePublicKey, b: DevicePublicKey) -> bool {
    a.algorithm@ == b.algorithm@ && a.bytes@ == b.bytes@
}

pub(crate) fn same_bytes(a: &[u8], b: &[u8]) -> (same: bool)
    ensures
        same == (a@ == b@),
{
    if a.len() != b.len() {
        return false;
    }
    let mut i: usize = 0;
    while i < a.len()
        invariant
            i <= a@.len() == b@.len(),
            forall|j: int| 0 <= j < i ==> a@[j] == b@[j],
        decreases a@.len() - i,
    {
        if a[i] != b[i] {
            return false;
        }
        i = i + 1;
    }
    assert(a@ =~= b@);
    true
}

/// What binding a device to an owner comes to.
pub open spec fn is_device_binding<F: Fn(&[u8]) -> Vec<u8>>(
    r: Result<DeviceBindingAuthorization>,
    owner_daddr: Seq<char>,
    peer_record: PeerRecord,
    public_key: DevicePublicKey,
    signer: F,
) -> bool {
    if same_key(public_key, peer_record.body.device_public_key) {
        exists|payload: &[u8], signature: Vec<u8>|
            payload@ == encode_utf8(binding_payload(owner_daddr, peer_record))
                && #[trigger] call_ensures(signer, (payload,), signature) && (r matches Ok(auth)
                && auth.device_public_key_algorithm@ == public_key.algorithm@
                && auth.device_public_key_hex@ == hex_text(public_key.bytes@)
                && auth.device_binding_signature_hex@ == hex_text(signature@))
    } else {
        r matches Err(e) && e@ == QlinkErrorView::Protocol(
            "device keypair does not match peer record device public key"@,
        )
    }
}

impl DeviceBindingAuthorization {
    /// Binds a device to an owner. `signer` signs with the device key whose
    /// public half is given, which must be that of the peer record.
    pub fn sign<F: Fn(&[u8]) -> Vec<u8>>(
        owner_daddr: &str,
        peer_record: &PeerRecord,
        public_key: &DevicePublicKey,
        signer: F,
    ) -> (r: Result<DeviceBindingAuthorization>)
        requires
            forall|payload: &[u8]| #[trigger] call_requires(signer, (payload,)),
        ensures
            is_device_binding(r, owner_daddr@, *peer_record, *public_key, signer),
    {
        let expected = &peer_record.body.device_public_key;
        if !same_text(public_key.algorithm.as_str(), expected.algorithm.as_str()) || !same_bytes(
            public_key.bytes.as_slice(),
            expected.bytes.as_slice(),
        ) {
            return Err(protocol("device keypair does not match peer record device public key"));
        }
        let payload = match canonical_binding_payload_bytes(owner_daddr, peer_record) {
            Ok(payload) => payload,
            Err(e) => {
                return Err(e);
            },
        };
        let signature = signer(payload.as_slice());
        Ok(
            DeviceBindingAuthorization {
                device_public_key_algorithm: public_key.algorithm.clone(),
                device_public_key_hex: hex_encode_bytes(public_key.bytes.as_slice()),
                device_binding_signature_hex: hex_encode_bytes(signature.as_slice()),
            },
        )
    }
}

/// A request to write a record.
#[derive(Debug, Clone)]
pub struct RegisterNodeRequest {
    pub record: RegistryNodeRecord,
    pub wallet_authorization: WalletAuthorization,
    pub device_binding_authorization: DeviceBindingAuthorization,
}

impl RegisterNodeRequest {
    pub fn new(
        record: RegistryNodeRecord,
        wallet_authorization: WalletAuthorization,
        device_binding_authorization: DeviceBindingAuthorization,
    ) -> (r: RegisterNodeRequest)
        ensures
            r.record == record,
            r.wallet_authorization == wallet_authorization,
            r.device_binding_authorization == device_binding_authorization,
    {
        RegisterNodeRequest { record, wallet_authorization, device_binding_authorization }
    }

    /// The request as JSON: the record and the fields of both authorizations.
    pub fn to_json(&self) -> (s: String)
        ensures
            s@ == register_request_json(*self),
    {
        let mut s = "{\"record\":".to_owned();
        let record = registry_node_record_json(&self.record);
        s.append(record.as_str());
        push_text_field(
            &mut s,
            "actor_public_key_hex",
            self.wallet_authorization.actor_public_key_hex.as_str(),
        );
        push_text_field(
            &mut s,
            "actor_signature_hex",
            self.wallet_authorization.actor_signature_hex.as_str(),
        );
        push_text_field(
            &mut s,
            "device_public_key_algorithm",
            self.device_binding_authorization.device_public_key_algorithm.as_str(),
        );
        push_text_field(
            &mut s,
            "device_public_key_hex",
            self.device_binding_authorization.device_public_key_hex.as_str(),
        );
        push_text_field(
            &mut s,
            "device_binding_signature_hex",
            self.device_binding_authorization.device_binding_signature_hex.as_str(),
        );
        s.append("}");
        s
    }
}

pub type UpdateNodeRequest = RegisterNodeRequest;

/// A registration request as JSON.
pub open spec fn register_request_json(r: RegisterNodeRequest) -> Seq<char> {
    "{\"record\":"@ + node_record_json(r.record) + json_text_field(
        "actor_public_key_hex"@,
        r.wallet_authorization.actor_public_key_hex@,
    ) + json_text_field("actor_signature_hex"@, r.wallet_authorization.actor_signature_hex@)
        + json_text_field(
        "device_public_key_algorithm"@,
        r.device_binding_authorization.device_public_key_algorithm@,
    ) + json_text_field(
        "device_public_key_hex"@,
        r.device_binding_authorization.device_public_key_hex@,
    ) + json_text_field(
        "device_binding_signature_hex"@,
        r.device_binding_authorization.device_binding_signature_hex@,
    ) + "}"@
}

/// What preparing to write the record of a peer comes to: a wallet without an
/// address, a wallet that does not sign and a device that is not the peer's are
/// refused, in this order.
pub open spec fn is_write_request<F: Fn(&[u8]) -> Result<Vec<u8>, String>, G: Fn(&[u8]) -> Vec<u8>>(
    r: Result<RegisterNodeRequest>,
    method: RegistryContractMethod,
    owner: Result<String, String>,
    wallet_public_key: Seq<u8>,
    wallet_signer: F,
    peer_record: PeerRecord,
    device_public_key: DevicePublicKey,
    device_signer: G,
    updated_at: u64,
) -> bool {
    match owner {
        Err(err) => r matches Err(e) && e@ == QlinkErrorView::InvalidKey(
            "dytallix address derivation failed: "@ + err@,
        ),
        Ok(owner) => exists|record: RegistryNodeRecord, wallet: Result<WalletAuthorization>|
            is_record_of(record, owner@, peer_record, RegistryNodeStatus::Active, updated_at)
                && #[trigger] is_record_authorization(
                wallet,
                method,
                record,
                wallet_public_key,
                wallet_signer,
            ) && match wallet {
                Err(e) => r == Err::<RegisterNodeRequest, QlinkError>(e),
                Ok(wallet_authorization) => exists|device: Result<DeviceBindingAuthorization>|
                    #[trigger] is_device_binding(
                        device,
                        owner@,
                        peer_record,
                        device_public_key,
                        device_signer,
                    ) && match device {
                        Err(e) => r == Err::<RegisterNodeRequest, QlinkError>(e),
                        Ok(device_binding_authorization) => r == Ok::<
                            RegisterNodeRequest,
                            QlinkError,
                        >(
                            RegisterNodeRequest {
                                record,
                                wallet_authorization,
                                device_binding_authorization,
                            },
                        ),
                    },
            },
    }
}

/// Prepares to write the record of a peer, active from now on. `owner` is the
/// address that the wallet's key stands for, or why there is none.
pub fn write_record<F: Fn(&[u8]) -> Result<Vec<u8>, String>, G: Fn(&[u8]) -> Vec<u8>>(
    method: RegistryContractMethod,
    owner: Result<String, String>,
    wallet_public_key: &[u8],
    wallet_signer: F,
    peer_record: &PeerRecord,
    device_public_key: &DevicePublicKey,
    device_signer: G,
    updated_at: u64,
) -> (r: Result<RegisterNodeRequest>)
    requires
        forall|payload: &[u8]| #[trigger] call_requires(wallet_signer, (payload,)),
        forall|payload: &[u8]| #[trigger] call_requires(device_signer, (payload,)),
    ensures
        is_write_request(
            r,
            method,
            owner,
            wallet_public_key@,
            wallet_signer,
            *peer_record,
            *device_public_key,
            device_signer,
            updated_at,
        ),
{
    let owner = match owner {
        Ok(owner) => owner,
        Err(err) => {
            return Err(
                QlinkError::InvalidKey(join2("dytallix address derivation failed: ", err.as_str())),
            );
        },
    };
    let record = match RegistryNodeRecord::from_peer_record(
        owner.as_str(),
        peer_record,
        RegistryNodeStatus::Active,
        updated_at,
    ) {
        Ok(record) => record,
        Err(e) => {
            return Err(e);
        },
    };
    let wallet = WalletAuthorization::sign_record(
        method,
        &record,
        wallet_public_key,
        wallet_signer,
    );
    assert(is_record_authorization(wallet, method, record, wallet_public_key@, wallet_signer));
    match wallet {
        Err(e) => Err(e),
        Ok(wallet_authorization) => {
            let device = DeviceBindingAuthorization::sign(
                owner.as_str(),
                peer_record,
                device_public_key,
                device_signer,
            );
            assert(is_device_binding(
                device,
                owner@,
                *peer_record,
                *device_public_key,
                device_signer,
            ));
            match device {
                Err(e) => Err(e),
                Ok(device_binding_authorization) => Ok(
                    RegisterNodeRequest::new(
                        record,
                        wallet_authorization,
                        device_binding_authorization,
                    ),
                ),
            }
        },
    }
}

/// A request to revoke a node.
#[derive(Debug, Clone)]
pub struct RevokeNodeRequest {
    pub peer_id: String,
    pub block_time: u64,
    pub wallet_authorization: WalletAuthorization,
}

/// A revocation request as JSON.
pub open spec fn revoke_request_json(r: RevokeNodeRequest) -> Seq<char> {
    "{\"peer_id\":"@ + json_quoted(r.peer_id@) + json_raw_field(
        "block_time"@,
        decimal(r.block_time as nat),
    ) + json_text_field("actor_public_key_hex"@, r.wallet_authorization.actor_public_key_hex@)
        + json_text_field("actor_signature_hex"@, r.wallet_authorization.actor_signature_hex@)
        + "}"@
}

impl RevokeNodeRequest {
    pub fn to_json(&self) -> (s: String)
        ensures
            s@ == revoke_request_json(*self),
    {
        let mut s = "{\"peer_id\":".to_owned();
        let peer_id = json_string(self.peer_id.as_str());
        s.append(peer_id.as_str());
        let time = number_json(self.block_time);
        push_raw_field(&mut s, "block_time", time.as_str());
        push_text_field(
            &mut s,
            "actor_public_key_hex",
            self.wallet_authorization.actor_public_key_hex.as_str(),
        );
        push_text_field(
            &mut s,
            "actor_signature_hex",
            self.wallet_authorization.actor_signature_hex.as_str(),
        );
        s.append("}");
        s
    }
}

/// A request to look a node up.
#[derive(Debug, Clone)]
pub struct GetNodeRequest {
    pub peer_id: String,
}

/// A lookup request as JSON.
pub open spec fn get_request_json(peer_id: Seq<char>) -> Seq<char> {
    "{\"peer_id\":"@ + json_quoted(peer_id) + "}"@
}

impl GetNodeRequest {
    pub fn to_json(&self) -> (s: String)
        ensures
            s@ == get_request_json(self.peer_id@),
    {
        let mut s = "{\"peer_id\":".to_owned();
        let peer_id = json_string(self.peer_id.as_str());
        s.append(peer_id.as_str());
        s.append("}");
        s
    }
}

/// A contract method and its arguments in hexadecimal.
#[derive(Debug, Clone)]
pub struct EncodedContractCall {
    pub method: &'static str,
    pub args_hex: String,
}

/// The arguments of a call: the hexadecimal form of a request's JSON.
pub fn encode_contract_args(request_json: &str) -> (r: Result<String>)
    ensures
        r matches Ok(s) && s@ == hex_text(encode_utf8(request_json@)),
{
    Ok(hex_encode_bytes(request_json.as_bytes()))
}

pub fn encode_contract_call_args(method: RegistryContractMethod, request_json: &str) -> (r: Result<
    EncodedContractCall,
>)
    ensures
        r matches Ok(call) && call.method@ == method_name(method) && call.args_hex@ == hex_text(
            encode_utf8(request_json@),
        ),
{
    match encode_contract_args(request_json) {
        Ok(args_hex) => Ok(EncodedContractCall { method: method.as_str(), args_hex }),
        Err(e) => Err(e),
    }
}

/// The body with which a signed call is submitted, as a JSON object.
pub open spec fn submission_body(
    method: Seq<char>,
    contract_address: Seq<char>,
    args_hex: Seq<char>,
    signed_tx_json: Seq<char>,
) -> Seq<char> {
    "{\"address\":"@ + json_quoted(contract_address) + json_text_field("args"@, args_hex)
        + json_text_field("method"@, method) + json_raw_field(
        "signed_tx"@,
        signed_tx_json,
    ) + "}"@
}

/// The body with which a signed call is submitted; `signed_tx_json` is the JSON
/// form of the signed transaction.
pub fn contract_call_submission_body(
    method: RegistryContractMethod,
    contract_address: &str,
    args_hex: &str,
    signed_tx_json: &str,
) -> (s: String)
    ensures
        s@ == submission_body(
            method_name(method),
            contract_address@,
            args_hex@,
            signed_tx_json@,
        ),
{
    call_body(method.as_str(), contract_address, args_hex, signed_tx_json)
}

/// The body with which a signed call of a contract method is submitted.
pub(crate) fn call_body(
    method: &str,
    contract_address: &str,
    args_hex: &str,
    signed_tx_json: &str,
) -> (s: String)
    ensures
        s@ == submission_body(method@, contract_address@, args_hex@, signed_tx_json@),
{
    let mut s = "{\"address\":".to_owned();
    let address = json_string(contract_address);
    s.append(address.as_str());
    push_text_field(&mut s, "args", args_hex);
    push_text_field(&mut s, "method", method);
    push_raw_field(&mut s, "signed_tx", signed_tx_json);
    s.append("}");
    s
}

// ---------------------------------------------------------------------------
// Configuration
// ---------------------------------------------------------------------------

/// Which kind of record the registry binds a peer with.
#[derive(Debug, Clone, Copy, PartialEq, Eq, Structural)]
pub enum DytallixRegistryBindingVersion {
    ExactPeerRecordV1,
    StableIdentityV2,
}

impl Default for DytallixRegistryBindingVersion {
    fn default() -> (v: Self)
        ensures
            v == DytallixRegistryBindingVersion::ExactPeerRecordV1,
    {
        DytallixRegistryBindingVersion::ExactPeerRecordV1
    }
}

/// Where and what to look up, without a wallet.
#[derive(Debug, Clone)]
pub struct DytallixRegistryLookupConfig {
    pub endpoint: String,
    pub contract_address: String,
    pub binding_version: DytallixRegistryBindingVersion,
    pub network_id: Option<String>,
    pub chain_id: Option<String>,
    pub allowed_rpc_endpoints: Vec<String>,
}

/// Where to write, and with which wallet.
#[derive(Debug, Clone)]
pub struct DytallixRegistryConfig {
    pub endpoint: String,
    pub contract_address: String,
    pub keystore_path: String,
    pub wallet_name: Option<String>,
}

/// The digits of a contract address: what follows an optional `0x`.
pub open spec fn address_digits(raw: Seq<char>) -> Seq<char> {
    after_prefix(trimmed(raw), "0x"@)
}

/// Twenty bytes in hexadecimal.
pub open spec fn is_address(digits: Seq<char>) -> bool {
    digits.len() == 40 && is_hex_text(digits)
}

/// A contract address in its normal form, or the refusal of the text.
pub open spec fn normal_address(raw: Seq<char>) -> Result<Seq<char>, QlinkErrorView> {
    if is_address(address_digits(raw)) {
        Ok("0x"@ + address_digits(raw))
    } else {
        Err(
            QlinkErrorView::Protocol(
                "Invalid contract address `"@ + trimmed(raw)
                    + "`. Expected a 0x-prefixed 20-byte hex address."@,
            ),
        )
    }
}

pub fn normalize_contract_address(raw: &str) -> (r: Result<String>)
    ensures
        result_view(r) == normal_address(raw@),
{
    let trimmed_text = trim(raw);
    let digits = match strip_prefix(trimmed_text.as_str(), "0x") {
        Some(rest) => rest,
        None => trimmed_text.clone(),
    };
    if digits.as_str().unicode_len() != 40 || hex_decode_text(digits.as_str()).is_err() {
        let mut text = "Invalid contract address `".to_owned();
        text.append(trimmed_text.as_str());
        text.append("`. Expected a 0x-prefixed 20-byte hex address.");
        return Err(QlinkError::Protocol(text));
    }
    Ok(join2("0x", digits.as_str()))
}

/// A contract for lookups: the registry by its name, or an address.
pub open spec fn normal_identifier(raw: Seq<char>) -> Result<Seq<char>, QlinkErrorView> {
    if trimmed(raw) == "quantumlink-node-registry"@ {
        Ok("quantumlink-node-registry"@)
    } else {
        normal_address(trimmed(raw))
    }
}

pub fn normalize_lookup_contract_identifier(raw: &str) -> (r: Result<String>)
    ensures
        result_view(r) == normal_identifier(raw@),
{
    let trimmed_text = trim(raw);
    if same_text(trimmed_text.as_str(), "quantumlink-node-registry") {
        return Ok("quantumlink-node-registry".to_owned());
    }
    normalize_contract_address(trimmed_text.as_str())
}

/// A pin without white space around it, where anything is left.
pub open spec fn normal_pin(value: Option<Seq<char>>) -> Option<Seq<char>> {
    match value {
        Some(text) => if trimmed(text).len() == 0 {
            None
        } else {
            Some(trimmed(text))
        },
        None => None,
    }
}

pub fn normalize_optional_pin(value: Option<String>) -> (r: Option<String>)
    ensures
        optional_text(r) == normal_pin(optional_text(value)),
{
    match value {
        Some(text) => {
            let pin = trim(text.as_str());
            if pin.as_str().is_empty() {
                None
            } else {
                Some(pin)
            }
        },
        None => None,
    }
}

/// The characters of a list of strings.
pub open spec fn texts(v: Seq<String>) -> Seq<Seq<char>> {
    Seq::new(v.len(), |i: int| v[i]@)
}

/// The pins of a list that are not blank, in their order.
pub open spec fn normal_pins(endpoints: Seq<Seq<char>>) -> Seq<Seq<char>>
    decreases endpoints.len(),
{
    if endpoints.len() == 0 {
        Seq::empty()
    } else {
        match normal_pin(Some(endpoints.last())) {
            Some(pin) => normal_pins(endpoints.drop_last()).push(pin),
            None => normal_pins(endpoints.drop_last()),
        }
    }
}

pub fn normalize_endpoint_allowlist(endpoints: Vec<String>) -> (r: Vec<String>)
    ensures
        texts(r@) == normal_pins(texts(endpoints@)),
{
    let mut kept: Vec<String> = Vec::new();
    let ghost all = texts(endpoints@);
    let mut i: usize = 0;
    assert(all.subrange(0, 0) =~= Seq::empty());
    assert(texts(kept@) =~= Seq::empty());
    while i < endpoints.len()
        invariant
            i <= endpoints@.len(),
            all == texts(endpoints@),
            texts(kept@) == normal_pins(all.subrange(0, i as int)),
        decreases endpoints@.len() - i,
    {
        let ghost before = kept@;
        assert(all.subrange(0, i + 1).drop_last() =~= all.subrange(0, i as int));
        if let Some(pin) = normalize_optional_pin(Some(endpoints[i].clone())) {
            let ghost added = pin@;
            kept.push(pin);
            assert(texts(kept@) =~= texts(before).push(added));
        }
        i = i + 1;
    }
    assert(all.subrange(0, i as int) =~= all);
    kept
}

/// An endpoint in the form in which pins are compared.
pub open spec fn endpoint_pin(endpoint: Seq<char>) -> Seq<char> {
    lowered(without_trailing(trimmed(endpoint), '/'))
}

pub fn normalize_endpoint_pin(endpoint: &str) -> (s: String)
    ensures
        s@ == endpoint_pin(endpoint@),
{
    let trimmed_text = trim(endpoint);
    let bare = trim_trailing(trimmed_text.as_str(), '/');
    to_lower(bare.as_str())
}

/// An endpoint passes an allowlist that is empty or that names it.
pub open spec fn is_pinned(endpoint: Seq<char>, allowed: Seq<Seq<char>>) -> bool {
    allowed.len() == 0 || exists|i: int|
        0 <= i < allowed.len() && endpoint_pin(#[trigger] allowed[i]) == endpoint_pin(endpoint)
}

/// The refusal of an endpoint that its allowlist does not name.
pub open spec fn not_pinned(endpoint: Seq<char>) -> QlinkErrorView {
    QlinkErrorView::Protocol(
        "dytallix registry endpoint is not in the pinned allowlist: "@ + endpoint,
    )
}

/// Some pin of a list is that of the endpoint.
pub(crate) fn names_endpoint(allowed: &Vec<String>, endpoint: &str) -> (b: bool)
    ensures
        b == exists|i: int|
            0 <= i < allowed@.len() && endpoint_pin(#[trigger] texts(allowed@)[i]) == endpoint_pin(
                endpoint@,
            ),
{
    let pin = normalize_endpoint_pin(endpoint);
    let mut i: usize = 0;
    while i < allowed.len()
        invariant
            i <= allowed@.len(),
            pin@ == endpoint_pin(endpoint@),
            forall|j: int| 0 <= j < i ==> endpoint_pin(#[trigger] texts(allowed@)[j]) != pin@,
        decreases allowed@.len() - i,
    {
        let candidate = normalize_endpoint_pin(allowed[i].as_str());
        if same_text(candidate.as_str(), pin.as_str()) {
            assert(endpoint_pin(texts(allowed@)[i as int]) == pin@);
            return true;
        }
        i = i + 1;
    }
    false
}

impl DytallixRegistryConfig {
    pub fn new(
        endpoint: &str,
        contract_address: &str,
        keystore_path: &str,
        wallet_name: Option<String>,
    ) -> (r: Result<DytallixRegistryConfig>)
        ensures
            match normal_address(contract_address@) {
                Ok(address) => r matches Ok(c) && c.endpoint@ == endpoint@ && c.contract_address@
                    == address && c.keystore_path@ == keystore_path@ && c.wallet_name
                    == wallet_name,
                Err(why) => r matches Err(e) && e@ == why,
            },
    {
        match normalize_contract_address(contract_address) {
            Ok(contract_address) => Ok(
                DytallixRegistryConfig {
                    endpoint: endpoint.to_owned(),
                    contract_address,
                    keystore_path: keystore_path.to_owned(),
                    wallet_name,
                },
            ),
            Err(e) => Err(e),
        }
    }
}

impl DytallixRegistryLookupConfig {
    pub fn new(endpoint: &str, contract_address: &str) -> (r: Result<
        DytallixRegistryLookupConfig,
    >)
        ensures
            match normal_identifier(contract_address@) {
                Ok(address) => r matches Ok(c) && c.endpoint@ == endpoint@ && c.contract_address@
                    == address && c.binding_version
                    == DytallixRegistryBindingVersion::ExactPeerRecordV1 && c.network_id is None
                    && c.chain_id is None && c.allowed_rpc_endpoints@.len() == 0,
                Err(why) => r matches Err(e) && e@ == why,
            },
    {
        match normalize_lookup_contract_identifier(contract_address) {
            Ok(contract_address) => Ok(
                DytallixRegistryLookupConfig {
                    endpoint: endpoint.to_owned(),
                    contract_address,
                    binding_version: DytallixRegistryBindingVersion::ExactPeerRecordV1,
                    network_id: None,
                    chain_id: None,
                    allowed_rpc_endpoints: Vec::new(),
                },
            ),
            Err(e) => Err(e),
        }
    }

    /// Pins the network, the chain and the endpoints. The configured endpoint
    /// must be among the pinned ones, where there are any.
    pub fn with_network_pins(
        self,
        network_id: Option<String>,
        chain_id: Option<String>,
        allowed_rpc_endpoints: Vec<String>,
    ) -> (r: Result<DytallixRegistryLookupConfig>)
        ensures
            ({
                let pins = normal_pins(texts(allowed_rpc_endpoints@));
                if is_pinned(self.endpoint@, pins) {
                    r matches Ok(c) && c.endpoint == self.endpoint && c.contract_address
                        == self.contract_address && c.binding_version == self.binding_version
                        && optional_text(c.network_id) == normal_pin(optional_text(network_id))
                        && optional_text(c.chain_id) == normal_pin(optional_text(chain_id))
                        && texts(c.allowed_rpc_endpoints@) == pins
                } else {
                    r matches Err(e) && e@ == not_pinned(self.endpoint@)
                }
            }),
    {
        let config = DytallixRegistryLookupConfig {
            endpoint: self.endpoint,
            contract_address: self.contract_address,
            binding_version: self.binding_version,
            network_id: normalize_optional_pin(network_id),
            chain_id: normalize_optional_pin(chain_id),
            allowed_rpc_endpoints: normalize_endpoint_allowlist(allowed_rpc_endpoints),
        };
        match config.validate_endpoint_allowlist() {
            Ok(()) => Ok(config),
            Err(e) => Err(e),
        }
    }

    /// Chooses which contract the records are read from.
    pub fn with_binding_version(self, binding_version: DytallixRegistryBindingVersion) -> (c:
        DytallixRegistryLookupConfig)
        ensures
            c == (DytallixRegistryLookupConfig { binding_version, ..self }),
    {
        let mut config = self;
        config.binding_version = binding_version;
        config
    }

    pub fn validate_endpoint_allowlist(&self) -> (r: Result<()>)
        ensures
            is_pinned(self.endpoint@, texts(self.allowed_rpc_endpoints@)) ==> r is Ok,
            !is_pinned(self.endpoint@, texts(self.allowed_rpc_endpoints@)) ==> (r matches Err(e)
                && e@ == not_pinned(self.endpoint@)),
    {
        if self.allowed_rpc_endpoints.is_empty() {
            return Ok(());
        }
        if names_endpoint(&self.allowed_rpc_endpoints, self.endpoint.as_str()) {
            return Ok(());
        }
        Err(
            QlinkError::Protocol(
                join2(
                    "dytallix registry endpoint is not in the pinned allowlist: ",
                    self.endpoint.as_str(),
                ),
            ),
        )
    }

    /// The configuration that the fields of a configuration file stand for.
    pub fn from_fields(
        endpoint: &str,
        contract_address: &str,
        binding_version: DytallixRegistryBindingVersion,
        network_id: Option<String>,
        chain_id: Option<String>,
        allowed_rpc_endpoints: Vec<String>,
    ) -> (r: Result<DytallixRegistryLookupConfig>)
        ensures
            ({
                let pins = normal_pins(texts(allowed_rpc_endpoints@));
                match normal_identifier(contract_address@) {
                    Err(why) => r matches Err(e) && e@ == why,
                    Ok(address) => if is_pinned(endpoint@, pins) {
                        r matches Ok(c) && c.endpoint@ == endpoint@ && c.contract_address@
                            == address && c.binding_version == binding_version && optional_text(c.network_id)
                            == normal_pin(optional_text(network_id)) && optional_text(c.chain_id)
                            == normal_pin(optional_text(chain_id)) && texts(
                            c.allowed_rpc_endpoints@,
                        ) == pins
                    } else {
                        r matches Err(e) && e@ == not_pinned(endpoint@)
                    },
                }
            }),
    {
        match DytallixRegistryLookupConfig::new(endpoint, contract_address) {
            Ok(config) => {
                let mut config = config;
                config.binding_version = binding_version;
                config.with_network_pins(network_id, chain_id, allowed_rpc_endpoints)
            },
            Err(e) => Err(e),
        }
    }
}

// ---------------------------------------------------------------------------
// The registry client
// ---------------------------------------------------------------------------

/// What the registry contract answers. `events` holds the JSON of each event.
#[derive(Debug, Clone)]
pub struct RegistryQueryResponse {
    pub ok: bool,
    pub node: Option<RegistryNodeRecord>,
    pub events: Vec<String>,
    pub error: Option<String>,
}

pub type RegistryContractResponse = RegistryQueryResponse;

/// A submitted call: the transaction's hash, where the answer names one, and the
/// answer's JSON.
#[derive(Debug, Clone)]
pub struct RegistrySubmission {
    pub tx_hash: Option<String>,
    pub response: String,
}

/// A field of a JSON object: absent, a text, or some other value.
#[derive(Debug, Clone)]
pub enum JsonField {
    Absent,
    Text(String),
    Other,
}

/// The error that a contract gives, or a stand-in.
pub open spec fn contract_error(error: Option<String>) -> Seq<char> {
    match error {
        Some(text) => text@,
        None => "unknown contract error"@,
    }
}

fn contract_error_text(error: Option<String>) -> (s: String)
    ensures
        s@ == contract_error(error),
{
    match error {
        Some(text) => text,
        None => "unknown contract error".to_owned(),
    }
}

/// What a lookup's answer means: the node, where the registry has one.
pub fn lookup_outcome(response: RegistryQueryResponse) -> (r: Result<Option<RegistryNodeRecord>>)
    ensures
        response.ok ==> r == Ok::<Option<RegistryNodeRecord>, QlinkError>(response.node),
        !response.ok ==> (r matches Err(e) && e@ == QlinkErrorView::Protocol(
            "dytallix registry lookup failed: "@ + contract_error(response.error),
        )),
{
    if response.ok {
        Ok(response.node)
    } else {
        let reason = contract_error_text(response.error);
        Err(QlinkError::Protocol(join2("dytallix registry lookup failed: ", reason.as_str())))
    }
}

/// What a lookup of a stable identity means: the identity, where the registry has
/// one.
pub fn stable_lookup_outcome<T>(ok: bool, identity: Option<T>, error: Option<String>) -> (r: Result<
    Option<T>,
>)
    ensures
        ok ==> r == Ok::<Option<T>, QlinkError>(identity),
        !ok ==> (r matches Err(e) && e@ == QlinkErrorView::Protocol(
            "dytallix stable identity lookup failed: "@ + contract_error(error),
        )),
{
    if ok {
        Ok(identity)
    } else {
        let reason = contract_error_text(error);
        Err(
            QlinkError::Protocol(
                join2("dytallix stable identity lookup failed: ", reason.as_str()),
            ),
        )
    }
}

/// The bytes of a contract's answer where it comes wrapped as a hexadecimal
/// `result`; nothing where it does not. `response_kind` names the answer in the
/// refusal.
pub fn contract_result_bytes(result: &JsonField, response_kind: &str) -> (r: Result<
    Option<Vec<u8>>,
>)
    ensures
        match *result {
            JsonField::Text(text) => if is_hex_text(text@) {
                r matches Ok(Some(bytes)) && bytes@ == hex_bytes(text@)
            } else {
                r matches Err(e) && e@ == QlinkErrorView::Protocol(
                    "dytallix "@ + response_kind@ + " result is not valid hex: "@
                        + hex_decode_error(text@),
                )
            },
            _ => r matches Ok(None),
        },
{
    match result {
        JsonField::Text(text) => match hex_decode_text(text.as_str()) {
            Ok(bytes) => Ok(Some(bytes)),
            Err(err) => {
                let mut text = "dytallix ".to_owned();
                text.append(response_kind);
                text.append(" result is not valid hex: ");
                text.append(err.as_str());
                Err(QlinkError::Protocol(text))
            },
        },
        _ => Ok(None),
    }
}

/// The refusal of an answer that does not parse: inside a `result`, or as it
/// stands.
pub fn contract_json_refusal(wrapped: bool, response_kind: &str, reason: &str) -> (e: QlinkError)
    ensures
        wrapped ==> e@ == QlinkErrorView::Protocol(
            "dytallix "@ + response_kind@ + " result is not valid contract JSON: "@ + reason@,
        ),
        !wrapped ==> e@ == QlinkErrorView::Protocol(
            "dytallix "@ + response_kind@ + " response is not valid JSON: "@ + reason@,
        ),
{
    let mut text = "dytallix ".to_owned();
    text.append(response_kind);
    if wrapped {
        text.append(" result is not valid contract JSON: ");
    } else {
        text.append(" response is not valid JSON: ");
    }
    text.append(reason);
    QlinkError::Protocol(text)
}

/// Judges the answer to a submission. An answer with neither a `result` nor an
/// `ok` only acknowledges the call; any other must say that the contract took it.
/// `decoded` is what the answer parses to.
pub fn validate_registry_submission_response(
    has_result: bool,
    has_ok: bool,
    decoded: Result<RegistryQueryResponse>,
) -> (r: Result<()>)
    ensures
        !has_result && !has_ok ==> r is Ok,
        has_result || has_ok ==> match decoded {
            Err(why) => r matches Err(e) && e@ == why@,
            Ok(response) => if response.ok {
                r is Ok
            } else {
                r matches Err(e) && e@ == QlinkErrorView::Protocol(
                    "dytallix registry contract rejected request: "@ + contract_error(
                        response.error,
                    ),
                )
            },
        },
{
    if !has_result && !has_ok {
        return Ok(());
    }
    match decoded {
        Err(e) => Err(e),
        Ok(response) => if response.ok {
            Ok(())
        } else {
            let reason = contract_error_text(response.error);
            Err(
                QlinkError::Protocol(
                    join2("dytallix registry contract rejected request: ", reason.as_str()),
                ),
            )
        },
    }
}

/// The transaction's hash in an answer: `tx_hash`, or `hash` where that is
/// absent, and only where it is a text.
pub fn submission_tx_hash(tx_hash: JsonField, hash: JsonField) -> (r: Option<String>)
    ensures
        r == match tx_hash {
            JsonField::Text(text) => Some(text),
            JsonField::Other => None,
            JsonField::Absent => match hash {
                JsonField::Text(text) => Some(text),
                _ => None,
            },
        },
{
    match tx_hash {
        JsonField::Text(text) => Some(text),
        JsonField::Other => None,
        JsonField::Absent => match hash {
            JsonField::Text(text) => Some(text),
            _ => None,
        },
    }
}

/// A record from the registry, of either kind.
#[derive(Debug, Clone)]
pub enum RegistryIdentityLookupRecord {
    ExactPeerRecordV1(RegistryNodeRecord),
    StableIdentityV2(RegistryIdentityRecordV2),
}

/// The registry as a client sees it: what to look up and, with a wallet, how to
/// write.
#[derive(Debug, Clone)]
pub struct DytallixIdentityRegistry {
    pub lookup_config: DytallixRegistryLookupConfig,
    pub write_config: Option<DytallixRegistryConfig>,
}

/// The path of a query.
pub open spec fn query_path(
    contract_address: Seq<char>,
    method: Seq<char>,
    args_hex: Seq<char>,
) -> Seq<char> {
    "/api/contracts/"@ + contract_address + "/query/"@ + method + "?args="@ + args_hex
}

/// The text that an endpoint and a path make: one slash between them.
pub open spec fn joined_url(endpoint: Seq<char>, path: Seq<char>) -> Seq<char> {
    without_trailing(endpoint, '/') + if has_prefix(path, "/"@) {
        path
    } else {
        "/"@ + path
    }
}

/// The refusal of a write without a wallet.
pub open spec fn lookup_only_refusal() -> QlinkErrorView {
    QlinkErrorView::Protocol(
        "dytallix registry write requires wallet configuration; lookup-only registry was configured"@,
    )
}

impl DytallixIdentityRegistry {
    pub fn binding_version(&self) -> (v: DytallixRegistryBindingVersion)
        ensures
            v == self.lookup_config.binding_version,
    {
        self.lookup_config.binding_version
    }

    /// A registry that can be written to.
    pub fn new(config: DytallixRegistryConfig) -> (r: Result<DytallixIdentityRegistry>)
        ensures
            match normal_address(config.contract_address@) {
                Err(why) => r matches Err(e) && e@ == why,
                Ok(address) => r matches Ok(registry) && registry.lookup_config.endpoint@
                    == config.endpoint@ && registry.lookup_config.contract_address@ == address
                    && registry.lookup_config.binding_version
                    == DytallixRegistryBindingVersion::ExactPeerRecordV1
                    && registry.lookup_config.network_id is None
                    && registry.lookup_config.chain_id is None
                    && registry.lookup_config.allowed_rpc_endpoints@.len() == 0 && (
                registry.write_config matches Some(w) && w.endpoint == config.endpoint
                    && w.contract_address@ == address && w.keystore_path == config.keystore_path
                    && w.wallet_name == config.wallet_name),
            },
    {
        match normalize_contract_address(config.contract_address.as_str()) {
            Err(e) => Err(e),
            Ok(address) => {
                let lookup_config = DytallixRegistryLookupConfig {
                    endpoint: config.endpoint.clone(),
                    contract_address: address.clone(),
                    binding_version: DytallixRegistryBindingVersion::ExactPeerRecordV1,
                    network_id: None,
                    chain_id: None,
                    allowed_rpc_endpoints: Vec::new(),
                };
                let write_config = DytallixRegistryConfig {
                    endpoint: config.endpoint,
                    contract_address: address,
                    keystore_path: config.keystore_path,
                    wallet_name: config.wallet_name,
                };
                Ok(DytallixIdentityRegistry { lookup_config, write_config: Some(write_config) })
            },
        }
    }

    /// A registry that can only be read.
    pub fn from_lookup_config(config: DytallixRegistryLookupConfig) -> (r: Result<
        DytallixIdentityRegistry,
    >)
        ensures
            match normal_identifier(config.contract_address@) {
                Err(why) => r matches Err(e) && e@ == why,
                Ok(address) => r matches Ok(registry) && registry.write_config is None
                    && registry.lookup_config.endpoint == config.endpoint
                    && registry.lookup_config.contract_address@ == address
                    && registry.lookup_config.binding_version == config.binding_version
                    && registry.lookup_config.network_id == config.network_id
                    && registry.lookup_config.chain_id == config.chain_id
                    && registry.lookup_config.allowed_rpc_endpoints
                    == config.allowed_rpc_endpoints,
            },
    {
        match normalize_lookup_contract_identifier(config.contract_address.as_str()) {
            Err(e) => Err(e),
            Ok(address) => {
                let mut lookup_config = config;
                lookup_config.contract_address = address;
                Ok(DytallixIdentityRegistry { lookup_config, write_config: None })
            },
        }
    }

    /// What writing needs, where there is a wallet.
    pub fn write_config(&self) -> (r: Result<&DytallixRegistryConfig>)
        ensures
            match self.write_config {
                Some(config) => r matches Ok(c) && *c == config,
                None => r matches Err(e) && e@ == lookup_only_refusal(),
            },
    {
        match &self.write_config {
            Some(config) => Ok(config),
            None => Err(
                protocol(
                    "dytallix registry write requires wallet configuration; lookup-only registry was configured",
                ),
            ),
        }
    }

    /// The path with which a peer's record of this version is looked up.
    pub fn lookup_path(&self, version: DytallixRegistryBindingVersion, peer_id: &str) -> (path:
        String)
        ensures
            path@ == query_path(
                self.lookup_config.contract_address@,
                match version {
                    DytallixRegistryBindingVersion::ExactPeerRecordV1 => "get_node"@,
                    DytallixRegistryBindingVersion::StableIdentityV2 => "get_identity"@,
                },
                hex_text(encode_utf8(get_request_json(peer_id@))),
            ),
    {
        let request = GetNodeRequest { peer_id: peer_id.to_owned() };
        let json = request.to_json();
        let args_hex = hex_encode_bytes(json.as_str().as_bytes());
        let mut path = "/api/contracts/".to_owned();
        path.append(self.lookup_config.contract_address.as_str());
        path.append("/query/");
        match version {
            DytallixRegistryBindingVersion::ExactPeerRecordV1 => path.append("get_node"),
            DytallixRegistryBindingVersion::StableIdentityV2 => path.append("get_identity"),
        }
        path.append("?args=");
        path.append(args_hex.as_str());
        path
    }

    /// The URL of a path at the configured endpoint.
    pub fn url(&self, path: &str) -> (r: Result<String>)
        ensures
            match parsed_url(joined_url(self.lookup_config.endpoint@, path@)) {
                Ok(parts) => r matches Ok(url) && url@ == parts.0,
                Err(err) => r matches Err(e) && e@ == QlinkErrorView::Protocol(
                    "invalid dytallix endpoint URL: "@ + err,
                ),
            },
    {
        let mut text = trim_trailing(self.lookup_config.endpoint.as_str(), '/');
        if !starts_with(path, "/") {
            text.append("/");
        }
        text.append(path);
        assert(text@ =~= joined_url(self.lookup_config.endpoint@, path@));
        match parse_url(text.as_str()) {
            Ok(parts) => Ok(parts.0),
            Err(err) => Err(
                QlinkError::Protocol(join2("invalid dytallix endpoint URL: ", err.as_str())),
            ),
        }
    }
}

/// The refusal that wraps an error of the chain's client.
pub fn dytallix_sdk_error(reason: &str) -> (e: QlinkError)
    ensures
        e@ == QlinkErrorView::Protocol("dytallix SDK error: "@ + reason@),
{
    QlinkError::Protocol(join2("dytallix SDK error: ", reason))
}

/// The wallet to sign with: the configured one, or the active one.
pub fn select_wallet_name(configured: Option<&str>, active: Option<&str>) -> (r: Result<String>)
    ensures
        match (configured, active) {
            (Some(name), _) => r matches Ok(s) && s@ == name@,
            (None, Some(name)) => r matches Ok(s) && s@ == name@,
            (None, None) => r matches Err(e) && e@ == QlinkErrorView::Protocol(
                "dytallix keystore has no active wallet"@,
            ),
        },
{
    match configured {
        Some(name) => Ok(name.to_owned()),
        None => match active {
            Some(name) => Ok(name.to_owned()),
            None => Err(protocol("dytallix keystore has no active wallet")),
        },
    }
}

/// An enrolled wallet.
#[derive(Debug, Clone)]
pub struct DytallixEnrollmentWallet {
    pub keystore_path: String,
    pub wallet_name: String,
    pub wallet_address: String,
    pub created_wallet: bool,
}

/// What enrolment does to a keystore: which wallet it uses, whether it makes it
/// and whether it makes it the active one.
#[derive(Debug, Clone)]
pub struct EnrollmentPlan {
    pub wallet_name: String,
    pub create_wallet: bool,
    pub set_active: bool,
}

/// The wallet that enrolment uses.
pub open spec fn enrolled_name(configured: Option<&str>, active: Option<&str>) -> Seq<char> {
    match configured {
        Some(name) => name@,
        None => match active {
            Some(name) => name@,
            None => "quantumlink"@,
        },
    }
}

/// Plans enrolment: the configured wallet, else the active one, else one named
/// `quantumlink`. A wallet that is not in the keystore is made; the active wallet
/// is used as it is where no other was asked for.
pub fn plan_enrollment_wallet(
    configured: Option<&str>,
    existing: &Vec<String>,
    active: Option<&str>,
) -> (plan: EnrollmentPlan)
    ensures
        plan.wallet_name@ == enrolled_name(configured, active),
        plan.set_active == (configured is Some || active is None),
        plan.create_wallet == (plan.set_active && !texts(existing@).contains(
            plan.wallet_name@,
        )),
{
    let (name, set_active) = match configured {
        Some(name) => (name, true),
        None => match active {
            Some(name) => (name, false),
            None => ("quantumlink", true),
        },
    };
    let mut found = false;
    let mut i: usize = 0;
    while i < existing.len()
        invariant
            i <= existing@.len(),
            found == exists|j: int| 0 <= j < i && #[trigger] texts(existing@)[j] == name@,
        decreases existing@.len() - i,
    {
        if same_text(existing[i].as_str(), name) {
            assert(texts(existing@)[i as int] == name@);
            found = true;
        }
        i = i + 1;
    }
    EnrollmentPlan { wallet_name: name.to_owned(), create_wallet: set_active && !found, set_active }
}

/// The enrolled wallet; `address` is what deriving its address came to.
pub fn enrolled_wallet(
    keystore_path: &str,
    plan: &EnrollmentPlan,
    address: Result<String, String>,
) -> (r: Result<DytallixEnrollmentWallet>)
    ensures
        match address {
            Ok(text) => r matches Ok(w) && w.keystore_path@ == keystore_path@ && w.wallet_name@
                == plan.wallet_name@ && w.wallet_address@ == text@ && w.created_wallet
                == plan.create_wallet,
            Err(err) => r matches Err(e) && e@ == QlinkErrorView::InvalidKey(
                "dytallix address derivation failed: "@ + err@,
            ),
        },
{
    match address {
        Ok(wallet_address) => Ok(
            DytallixEnrollmentWallet {
                keystore_path: keystore_path.to_owned(),
                wallet_name: plan.wallet_name.clone(),
                wallet_address,
                created_wallet: plan.create_wallet,
            },
        ),
        Err(err) => Err(
            QlinkError::InvalidKey(join2("dytallix address derivation failed: ", err.as_str())),
        ),
    }
}

} // verus!
