//! Stable identities in the second registry contract: a record binds an owner to
//! a device key, without anything that a peer record renews.

use crate::bytes::push_all;
use crate::discovery::{DevicePublicKey, InboundIdentityAssertion, PeerRecord};
use crate::dytallix_identity::{
    WalletAuthorization, bytes_of, json_optional_number, json_optional_text, json_raw_field,
    json_text_field, number_json, optional_number_json, optional_text_json, push_raw_field,
    push_text_field, referred, sha256_text,
};
use crate::error::{Result, error_text};
use crate::outside::{hex_decode_error, hex_decode_text, hex_encode_bytes, sha256_digest};
use crate::text::{
    chars_of, decimal, hex_bytes, hex_text, is_hex_text, join2, join3, push_decimal, same_text,
    trim, trimmed,
};
use vstd::prelude::*;
use vstd::string::*;
use vstd::utf8::*;

verus! {

pub const STABLE_IDENTITY_SCHEMA_VERSION: u8 = 2;

pub const MIN_PEER_RECORD_TTL_SECONDS: u64 = 30;

pub const MAX_PEER_RECORD_TTL_SECONDS: u64 = 86_400;

/// The standing of an identity.
#[derive(Debug, Clone, Copy, PartialEq, Eq, Structural)]
pub enum RegistryIdentityStatusV2 {
    Active,
    Revoked,
    Suspended,
}

/// A stable identity in the registry.
#[derive(Debug, Clone, PartialEq, Eq)]
pub struct RegistryIdentityRecordV2 {
    pub schema_version: u8,
    pub peer_id: String,
    pub owner_daddr: String,
    pub device_public_key_hash_hex: String,
    pub node_signing_public_key_hash_hex: String,
    pub status: RegistryIdentityStatusV2,
    pub identity_revision: u64,
    pub authorization_expires_at: Option<u64>,
    pub max_peer_record_ttl_seconds: u64,
    pub mesh_scope_hash_hex: Option<String>,
    pub metadata_commitment_hex: Option<String>,
}

/// That a stable identity binds a peer.
#[derive(Debug, Clone, Copy, PartialEq, Eq, Structural)]
pub enum StableRegistryBindingDecisionV2 {
    Accepted,
}

/// Why a stable identity is refused.
#[derive(Debug, Clone, PartialEq, Eq)]
pub enum StableIdentityV2Error {
    UnsupportedSchemaVersion(u8),
    InvalidRecord(String),
    Missing,
    Revoked,
    Suspended,
    WrongDevice,
    WrongNodeSigningKey,
    AuthorizationExpired { expires_at: u64 },
    MissingSignedIssuedAt,
    InvalidPeerRecordTtl(String),
    PeerRecordTtlExceeded { actual_seconds: u64, maximum_seconds: u64 },
    InvalidPeerRecord(String),
    WrongMeshScope,
    WalletAuthorization(String),
    DeviceAuthorization(String),
}

/// The model of a [`StableIdentityV2Error`].
pub enum StableErrorView {
    UnsupportedSchemaVersion(u8),
    InvalidRecord(Seq<char>),
    Missing,
    Revoked,
    Suspended,
    WrongDevice,
    WrongNodeSigningKey,
    AuthorizationExpired { expires_at: u64 },
    MissingSignedIssuedAt,
    InvalidPeerRecordTtl(Seq<char>),
    PeerRecordTtlExceeded { actual_seconds: u64, maximum_seconds: u64 },
    InvalidPeerRecord(Seq<char>),
    WrongMeshScope,
    WalletAuthorization(Seq<char>),
    DeviceAuthorization(Seq<char>),
}

impl View for StableIdentityV2Error {
    type V = StableErrorView;

    open spec fn view(&self) -> StableErrorView {
        match self {
            StableIdentityV2Error::UnsupportedSchemaVersion(
                v,
            ) => StableErrorView::UnsupportedSchemaVersion(*v),
            StableIdentityV2Error::InvalidRecord(s) => StableErrorView::InvalidRecord(s@),
            StableIdentityV2Error::Missing => StableErrorView::Missing,
            StableIdentityV2Error::Revoked => StableErrorView::Revoked,
            StableIdentityV2Error::Suspended => StableErrorView::Suspended,
            StableIdentityV2Error::WrongDevice => StableErrorView::WrongDevice,
            StableIdentityV2Error::WrongNodeSigningKey => StableErrorView::WrongNodeSigningKey,
            StableIdentityV2Error::AuthorizationExpired {
                expires_at,
            } => StableErrorView::AuthorizationExpired { expires_at: *expires_at },
            StableIdentityV2Error::MissingSignedIssuedAt => StableErrorView::MissingSignedIssuedAt,
            StableIdentityV2Error::InvalidPeerRecordTtl(
                s,
            ) => StableErrorView::InvalidPeerRecordTtl(s@),
            StableIdentityV2Error::PeerRecordTtlExceeded {
                actual_seconds,
                maximum_seconds,
            } => StableErrorView::PeerRecordTtlExceeded {
                actual_seconds: *actual_seconds,
                maximum_seconds: *maximum_seconds,
            },
            StableIdentityV2Error::InvalidPeerRecord(s) => StableErrorView::InvalidPeerRecord(s@),
            StableIdentityV2Error::WrongMeshScope => StableErrorView::WrongMeshScope,
            StableIdentityV2Error::WalletAuthorization(s) => StableErrorView::WalletAuthorization(
                s@,
            ),
            StableIdentityV2Error::DeviceAuthorization(s) => StableErrorView::DeviceAuthorization(
                s@,
            ),
        }
    }
}

pub type StableIdentityV2Result<T> = std::result::Result<T, StableIdentityV2Error>;

/// The message that an error is shown with.
pub open spec fn stable_error_text(e: StableErrorView) -> Seq<char> {
    match e {
        StableErrorView::UnsupportedSchemaVersion(v) =>
            "unsupported Dytallix stable identity schema version "@ + decimal(v as nat),
        StableErrorView::InvalidRecord(s) => "invalid Dytallix stable identity record: "@ + s,
        StableErrorView::Missing => "Dytallix stable identity record is missing"@,
        StableErrorView::Revoked => "Dytallix stable identity is revoked"@,
        StableErrorView::Suspended => "Dytallix stable identity is suspended"@,
        StableErrorView::WrongDevice =>
            "Dytallix stable identity device binding does not match the peer record"@,
        StableErrorView::WrongNodeSigningKey =>
            "Dytallix stable identity node signing key does not match the peer record"@,
        StableErrorView::AuthorizationExpired { expires_at } =>
            "Dytallix stable identity authorization expired at "@ + decimal(expires_at as nat),
        StableErrorView::MissingSignedIssuedAt =>
            "peer record does not contain a signed issued_at_unix timestamp"@,
        StableErrorView::InvalidPeerRecordTtl(s) => "peer record TTL is invalid: "@ + s,
        StableErrorView::PeerRecordTtlExceeded { actual_seconds, maximum_seconds } =>
            "peer record TTL "@ + decimal(actual_seconds as nat) + "s exceeds registry maximum "@
            + decimal(maximum_seconds as nat) + "s"@,
        StableErrorView::InvalidPeerRecord(s) => "peer record is invalid: "@ + s,
        StableErrorView::WrongMeshScope =>
            "peer record mesh scope does not match the stable registry identity"@,
        StableErrorView::WalletAuthorization(s) => "wallet authorization is invalid: "@ + s,
        StableErrorView::DeviceAuthorization(s) => "device authorization is invalid: "@ + s,
    }
}

impl StableIdentityV2Error {
    pub fn to_string(&self) -> (s: String)
        ensures
            s@ == stable_error_text(self@),
    {
        match self {
            StableIdentityV2Error::UnsupportedSchemaVersion(v) => {
                let mut s = "unsupported Dytallix stable identity schema version ".to_owned();
                push_decimal(&mut s, *v as u64);
                s
            },
            StableIdentityV2Error::InvalidRecord(s) => join2(
                "invalid Dytallix stable identity record: ",
                s.as_str(),
            ),
            StableIdentityV2Error::Missing =>
                "Dytallix stable identity record is missing".to_owned(),
            StableIdentityV2Error::Revoked => "Dytallix stable identity is revoked".to_owned(),
            StableIdentityV2Error::Suspended => "Dytallix stable identity is suspended".to_owned(),
            StableIdentityV2Error::WrongDevice =>
                "Dytallix stable identity device binding does not match the peer record".to_owned(),
            StableIdentityV2Error::WrongNodeSigningKey =>
                "Dytallix stable identity node signing key does not match the peer record".to_owned(),
            StableIdentityV2Error::AuthorizationExpired { expires_at } => {
                let mut s = "Dytallix stable identity authorization expired at ".to_owned();
                push_decimal(&mut s, *expires_at);
                s
            },
            StableIdentityV2Error::MissingSignedIssuedAt =>
                "peer record does not contain a signed issued_at_unix timestamp".to_owned(),
            StableIdentityV2Error::InvalidPeerRecordTtl(s) => join2(
                "peer record TTL is invalid: ",
                s.as_str(),
            ),
            StableIdentityV2Error::PeerRecordTtlExceeded { actual_seconds, maximum_seconds } => {
                let mut s = "peer record TTL ".to_owned();
                push_decimal(&mut s, *actual_seconds);
                s.append("s exceeds registry maximum ");
                push_decimal(&mut s, *maximum_seconds);
                s.append("s");
                s
            },
            StableIdentityV2Error::InvalidPeerRecord(s) => join2(
                "peer record is invalid: ",
                s.as_str(),
            ),
            StableIdentityV2Error::WrongMeshScope =>
                "peer record mesh scope does not match the stable registry identity".to_owned(),
            StableIdentityV2Error::WalletAuthorization(s) => join2(
                "wallet authorization is invalid: ",
                s.as_str(),
            ),
            StableIdentityV2Error::DeviceAuthorization(s) => join2(
                "device authorization is invalid: ",
                s.as_str(),
            ),
        }
    }
}

fn invalid_record(text: &str) -> (e: StableIdentityV2Error)
    ensures
        e@ == StableErrorView::InvalidRecord(text@),
{
    StableIdentityV2Error::InvalidRecord(text.to_owned())
}

// ---------------------------------------------------------------------------
// Validity of a record
// ---------------------------------------------------------------------------

/// Sixty-four lowercase hexadecimal digits.
pub open spec fn is_sha256_text(s: Seq<char>) -> bool {
    s.len() == 64 && forall|i: int|
        0 <= i < s.len() ==> ('0' <= #[trigger] s[i] <= '9' || 'a' <= s[i] <= 'f')
}

/// The refusal of a field that is no such digest.
pub open spec fn not_sha256(field: Seq<char>) -> StableErrorView {
    StableErrorView::InvalidRecord(field + " must be 32-byte lowercase hexadecimal"@)
}

pub fn require_sha256_hex(field: &str, value: &str) -> (r: StableIdentityV2Result<()>)
    ensures
        is_sha256_text(value@) ==> r is Ok,
        !is_sha256_text(value@) ==> (r matches Err(e) && e@ == not_sha256(field@)),
{
    let v = chars_of(value);
    let mut good = v.len() == 64;
    let mut i: usize = 0;
    while i < v.len()
        invariant
            i <= v@.len(),
            good == (v@.len() == 64 && forall|j: int|
                0 <= j < i ==> ('0' <= #[trigger] v@[j] <= '9' || 'a' <= v@[j] <= 'f')),
        decreases v@.len() - i,
    {
        let c: char = v[i];
        if !(('0' <= c && c <= '9') || ('a' <= c && c <= 'f')) {
            good = false;
        }
        i = i + 1;
    }
    if good {
        Ok(())
    } else {
        Err(
            StableIdentityV2Error::InvalidRecord(
                join2(field, " must be 32-byte lowercase hexadecimal"),
            ),
        )
    }
}

/// The first rule that a record breaks, if it breaks one. `owner_error` is why the
/// owner's address does not parse, where it does not.
pub open spec fn record_refusal(
    r: RegistryIdentityRecordV2,
    owner_error: Option<Seq<char>>,
) -> Option<StableErrorView> {
    if r.schema_version != STABLE_IDENTITY_SCHEMA_VERSION {
        Some(StableErrorView::UnsupportedSchemaVersion(r.schema_version))
    } else if trimmed(r.peer_id@).len() == 0 {
        Some(StableErrorView::InvalidRecord("peer_id must not be empty"@))
    } else if owner_error is Some {
        Some(StableErrorView::InvalidRecord("owner_daddr is invalid: "@ + owner_error->0))
    } else if !is_sha256_text(r.device_public_key_hash_hex@) {
        Some(not_sha256("device_public_key_hash_hex"@))
    } else if !is_sha256_text(r.node_signing_public_key_hash_hex@) {
        Some(not_sha256("node_signing_public_key_hash_hex"@))
    } else if r.identity_revision == 0 {
        Some(StableErrorView::InvalidRecord("identity_revision must be greater than zero"@))
    } else if r.authorization_expires_at == Some(0u64) {
        Some(
            StableErrorView::InvalidRecord(
                "authorization_expires_at must be greater than zero when present"@,
            ),
        )
    } else if !(MIN_PEER_RECORD_TTL_SECONDS <= r.max_peer_record_ttl_seconds
        <= MAX_PEER_RECORD_TTL_SECONDS) {
        Some(
            StableErrorView::InvalidRecord(
                "max_peer_record_ttl_seconds must be between 30 and 86400"@,
            ),
        )
    } else if r.mesh_scope_hash_hex matches Some(hash) && !is_sha256_text(hash@) {
        Some(not_sha256("mesh_scope_hash_hex"@))
    } else if r.metadata_commitment_hex matches Some(hash) && !is_sha256_text(hash@) {
        Some(not_sha256("metadata_commitment_hex"@))
    } else {
        None
    }
}

/// The view of an optional reason.
pub open spec fn reason_view(reason: Option<&str>) -> Option<Seq<char>> {
    match reason {
        Some(text) => Some(text@),
        None => None,
    }
}

/// The outcome of a check that is refused or passed.
pub open spec fn is_verdict(r: StableIdentityV2Result<()>, refusal: Option<StableErrorView>) -> bool {
    match refusal {
        Some(why) => r matches Err(e) && e@ == why,
        None => r is Ok,
    }
}

impl RegistryIdentityRecordV2 {
    /// Holds the record to the rules of its schema. `owner_error` is why the
    /// owner's address does not parse, where it does not.
    pub fn validate(&self, owner_error: Option<&str>) -> (r: StableIdentityV2Result<()>)
        ensures
            is_verdict(r, record_refusal(*self, reason_view(owner_error))),
    {
        if self.schema_version != STABLE_IDENTITY_SCHEMA_VERSION {
            return Err(StableIdentityV2Error::UnsupportedSchemaVersion(self.schema_version));
        }
        let peer_id = trim(self.peer_id.as_str());
        if peer_id.as_str().is_empty() {
            return Err(invalid_record("peer_id must not be empty"));
        }
        if let Some(err) = owner_error {
            return Err(
                StableIdentityV2Error::InvalidRecord(join2("owner_daddr is invalid: ", err)),
            );
        }
        if let Err(e) = require_sha256_hex(
            "device_public_key_hash_hex",
            self.device_public_key_hash_hex.as_str(),
        ) {
            return Err(e);
        }
        if let Err(e) = require_sha256_hex(
            "node_signing_public_key_hash_hex",
            self.node_signing_public_key_hash_hex.as_str(),
        ) {
            return Err(e);
        }
        if self.identity_revision == 0 {
            return Err(invalid_record("identity_revision must be greater than zero"));
        }
        if let Some(expires_at) = self.authorization_expires_at {
            if expires_at == 0 {
                return Err(
                    invalid_record(
                        "authorization_expires_at must be greater than zero when present",
                    ),
                );
            }
        }
        if self.max_peer_record_ttl_seconds < MIN_PEER_RECORD_TTL_SECONDS
            || self.max_peer_record_ttl_seconds > MAX_PEER_RECORD_TTL_SECONDS {
            return Err(invalid_record("max_peer_record_ttl_seconds must be between 30 and 86400"));
        }
        if let Some(hash) = &self.mesh_scope_hash_hex {
            if let Err(e) = require_sha256_hex("mesh_scope_hash_hex", hash.as_str()) {
                return Err(e);
            }
        }
        if let Some(hash) = &self.metadata_commitment_hex {
            if let Err(e) = require_sha256_hex("metadata_commitment_hex", hash.as_str()) {
                return Err(e);
            }
        }
        Ok(())
    }
}

// ---------------------------------------------------------------------------
// Hashes and payloads
// ---------------------------------------------------------------------------

fn sha256_hex_text(bytes: &[u8]) -> (s: String)
    ensures
        s@ == sha256_text(bytes@),
{
    let digest = sha256_digest(bytes);
    hex_encode_bytes(digest.as_slice())
}

pub fn device_public_key_hash_hex(device_public_key: &DevicePublicKey) -> (r:
    StableIdentityV2Result<String>)
    ensures
        r matches Ok(s) && s@ == sha256_text(device_public_key.json@),
{
    Ok(sha256_hex_text(device_public_key.json.as_slice()))
}

/// The hash that scopes an identity to a mesh: under a domain of its own, with a
/// zero byte between the domain and the mesh.
pub open spec fn scope_hash(mesh_scope: Seq<char>) -> Seq<char> {
    sha256_text(
        encode_utf8("QuantumLink Dytallix stable identity mesh scope v2"@).push(0u8) + encode_utf8(
            mesh_scope,
        ),
    )
}

pub fn mesh_scope_hash_hex(mesh_scope: &str) -> (s: String)
    ensures
        s@ == scope_hash(mesh_scope@),
{
    let mut message = bytes_of("QuantumLink Dytallix stable identity mesh scope v2");
    message.push(0);
    push_all(&mut message, mesh_scope.as_bytes());
    sha256_hex_text(message.as_slice())
}

/// The name of a standing on the wire.
pub open spec fn identity_status_name(status: RegistryIdentityStatusV2) -> Seq<char> {
    match status {
        RegistryIdentityStatusV2::Active => "active"@,
        RegistryIdentityStatusV2::Revoked => "revoked"@,
        RegistryIdentityStatusV2::Suspended => "suspended"@,
    }
}

fn identity_status_str(status: RegistryIdentityStatusV2) -> (s: &'static str)
    ensures
        s@ == identity_status_name(status),
{
    match status {
        RegistryIdentityStatusV2::Active => "active",
        RegistryIdentityStatusV2::Revoked => "revoked",
        RegistryIdentityStatusV2::Suspended => "suspended",
    }
}

/// A stable identity as JSON: its eleven fields in their order.
pub open spec fn identity_json(r: RegistryIdentityRecordV2) -> Seq<char> {
    "{\"schema_version\":"@ + decimal(r.schema_version as nat) + json_text_field(
        "peer_id"@,
        r.peer_id@,
    ) + json_text_field("owner_daddr"@, r.owner_daddr@) + json_text_field(
        "device_public_key_hash_hex"@,
        r.device_public_key_hash_hex@,
    ) + json_text_field(
        "node_signing_public_key_hash_hex"@,
        r.node_signing_public_key_hash_hex@,
    ) + json_text_field("status"@, identity_status_name(r.status)) + json_raw_field(
        "identity_revision"@,
        decimal(r.identity_revision as nat),
    ) + json_raw_field(
        "authorization_expires_at"@,
        json_optional_number(r.authorization_expires_at),
    ) + json_raw_field(
        "max_peer_record_ttl_seconds"@,
        decimal(r.max_peer_record_ttl_seconds as nat),
    ) + json_raw_field("mesh_scope_hash_hex"@, json_optional_text(r.mesh_scope_hash_hex))
        + json_raw_field("metadata_commitment_hex"@, json_optional_text(r.metadata_commitment_hex))
        + "}"@
}

impl RegistryIdentityRecordV2 {
    pub fn to_json(&self) -> (s: String)
        ensures
            s@ == identity_json(*self),
    {
        let mut s = "{\"schema_version\":".to_owned();
        push_decimal(&mut s, self.schema_version as u64);
        push_text_field(&mut s, "peer_id", self.peer_id.as_str());
        push_text_field(&mut s, "owner_daddr", self.owner_daddr.as_str());
        push_text_field(
            &mut s,
            "device_public_key_hash_hex",
            self.device_public_key_hash_hex.as_str(),
        );
        push_text_field(
            &mut s,
            "node_signing_public_key_hash_hex",
            self.node_signing_public_key_hash_hex.as_str(),
        );
        push_text_field(&mut s, "status", identity_status_str(self.status));
        let revision = number_json(self.identity_revision);
        push_raw_field(&mut s, "identity_revision", revision.as_str());
        let expires = optional_number_json(self.authorization_expires_at);
        push_raw_field(&mut s, "authorization_expires_at", expires.as_str());
        let ttl = number_json(self.max_peer_record_ttl_seconds);
        push_raw_field(&mut s, "max_peer_record_ttl_seconds", ttl.as_str());
        let scope = optional_text_json(&self.mesh_scope_hash_hex);
        push_raw_field(&mut s, "mesh_scope_hash_hex", scope.as_str());
        let metadata = optional_text_json(&self.metadata_commitment_hex);
        push_raw_field(&mut s, "metadata_commitment_hex", metadata.as_str());
        s.append("}");
        s
    }
}

/// What an authorization is for.
#[derive(Debug, Clone, Copy, PartialEq, Eq, Structural)]
pub enum RegistryIdentityOperationV2 {
    Register,
    Update,
}

/// The contract method of an operation.
pub open spec fn operation_method(operation: RegistryIdentityOperationV2) -> Seq<char> {
    match operation {
        RegistryIdentityOperationV2::Register => "register_identity"@,
        RegistryIdentityOperationV2::Update => "update_identity"@,
    }
}

impl RegistryIdentityOperationV2 {
    pub fn contract_method(self) -> (s: &'static str)
        ensures
            s@ == operation_method(self),
    {
        match self {
            RegistryIdentityOperationV2::Register => "register_identity",
            RegistryIdentityOperationV2::Update => "update_identity",
        }
    }
}

/// What a wallet signs, as JSON.
pub open spec fn wallet_payload(
    operation: RegistryIdentityOperationV2,
    record: RegistryIdentityRecordV2,
) -> Seq<char> {
    "{\"contract\":\"quantumlink-node-registry-v2\",\"schema_version\":2"@ + json_text_field(
        "operation"@,
        operation_method(operation),
    ) + json_raw_field("record"@, identity_json(record)) + "}"@
}

/// What a device signs, as JSON: the same for every operation.
pub open spec fn device_payload(record: RegistryIdentityRecordV2) -> Seq<char> {
    "{\"contract\":\"quantumlink-node-registry-v2\",\"schema_version\":2"@ + json_text_field(
        "purpose"@,
        "authorize-stable-identity-binding"@,
    ) + json_raw_field("binding"@, identity_json(record)) + "}"@
}

fn wallet_payload_bytes(
    operation: RegistryIdentityOperationV2,
    record: &RegistryIdentityRecordV2,
) -> (v: Vec<u8>)
    ensures
        v@ == encode_utf8(wallet_payload(operation, *record)),
{
    let mut s =
        "{\"contract\":\"quantumlink-node-registry-v2\",\"schema_version\":2".to_owned();
    push_text_field(&mut s, "operation", operation.contract_method());
    let json = record.to_json();
    push_raw_field(&mut s, "record", json.as_str());
    s.append("}");
    bytes_of(s.as_str())
}

fn device_payload_bytes(record: &RegistryIdentityRecordV2) -> (v: Vec<u8>)
    ensures
        v@ == encode_utf8(device_payload(*record)),
{
    let mut s =
        "{\"contract\":\"quantumlink-node-registry-v2\",\"schema_version\":2".to_owned();
    push_text_field(&mut s, "purpose", "authorize-stable-identity-binding");
    let json = record.to_json();
    push_raw_field(&mut s, "binding", json.as_str());
    s.append("}");
    bytes_of(s.as_str())
}

pub fn canonical_wallet_payload_bytes(
    operation: RegistryIdentityOperationV2,
    record: &RegistryIdentityRecordV2,
    owner_error: Option<&str>,
) -> (r: StableIdentityV2Result<Vec<u8>>)
    ensures
        match record_refusal(*record, reason_view(owner_error)) {
            Some(why) => r matches Err(e) && e@ == why,
            None => r matches Ok(v) && v@ == encode_utf8(wallet_payload(operation, *record)),
        },
{
    match record.validate(owner_error) {
        Ok(()) => Ok(wallet_payload_bytes(operation, record)),
        Err(e) => Err(e),
    }
}

pub fn canonical_device_payload_bytes(
    _operation: RegistryIdentityOperationV2,
    record: &RegistryIdentityRecordV2,
    owner_error: Option<&str>,
) -> (r: StableIdentityV2Result<Vec<u8>>)
    ensures
        match record_refusal(*record, reason_view(owner_error)) {
            Some(why) => r matches Err(e) && e@ == why,
            None => r matches Ok(v) && v@ == encode_utf8(device_payload(*record)),
        },
{
    match record.validate(owner_error) {
        Ok(()) => Ok(device_payload_bytes(record)),
        Err(e) => Err(e),
    }
}

// ---------------------------------------------------------------------------
// Making a record
// ---------------------------------------------------------------------------

/// The fields of an identity that was made from a device key.
pub open spec fn is_identity_of(
    r: RegistryIdentityRecordV2,
    owner_daddr: Seq<char>,
    key: DevicePublicKey,
    status: RegistryIdentityStatusV2,
    identity_revision: u64,
    authorization_expires_at: Option<u64>,
    max_peer_record_ttl_seconds: u64,
    mesh_scope: Option<Seq<char>>,
    metadata_commitment_hex: Option<String>,
) -> bool {
    &&& r.schema_version == STABLE_IDENTITY_SCHEMA_VERSION
    &&& r.peer_id@ == key.peer_id@
    &&& r.owner_daddr@ == owner_daddr
    &&& r.device_public_key_hash_hex@ == sha256_text(key.json@)
    &&& r.node_signing_public_key_hash_hex@ == sha256_text(key.json@)
    &&& r.status == status
    &&& r.identity_revision == identity_revision
    &&& r.authorization_expires_at == authorization_expires_at
    &&& r.max_peer_record_ttl_seconds == max_peer_record_ttl_seconds
    &&& match mesh_scope {
        Some(scope) => r.mesh_scope_hash_hex matches Some(hash) && hash@ == scope_hash(scope),
        None => r.mesh_scope_hash_hex is None,
    }
    &&& r.metadata_commitment_hex == metadata_commitment_hex
}

/// The mesh that an identity is scoped to, where it is scoped.
pub open spec fn bound_scope(bind_mesh_scope: bool, mesh_id: Seq<char>) -> Option<Seq<char>> {
    if bind_mesh_scope {
        Some(mesh_id)
    } else {
        None
    }
}

impl RegistryIdentityRecordV2 {
    /// The identity of a device key under an owner, if it keeps the schema's
    /// rules.
    pub fn from_device_public_key(
        owner_daddr: &str,
        device_public_key: &DevicePublicKey,
        status: RegistryIdentityStatusV2,
        identity_revision: u64,
        authorization_expires_at: Option<u64>,
        max_peer_record_ttl_seconds: u64,
        mesh_scope: Option<&str>,
        metadata_commitment_hex: Option<String>,
        owner_error: Option<&str>,
    ) -> (r: StableIdentityV2Result<RegistryIdentityRecordV2>)
        ensures
            exists|made: RegistryIdentityRecordV2|
                #[trigger] is_identity_of(
                    made,
                    owner_daddr@,
                    *device_public_key,
                    status,
                    identity_revision,
                    authorization_expires_at,
                    max_peer_record_ttl_seconds,
                    reason_view(mesh_scope),
                    metadata_commitment_hex,
                ) && match record_refusal(made, reason_view(owner_error)) {
                    Some(why) => r matches Err(e) && e@ == why,
                    None => r == Ok::<RegistryIdentityRecordV2, StableIdentityV2Error>(made),
                },
    {
        let hash = sha256_hex_text(device_public_key.json.as_slice());
        let mesh_scope_hash = match mesh_scope {
            Some(scope) => Some(mesh_scope_hash_hex(scope)),
            None => None,
        };
        let record = RegistryIdentityRecordV2 {
            schema_version: STABLE_IDENTITY_SCHEMA_VERSION,
            peer_id: device_public_key.peer_id.clone(),
            owner_daddr: owner_daddr.to_owned(),
            device_public_key_hash_hex: hash.clone(),
            node_signing_public_key_hash_hex: hash,
            status,
            identity_revision,
            authorization_expires_at,
            max_peer_record_ttl_seconds,
            mesh_scope_hash_hex: mesh_scope_hash,
            metadata_commitment_hex,
        };
        assert(is_identity_of(
            record,
            owner_daddr@,
            *device_public_key,
            status,
            identity_revision,
            authorization_expires_at,
            max_peer_record_ttl_seconds,
            reason_view(mesh_scope),
            metadata_commitment_hex,
        ));
        match record.validate(owner_error) {
            Ok(()) => Ok(record),
            Err(e) => Err(e),
        }
    }

    /// The identity of the device that a peer record names, scoped to the
    /// record's mesh where that is asked for.
    pub fn from_peer_record(
        owner_daddr: &str,
        peer_record: &PeerRecord,
        status: RegistryIdentityStatusV2,
        identity_revision: u64,
        authorization_expires_at: Option<u64>,
        max_peer_record_ttl_seconds: u64,
        bind_mesh_scope: bool,
        metadata_commitment_hex: Option<String>,
        owner_error: Option<&str>,
    ) -> (r: StableIdentityV2Result<RegistryIdentityRecordV2>)
        ensures
            peer_record.body.peer_id@ != peer_record.body.device_public_key.peer_id@ ==> (
            r matches Err(e) && e@ == StableErrorView::WrongDevice),
            peer_record.body.peer_id@ == peer_record.body.device_public_key.peer_id@ ==> exists|
                made: RegistryIdentityRecordV2,
            |
                #[trigger] is_identity_of(
                    made,
                    owner_daddr@,
                    peer_record.body.device_public_key,
                    status,
                    identity_revision,
                    authorization_expires_at,
                    max_peer_record_ttl_seconds,
                    bound_scope(bind_mesh_scope, peer_record.body.mesh_id@),
                    metadata_commitment_hex,
                ) && match record_refusal(made, reason_view(owner_error)) {
                    Some(why) => r matches Err(e) && e@ == why,
                    None => r == Ok::<RegistryIdentityRecordV2, StableIdentityV2Error>(made),
                },
    {
        if !same_text(
            peer_record.body.peer_id.as_str(),
            peer_record.body.device_public_key.peer_id.as_str(),
        ) {
            return Err(StableIdentityV2Error::WrongDevice);
        }
        let scope = if bind_mesh_scope {
            Some(peer_record.body.mesh_id.as_str())
        } else {
            None
        };
        RegistryIdentityRecordV2::from_device_public_key(
            owner_daddr,
            &peer_record.body.device_public_key,
            status,
            identity_revision,
            authorization_expires_at,
            max_peer_record_ttl_seconds,
            scope,
            metadata_commitment_hex,
            owner_error,
        )
    }
}

// ---------------------------------------------------------------------------
// Verdicts
// ---------------------------------------------------------------------------

/// Why a peer record is not believed at a time, if it is not.
pub open spec fn peer_record_refusal(p: PeerRecord, time_unix: u64) -> Option<StableErrorView> {
    if p.body.expires_at_unix <= time_unix {
        Some(StableErrorView::InvalidPeerRecord("record has expired"@))
    } else if p.body.device_public_key.peer_id@ != p.body.peer_id@ {
        Some(
            StableErrorView::InvalidPeerRecord(
                "peer_id does not match the signed device public key"@,
            ),
        )
    } else if p.signature_error is Some {
        Some(StableErrorView::InvalidPeerRecord("peer record signature verification failed"@))
    } else {
        None
    }
}

pub fn verify_peer_record_signature(peer_record: &PeerRecord, verification_time_unix: u64) -> (r:
    StableIdentityV2Result<()>)
    ensures
        is_verdict(r, peer_record_refusal(*peer_record, verification_time_unix)),
{
    if peer_record.body.expires_at_unix <= verification_time_unix {
        return Err(StableIdentityV2Error::InvalidPeerRecord("record has expired".to_owned()));
    }
    if !same_text(
        peer_record.body.device_public_key.peer_id.as_str(),
        peer_record.body.peer_id.as_str(),
    ) {
        return Err(
            StableIdentityV2Error::InvalidPeerRecord(
                "peer_id does not match the signed device public key".to_owned(),
            ),
        );
    }
    match &peer_record.signature_error {
        Some(_) => Err(
            StableIdentityV2Error::InvalidPeerRecord(
                "peer record signature verification failed".to_owned(),
            ),
        ),
        None => Ok(()),
    }
}

/// Why an identity is not in force at a time, if it is not.
pub open spec fn in_force_refusal(r: RegistryIdentityRecordV2, time_unix: u64) -> Option<
    StableErrorView,
> {
    match r.status {
        RegistryIdentityStatusV2::Revoked => Some(StableErrorView::Revoked),
        RegistryIdentityStatusV2::Suspended => Some(StableErrorView::Suspended),
        RegistryIdentityStatusV2::Active => match r.authorization_expires_at {
            Some(expires_at) => if expires_at <= time_unix {
                Some(StableErrorView::AuthorizationExpired { expires_at })
            } else {
                None
            },
            None => None,
        },
    }
}

pub fn require_active_and_unexpired(
    record: &RegistryIdentityRecordV2,
    verification_time_unix: u64,
) -> (r: StableIdentityV2Result<()>)
    ensures
        is_verdict(r, in_force_refusal(*record, verification_time_unix)),
{
    match record.status {
        RegistryIdentityStatusV2::Active => {},
        RegistryIdentityStatusV2::Revoked => {
            return Err(StableIdentityV2Error::Revoked);
        },
        RegistryIdentityStatusV2::Suspended => {
            return Err(StableIdentityV2Error::Suspended);
        },
    }
    if let Some(expires_at) = record.authorization_expires_at {
        if expires_at <= verification_time_unix {
            return Err(StableIdentityV2Error::AuthorizationExpired { expires_at });
        }
    }
    Ok(())
}

/// Why an identity does not fit a peer, a key and a mesh, if it does not.
pub open spec fn key_refusal(
    r: RegistryIdentityRecordV2,
    peer_id: Seq<char>,
    key_json: Seq<u8>,
    mesh_id: Seq<char>,
) -> Option<StableErrorView> {
    if r.peer_id@ != peer_id {
        Some(StableErrorView::WrongDevice)
    } else if r.device_public_key_hash_hex@ != sha256_text(key_json) {
        Some(StableErrorView::WrongDevice)
    } else if r.node_signing_public_key_hash_hex@ != sha256_text(key_json) {
        Some(StableErrorView::WrongNodeSigningKey)
    } else if r.mesh_scope_hash_hex matches Some(expected) && expected@ != scope_hash(mesh_id) {
        Some(StableErrorView::WrongMeshScope)
    } else {
        None
    }
}

fn require_key(
    record: &RegistryIdentityRecordV2,
    peer_id: &str,
    key: &DevicePublicKey,
    mesh_id: &str,
) -> (r: StableIdentityV2Result<()>)
    ensures
        is_verdict(r, key_refusal(*record, peer_id@, key.json@, mesh_id@)),
{
    if !same_text(record.peer_id.as_str(), peer_id) {
        return Err(StableIdentityV2Error::WrongDevice);
    }
    let hash = sha256_hex_text(key.json.as_slice());
    if !same_text(record.device_public_key_hash_hex.as_str(), hash.as_str()) {
        return Err(StableIdentityV2Error::WrongDevice);
    }
    if !same_text(record.node_signing_public_key_hash_hex.as_str(), hash.as_str()) {
        return Err(StableIdentityV2Error::WrongNodeSigningKey);
    }
    if let Some(expected) = &record.mesh_scope_hash_hex {
        let scope = mesh_scope_hash_hex(mesh_id);
        if !same_text(expected.as_str(), scope.as_str()) {
            return Err(StableIdentityV2Error::WrongMeshScope);
        }
    }
    Ok(())
}

/// Why a peer record's lifetime is refused, if it is: it must be positive and
/// within what the identity allows.
pub open spec fn ttl_refusal(
    r: RegistryIdentityRecordV2,
    expires_at_unix: u64,
    issued_at_unix: u64,
) -> Option<StableErrorView> {
    if expires_at_unix <= issued_at_unix {
        Some(
            StableErrorView::InvalidPeerRecordTtl(
                "expires_at_unix must be greater than signed issued_at_unix"@,
            ),
        )
    } else if expires_at_unix - issued_at_unix > r.max_peer_record_ttl_seconds {
        Some(
            StableErrorView::PeerRecordTtlExceeded {
                actual_seconds: (expires_at_unix - issued_at_unix) as u64,
                maximum_seconds: r.max_peer_record_ttl_seconds,
            },
        )
    } else {
        None
    }
}

/// Why an identity does not bind a peer record issued at a time, if it does not.
pub open spec fn bound_refusal(
    p: PeerRecord,
    r: RegistryIdentityRecordV2,
    issued_at_unix: u64,
) -> Option<StableErrorView> {
    match key_refusal(r, p.body.peer_id@, p.body.device_public_key.json@, p.body.mesh_id@) {
        Some(why) => Some(why),
        None => ttl_refusal(r, p.body.expires_at_unix, issued_at_unix),
    }
}

/// The outcome of a binding check.
pub open spec fn is_decision(
    r: StableIdentityV2Result<StableRegistryBindingDecisionV2>,
    refusal: Option<StableErrorView>,
) -> bool {
    match refusal {
        Some(why) => r matches Err(e) && e@ == why,
        None => r matches Ok(d) && d == StableRegistryBindingDecisionV2::Accepted,
    }
}

pub fn verify_stable_registry_binding_with_issued_at(
    peer_record: &PeerRecord,
    registry_record: &RegistryIdentityRecordV2,
    issued_at_unix: u64,
) -> (r: StableIdentityV2Result<StableRegistryBindingDecisionV2>)
    ensures
        is_decision(r, bound_refusal(*peer_record, *registry_record, issued_at_unix)),
{
    if let Err(e) = require_key(
        registry_record,
        peer_record.body.peer_id.as_str(),
        &peer_record.body.device_public_key,
        peer_record.body.mesh_id.as_str(),
    ) {
        return Err(e);
    }
    if peer_record.body.expires_at_unix <= issued_at_unix {
        return Err(
            StableIdentityV2Error::InvalidPeerRecordTtl(
                "expires_at_unix must be greater than signed issued_at_unix".to_owned(),
            ),
        );
    }
    let ttl_seconds: u64 = peer_record.body.expires_at_unix - issued_at_unix;
    if ttl_seconds > registry_record.max_peer_record_ttl_seconds {
        return Err(
            StableIdentityV2Error::PeerRecordTtlExceeded {
                actual_seconds: ttl_seconds,
                maximum_seconds: registry_record.max_peer_record_ttl_seconds,
            },
        );
    }
    Ok(StableRegistryBindingDecisionV2::Accepted)
}

pub fn signed_peer_record_issued_at_unix(peer_record: &PeerRecord) -> (r: StableIdentityV2Result<
    u64,
>)
    ensures
        peer_record.body.issued_at_unix == 0 ==> (r matches Err(e) && e@
            == StableErrorView::MissingSignedIssuedAt),
        peer_record.body.issued_at_unix != 0 ==> r == Ok::<u64, StableIdentityV2Error>(
            peer_record.body.issued_at_unix,
        ),
{
    if peer_record.body.issued_at_unix == 0 {
        Err(StableIdentityV2Error::MissingSignedIssuedAt)
    } else {
        Ok(peer_record.body.issued_at_unix)
    }
}

/// Why a peer record is not bound by the registry at a time, if it is not: the
/// record must be believed, an identity must be there, keep its rules and be in
/// force, and bind the record from the time that the record was signed to be
/// issued at.
pub open spec fn stable_refusal(
    p: PeerRecord,
    registry_record: Option<RegistryIdentityRecordV2>,
    time_unix: u64,
    owner_error: Option<Seq<char>>,
) -> Option<StableErrorView> {
    match peer_record_refusal(p, time_unix) {
        Some(why) => Some(why),
        None => match registry_record {
            None => Some(StableErrorView::Missing),
            Some(r) => match record_refusal(r, owner_error) {
                Some(why) => Some(why),
                None => match in_force_refusal(r, time_unix) {
                    Some(why) => Some(why),
                    None => if p.body.issued_at_unix == 0 {
                        Some(StableErrorView::MissingSignedIssuedAt)
                    } else {
                        bound_refusal(p, r, p.body.issued_at_unix)
                    },
                },
            },
        },
    }
}

/// Judges a peer record by its stable identity at a time. `owner_error` is why
/// the identity's owner address does not parse, where it does not.
pub fn verify_stable_registry_binding_at(
    peer_record: &PeerRecord,
    registry_record: Option<&RegistryIdentityRecordV2>,
    verification_time_unix: u64,
    owner_error: Option<&str>,
) -> (r: StableIdentityV2Result<StableRegistryBindingDecisionV2>)
    ensures
        is_decision(
            r,
            stable_refusal(
                *peer_record,
                referred(registry_record),
                verification_time_unix,
                reason_view(owner_error),
            ),
        ),
{
    if let Err(e) = verify_peer_record_signature(peer_record, verification_time_unix) {
        return Err(e);
    }
    let record = match registry_record {
        Some(record) => record,
        None => {
            return Err(StableIdentityV2Error::Missing);
        },
    };
    if let Err(e) = record.validate(owner_error) {
        return Err(e);
    }
    if let Err(e) = require_active_and_unexpired(record, verification_time_unix) {
        return Err(e);
    }
    match signed_peer_record_issued_at_unix(peer_record) {
        Ok(issued_at_unix) => verify_stable_registry_binding_with_issued_at(
            peer_record,
            record,
            issued_at_unix,
        ),
        Err(e) => Err(e),
    }
}

/// Judges a peer record by its stable identity now: `now_unix` is the reading of
/// the clock.
pub fn verify_stable_registry_binding(
    peer_record: &PeerRecord,
    registry_record: Option<&RegistryIdentityRecordV2>,
    now_unix: u64,
    owner_error: Option<&str>,
) -> (r: StableIdentityV2Result<StableRegistryBindingDecisionV2>)
    ensures
        is_decision(
            r,
            stable_refusal(
                *peer_record,
                referred(registry_record),
                now_unix,
                reason_view(owner_error),
            ),
        ),
{
    verify_stable_registry_binding_at(peer_record, registry_record, now_unix, owner_error)
}

/// Why what a dialling peer claims of itself is not bound by the registry, if it
/// is not.
pub open spec fn stable_inbound_refusal(
    assertion: InboundIdentityAssertion,
    registry_record: Option<RegistryIdentityRecordV2>,
    now_unix: u64,
    owner_error: Option<Seq<char>>,
) -> Option<StableErrorView> {
    match assertion.verification_error {
        Some(e) => Some(StableErrorView::InvalidPeerRecord(error_text(e@))),
        None => match registry_record {
            None => Some(StableErrorView::Missing),
            Some(r) => match record_refusal(r, owner_error) {
                Some(why) => Some(why),
                None => match in_force_refusal(r, now_unix) {
                    Some(why) => Some(why),
                    None => key_refusal(
                        r,
                        assertion.peer_id@,
                        assertion.device_public_key.json@,
                        assertion.mesh_id@,
                    ),
                },
            },
        },
    }
}

/// Judges what a dialling peer claims of itself. Checking the claim against the
/// expected mesh and age stands in the assertion.
pub fn verify_stable_inbound_registry_binding(
    assertion: &InboundIdentityAssertion,
    registry_record: Option<&RegistryIdentityRecordV2>,
    now_unix: u64,
    owner_error: Option<&str>,
) -> (r: StableIdentityV2Result<StableRegistryBindingDecisionV2>)
    ensures
        is_decision(
            r,
            stable_inbound_refusal(
                *assertion,
                referred(registry_record),
                now_unix,
                reason_view(owner_error),
            ),
        ),
{
    if let Some(e) = &assertion.verification_error {
        return Err(StableIdentityV2Error::InvalidPeerRecord(e.to_string()));
    }
    let record = match registry_record {
        Some(record) => record,
        None => {
            return Err(StableIdentityV2Error::Missing);
        },
    };
    if let Err(e) = record.validate(owner_error) {
        return Err(e);
    }
    if let Err(e) = require_active_and_unexpired(record, now_unix) {
        return Err(e);
    }
    if let Err(e) = require_key(
        record,
        assertion.peer_id.as_str(),
        &assertion.device_public_key,
        assertion.mesh_id.as_str(),
    ) {
        return Err(e);
    }
    Ok(StableRegistryBindingDecisionV2::Accepted)
}

// ---------------------------------------------------------------------------
// Authorizations
// ---------------------------------------------------------------------------

/// A wallet's authorization of a write.
#[derive(Debug, Clone)]
pub struct WalletAuthorizationV2 {
    pub actor_public_key_hex: String,
    pub actor_signature_hex: String,
}

/// A device's authorization of its binding.
#[derive(Debug, Clone)]
pub struct DeviceAuthorizationV2 {
    pub device_public_key_algorithm: String,
    pub device_public_key_hex: String,
    pub device_signature_hex: String,
}

/// Why a wallet is not the owner of a record, if it is not. `derived` is the
/// address that the wallet's key stands for, or why there is none.
pub open spec fn owner_refusal(
    r: RegistryIdentityRecordV2,
    derived: Result<String, String>,
) -> Option<StableErrorView> {
    match derived {
        Err(err) => Some(
            StableErrorView::WalletAuthorization(
                "wallet public key cannot derive a Dytallix owner address: "@ + err@,
            ),
        ),
        Ok(owner) => if owner@ != r.owner_daddr@ {
            Some(
                StableErrorView::WalletAuthorization(
                    "wallet public key does not match owner_daddr"@,
                ),
            )
        } else {
            None
        },
    }
}

pub fn require_wallet_owner(record: &RegistryIdentityRecordV2, derived: &Result<String, String>) -> (r:
    StableIdentityV2Result<()>)
    ensures
        is_verdict(r, owner_refusal(*record, *derived)),
{
    match derived {
        Err(err) => Err(
            StableIdentityV2Error::WalletAuthorization(
                join2(
                    "wallet public key cannot derive a Dytallix owner address: ",
                    err.as_str(),
                ),
            ),
        ),
        Ok(owner) => if !same_text(owner.as_str(), record.owner_daddr.as_str()) {
            Err(
                StableIdentityV2Error::WalletAuthorization(
                    "wallet public key does not match owner_daddr".to_owned(),
                ),
            )
        } else {
            Ok(())
        },
    }
}

/// Why a device key is not that of a record, if it is not.
pub open spec fn device_refusal(r: RegistryIdentityRecordV2, key: DevicePublicKey) -> Option<
    StableErrorView,
> {
    if r.peer_id@ != key.peer_id@ || r.device_public_key_hash_hex@ != sha256_text(key.json@) {
        Some(StableErrorView::WrongDevice)
    } else {
        None
    }
}

pub fn require_record_device(
    record: &RegistryIdentityRecordV2,
    device_public_key: &DevicePublicKey,
) -> (r: StableIdentityV2Result<()>)
    ensures
        is_verdict(r, device_refusal(*record, *device_public_key)),
{
    let hash = sha256_hex_text(device_public_key.json.as_slice());
    if !same_text(record.peer_id.as_str(), device_public_key.peer_id.as_str()) || !same_text(
        record.device_public_key_hash_hex.as_str(),
        hash.as_str(),
    ) {
        return Err(StableIdentityV2Error::WrongDevice);
    }
    Ok(())
}

/// The refusal of a field that is not hexadecimal.
pub open spec fn not_hex(field: Seq<char>, value: Seq<char>) -> StableErrorView {
    StableErrorView::InvalidRecord(
        field + " is not valid hexadecimal: "@ + hex_decode_error(value),
    )
}

pub fn decode_hex(field: &str, value: &str) -> (r: StableIdentityV2Result<Vec<u8>>)
    ensures
        is_hex_text(value@) ==> (r matches Ok(v) && v@ == hex_bytes(value@)),
        !is_hex_text(value@) ==> (r matches Err(e) && e@ == not_hex(field@, value@)),
{
    match hex_decode_text(value) {
        Ok(bytes) => Ok(bytes),
        Err(err) => Err(
            StableIdentityV2Error::InvalidRecord(
                join3(field, " is not valid hexadecimal: ", err.as_str()),
            ),
        ),
    }
}

/// Why a signature is refused after it was checked, if it is.
pub open spec fn wallet_check_refusal(checked: Result<bool, String>) -> Option<StableErrorView> {
    match checked {
        Err(err) => Some(
            StableErrorView::WalletAuthorization(
                "wallet signature could not be verified: "@ + err@,
            ),
        ),
        Ok(valid) => if valid {
            None
        } else {
            Some(StableErrorView::WalletAuthorization("wallet signature verification failed"@))
        },
    }
}

/// Judges what checking a wallet's signature came to.
pub fn judge_wallet_check(checked: Result<bool, String>) -> (r: StableIdentityV2Result<()>)
    ensures
        is_verdict(r, wallet_check_refusal(checked)),
{
    match checked {
        Err(err) => Err(
            StableIdentityV2Error::WalletAuthorization(
                join2("wallet signature could not be verified: ", err.as_str()),
            ),
        ),
        Ok(valid) => if valid {
            Ok(())
        } else {
            Err(
                StableIdentityV2Error::WalletAuthorization(
                    "wallet signature verification failed".to_owned(),
                ),
            )
        },
    }
}

impl WalletAuthorizationV2 {
    /// Authorizes a write of a record. `owner` is the address that the wallet's
    /// public key stands for, `signer` signs with the wallet.
    pub fn sign<F: Fn(&[u8]) -> Result<Vec<u8>, String>>(
        operation: RegistryIdentityOperationV2,
        record: &RegistryIdentityRecordV2,
        public_key: &[u8],
        owner: &Result<String, String>,
        owner_error: Option<&str>,
        signer: F,
    ) -> (r: StableIdentityV2Result<WalletAuthorizationV2>)
        requires
            forall|payload: &[u8]| #[trigger] call_requires(signer, (payload,)),
        ensures
            match record_refusal(*record, reason_view(owner_error)) {
                Some(why) => r matches Err(e) && e@ == why,
                None => match owner_refusal(*record, *owner) {
                    Some(why) => r matches Err(e) && e@ == why,
                    None => exists|payload: &[u8], signature: Result<Vec<u8>, String>|
                        payload@ == encode_utf8(wallet_payload(operation, *record))
                            && #[trigger] call_ensures(signer, (payload,), signature)
                            && match signature {
                            Ok(sig) => r matches Ok(auth) && auth.actor_public_key_hex@ == hex_text(
                                public_key@,
                            ) && auth.actor_signature_hex@ == hex_text(sig@),
                            Err(err) => r matches Err(e) && e@
                                == StableErrorView::WalletAuthorization(
                                "Dytallix wallet signing failed: "@ + err@,
                            ),
                        },
                },
            },
    {
        if let Err(e) = record.validate(owner_error) {
            return Err(e);
        }
        if let Err(e) = require_wallet_owner(record, owner) {
            return Err(e);
        }
        let payload = wallet_payload_bytes(operation, record);
        match signer(payload.as_slice()) {
            Ok(signature) => Ok(
                WalletAuthorizationV2 {
                    actor_public_key_hex: hex_encode_bytes(public_key),
                    actor_signature_hex: hex_encode_bytes(signature.as_slice()),
                },
            ),
            Err(err) => Err(
                StableIdentityV2Error::WalletAuthorization(
                    join2("Dytallix wallet signing failed: ", err.as_str()),
                ),
            ),
        }
    }

    /// Checks an authorization against a record. `derive_owner` gives the address
    /// that a public key stands for; `check` tells whether a signature by a
    /// public key over a payload holds.
    pub fn verify<D: Fn(&[u8]) -> Result<String, String>, C: Fn(&[u8], &[u8], &[u8]) -> Result<
        bool,
        String,
    >>(
        &self,
        operation: RegistryIdentityOperationV2,
        record: &RegistryIdentityRecordV2,
        owner_error: Option<&str>,
        derive_owner: D,
        check: C,
    ) -> (r: StableIdentityV2Result<()>)
        requires
            forall|key: &[u8]| #[trigger] call_requires(derive_owner, (key,)),
            forall|key: &[u8], payload: &[u8], signature: &[u8]| #[trigger]
                call_requires(check, (key, payload, signature)),
        ensures
            match record_refusal(*record, reason_view(owner_error)) {
                Some(why) => r matches Err(e) && e@ == why,
                None => if !is_hex_text(self.actor_public_key_hex@) {
                    r matches Err(e) && e@ == not_hex(
                        "actor_public_key_hex"@,
                        self.actor_public_key_hex@,
                    )
                } else {
                    exists|key: &[u8], owner: Result<String, String>|
                        key@ == hex_bytes(self.actor_public_key_hex@) && #[trigger] call_ensures(
                            derive_owner,
                            (key,),
                            owner,
                        ) && match owner_refusal(*record, owner) {
                            Some(why) => r matches Err(e) && e@ == why,
                            None => if !is_hex_text(self.actor_signature_hex@) {
                                r matches Err(e) && e@ == not_hex(
                                    "actor_signature_hex"@,
                                    self.actor_signature_hex@,
                                )
                            } else {
                                exists|
                                    payload: &[u8],
                                    signature: &[u8],
                                    checked: Result<bool, String>,
                                |
                                    payload@ == encode_utf8(wallet_payload(operation, *record))
                                        && signature@ == hex_bytes(self.actor_signature_hex@)
                                        && #[trigger] call_ensures(
                                        check,
                                        (key, payload, signature),
                                        checked,
                                    ) && is_verdict(r, wallet_check_refusal(checked))
                            },
                        }
                },
            },
    {
        if let Err(e) = record.validate(owner_error) {
            return Err(e);
        }
        let key = match decode_hex("actor_public_key_hex", self.actor_public_key_hex.as_str()) {
            Ok(key) => key,
            Err(e) => {
                return Err(e);
            },
        };
        let key = key.as_slice();
        let owner = derive_owner(key);
        if let Err(e) = require_wallet_owner(record, &owner) {
            return Err(e);
        }
        let signature = match decode_hex(
            "actor_signature_hex",
            self.actor_signature_hex.as_str(),
        ) {
            Ok(signature) => signature,
            Err(e) => {
                return Err(e);
            },
        };
        let payload = wallet_payload_bytes(operation, record);
        judge_wallet_check(check(key, payload.as_slice(), signature.as_slice()))
    }
}

impl DeviceAuthorizationV2 {
    /// Authorizes the binding of a device. `signer` signs with the device key
    /// whose public half is given, which must be that of the record.
    pub fn sign<F: Fn(&[u8]) -> Vec<u8>>(
        operation: RegistryIdentityOperationV2,
        record: &RegistryIdentityRecordV2,
        public_key: &DevicePublicKey,
        owner_error: Option<&str>,
        signer: F,
    ) -> (r: StableIdentityV2Result<DeviceAuthorizationV2>)
        requires
            forall|payload: &[u8]| #[trigger] call_requires(signer, (payload,)),
        ensures
            match record_refusal(*record, reason_view(owner_error)) {
                Some(why) => r matches Err(e) && e@ == why,
                None => match device_refusal(*record, *public_key) {
                    Some(why) => r matches Err(e) && e@ == why,
                    None => exists|payload: &[u8], signature: Vec<u8>|
                        payload@ == encode_utf8(device_payload(*record))
                            && #[trigger] call_ensures(signer, (payload,), signature) && (
                        r matches Ok(auth) && auth.device_public_key_algorithm@
                            == public_key.algorithm@ && auth.device_public_key_hex@ == hex_text(
                            public_key.bytes@,
                        ) && auth.device_signature_hex@ == hex_text(signature@)),
                },
            },
    {
        if let Err(e) = record.validate(owner_error) {
            return Err(e);
        }
        if let Err(e) = require_record_device(record, public_key) {
            return Err(e);
        }
        let payload = device_payload_bytes(record);
        let signature = signer(payload.as_slice());
        Ok(
            DeviceAuthorizationV2 {
                device_public_key_algorithm: public_key.algorithm.clone(),
                device_public_key_hex: hex_encode_bytes(public_key.bytes.as_slice()),
                device_signature_hex: hex_encode_bytes(signature.as_slice()),
            },
        )
    }

    /// Checks an authorization against a record. `key_of` gives the device key of
    /// an algorithm and key bytes; `check` tells whether a signature by that key
    /// over a payload holds.
    pub fn verify<K: Fn(&str, &[u8]) -> DevicePublicKey, C: Fn(
        &DevicePublicKey,
        &[u8],
        &[u8],
    ) -> bool>(
        &self,
        operation: RegistryIdentityOperationV2,
        record: &RegistryIdentityRecordV2,
        owner_error: Option<&str>,
        key_of: K,
        check: C,
    ) -> (r: StableIdentityV2Result<()>)
        requires
            forall|algorithm: &str, bytes: &[u8]| #[trigger]
                call_requires(key_of, (algorithm, bytes)),
            forall|key: &DevicePublicKey, payload: &[u8], signature: &[u8]| #[trigger]
                call_requires(check, (key, payload, signature)),
        ensures
            match record_refusal(*record, reason_view(owner_error)) {
                Some(why) => r matches Err(e) && e@ == why,
                None => if !is_hex_text(self.device_public_key_hex@) {
                    r matches Err(e) && e@ == not_hex(
                        "device_public_key_hex"@,
                        self.device_public_key_hex@,
                    )
                } else {
                    exists|algorithm: &str, bytes: &[u8], key: DevicePublicKey|
                        algorithm@ == self.device_public_key_algorithm@ && bytes@ == hex_bytes(
                            self.device_public_key_hex@,
                        ) && #[trigger] call_ensures(key_of, (algorithm, bytes), key)
                            && match device_refusal(*record, key) {
                            Some(why) => r matches Err(e) && e@ == why,
                            None => if !is_hex_text(self.device_signature_hex@) {
                                r matches Err(e) && e@ == not_hex(
                                    "device_signature_hex"@,
                                    self.device_signature_hex@,
                                )
                            } else {
                                exists|payload: &[u8], signature: &[u8], valid: bool|
                                    payload@ == encode_utf8(device_payload(*record)) && signature@
                                        == hex_bytes(self.device_signature_hex@)
                                        && #[trigger] call_ensures(
                                        check,
                                        (&key, payload, signature),
                                        valid,
                                    ) && is_verdict(
                                        r,
                                        if valid {
                                            None
                                        } else {
                                            Some(
                                                StableErrorView::DeviceAuthorization(
                                                    "device signature verification failed"@,
                                                ),
                                            )
                                        },
                                    )
                            },
                        }
                },
            },
    {
        if let Err(e) = record.validate(owner_error) {
            return Err(e);
        }
        let bytes = match decode_hex("device_public_key_hex", self.device_public_key_hex.as_str()) {
            Ok(bytes) => bytes,
            Err(e) => {
                return Err(e);
            },
        };
        let key = key_of(self.device_public_key_algorithm.as_str(), bytes.as_slice());
        if let Err(e) = require_record_device(record, &key) {
            return Err(e);
        }
        let signature = match decode_hex(
            "device_signature_hex",
            self.device_signature_hex.as_str(),
        ) {
            Ok(signature) => signature,
            Err(e) => {
                return Err(e);
            },
        };
        let payload = device_payload_bytes(record);
        if check(&key, payload.as_slice(), signature.as_slice()) {
            Ok(())
        } else {
            Err(
                StableIdentityV2Error::DeviceAuthorization(
                    "device signature verification failed".to_owned(),
                ),
            )
        }
    }
}

} // verus!
