//! Provisioning of stable identities: which changes are allowed, what is sent, and
//! when a change counts as done.

use crate::discovery::DevicePublicKey;
use crate::dytallix_identity::{
    DytallixIdentityRegistry, DytallixRegistryBindingVersion, DytallixRegistryLookupConfig,
    JsonField, RegistryIdentityLookupRecord, call_body, is_pinned, json_raw_field, json_text_field,
    normal_address, normal_identifier, normal_pin, normal_pins, normalize_contract_address,
    normalize_lookup_contract_identifier, not_pinned, number_json, push_raw_field, push_text_field,
    submission_body, submission_tx_hash, texts,
};
use crate::dytallix_identity_v2::{
    DeviceAuthorizationV2, RegistryIdentityRecordV2, RegistryIdentityStatusV2, StableErrorView,
    StableIdentityV2Error, WalletAuthorizationV2, identity_json, is_identity_of, reason_view,
    record_refusal, stable_error_text,
};
use crate::error::{QlinkError, QlinkErrorView, Result, protocol};
use crate::identity_laws::law_normal_identifier_is_stable;
use crate::outside::{hex_encode_bytes, json_string, optional_text, parse_url, parsed_url};
use crate::text::{
    decimal, hex_text, join2, join3, json_quoted, push_decimal, same_text, trim, trim_leading,
    trim_trailing, trimmed, without_leading, without_trailing,
};
use crate::time::{Duration, MAX_NANOS, saturated};
use vstd::prelude::*;
use vstd::string::*;
use vstd::utf8::*;

verus! {

/// What an identity is to allow.
#[derive(Debug, Clone)]
pub struct StableIdentityPolicyV2 {
    pub authorization_expires_at: Option<u64>,
    pub max_peer_record_ttl_seconds: u64,
    pub mesh_scope: Option<String>,
    pub metadata_commitment_hex: Option<String>,
}

impl Default for StableIdentityPolicyV2 {
    fn default() -> (p: Self)
        ensures
            p.authorization_expires_at is None,
            p.max_peer_record_ttl_seconds == 300,
            p.mesh_scope is None,
            p.metadata_commitment_hex is None,
    {
        StableIdentityPolicyV2 {
            authorization_expires_at: None,
            max_peer_record_ttl_seconds: 300,
            mesh_scope: None,
            metadata_commitment_hex: None,
        }
    }
}

/// Where identities are provisioned, with which wallet, and how long to wait.
#[derive(Debug, Clone)]
pub struct StableIdentityProvisioningConfigV2 {
    pub endpoint: String,
    pub contract_address: String,
    pub network_id: Option<String>,
    pub chain_id: Option<String>,
    pub allowed_rpc_endpoints: Vec<String>,
    pub keystore_path: Option<String>,
    pub wallet_name: Option<String>,
    pub confirmation_timeout: Duration,
    pub poll_interval: Duration,
}

/// A host that names the device itself.
pub open spec fn is_loopback_host(host: Option<Seq<char>>) -> bool {
    host == Some("localhost"@) || host == Some("127.0.0.1"@) || host == Some("::1"@)
}

/// Why an endpoint is refused, if it is: identities are provisioned over HTTPS, or
/// over HTTP on the device itself.
pub open spec fn endpoint_refusal(endpoint: Seq<char>) -> Option<QlinkErrorView> {
    match parsed_url(endpoint) {
        Err(err) => Some(QlinkErrorView::Protocol("invalid Dytallix endpoint URL: "@ + err)),
        Ok((_, scheme, host)) => insecurity(scheme, host),
    }
}

/// Why a scheme and a host are refused, if they are.
pub open spec fn insecurity(scheme: Seq<char>, host: Option<Seq<char>>) -> Option<QlinkErrorView> {
    if scheme != "https"@ && !(scheme == "http"@ && is_loopback_host(host)) {
        Some(
            QlinkErrorView::Protocol(
                "Dytallix provisioning endpoint must use HTTPS (HTTP is allowed only for loopback tests)"@,
            ),
        )
    } else {
        None
    }
}

/// Judges the scheme and host of an endpoint.
pub fn judge_endpoint(scheme: &str, host: Option<&str>) -> (r: Result<()>)
    ensures
        match insecurity(scheme@, reason_view(host)) {
            Some(why) => r matches Err(e) && e@ == why,
            None => r is Ok,
        },
{
    let loopback = match host {
        Some(name) => same_text(name, "localhost") || same_text(name, "127.0.0.1") || same_text(
            name,
            "::1",
        ),
        None => false,
    };
    if !same_text(scheme, "https") && !(same_text(scheme, "http") && loopback) {
        return Err(
            protocol(
                "Dytallix provisioning endpoint must use HTTPS (HTTP is allowed only for loopback tests)",
            ),
        );
    }
    Ok(())
}

pub fn validate_provisioning_endpoint(endpoint: &str) -> (r: Result<()>)
    ensures
        match endpoint_refusal(endpoint@) {
            Some(why) => r matches Err(e) && e@ == why,
            None => r is Ok,
        },
{
    match parse_url(endpoint) {
        Err(err) => Err(
            QlinkError::Protocol(join2("invalid Dytallix endpoint URL: ", err.as_str())),
        ),
        Ok((_, scheme, host)) => {
            let host_text = match &host {
                Some(name) => Some(name.as_str()),
                None => None,
            };
            judge_endpoint(scheme.as_str(), host_text)
        },
    }
}

/// The text that an endpoint and a path make: exactly one slash between them.
pub open spec fn endpoint_path(endpoint: Seq<char>, path: Seq<char>) -> Seq<char> {
    without_trailing(endpoint, '/') + "/"@ + without_leading(path, '/')
}

/// The URL of a path at an endpoint.
pub fn endpoint_url(endpoint: &str, path: &str) -> (r: Result<String>)
    ensures
        match parsed_url(endpoint_path(endpoint@, path@)) {
            Ok(parts) => r matches Ok(url) && url@ == parts.0,
            Err(err) => r matches Err(e) && e@ == QlinkErrorView::Protocol(
                "invalid Dytallix endpoint URL: "@ + err,
            ),
        },
{
    let mut text = trim_trailing(endpoint, '/');
    text.append("/");
    let rest = trim_leading(path, '/');
    text.append(rest.as_str());
    match parse_url(text.as_str()) {
        Ok(parts) => Ok(parts.0),
        Err(err) => Err(
            QlinkError::Protocol(join2("invalid Dytallix endpoint URL: ", err.as_str())),
        ),
    }
}

impl StableIdentityProvisioningConfigV2 {
    /// A configuration with a wallet: a minute to confirm, asked every two
    /// seconds.
    pub fn new(
        endpoint: &str,
        contract_address: &str,
        keystore_path: &str,
        wallet_name: Option<String>,
    ) -> (r: Result<StableIdentityProvisioningConfigV2>)
        ensures
            match endpoint_refusal(endpoint@) {
                Some(why) => r matches Err(e) && e@ == why,
                None => match normal_address(contract_address@) {
                    Err(why) => r matches Err(e) && e@ == why,
                    Ok(address) => r matches Ok(c) && c.endpoint@ == endpoint@
                        && c.contract_address@ == address && c.network_id is None
                        && c.chain_id is None && c.allowed_rpc_endpoints@.len() == 0 && (
                    c.keystore_path matches Some(p) && p@ == keystore_path@) && c.wallet_name
                        == wallet_name && c.confirmation_timeout.nanos == 60_000_000_000
                        && c.poll_interval.nanos == 2_000_000_000,
                },
            },
    {
        if let Err(e) = validate_provisioning_endpoint(endpoint) {
            return Err(e);
        }
        match normalize_contract_address(contract_address) {
            Err(e) => Err(e),
            Ok(contract_address) => Ok(
                StableIdentityProvisioningConfigV2 {
                    endpoint: endpoint.to_owned(),
                    contract_address,
                    network_id: None,
                    chain_id: None,
                    allowed_rpc_endpoints: Vec::new(),
                    keystore_path: Some(keystore_path.to_owned()),
                    wallet_name,
                    confirmation_timeout: Duration::from_secs(60),
                    poll_interval: Duration::from_secs(2),
                },
            ),
        }
    }

    /// A configuration without a wallet.
    pub fn lookup_only(endpoint: &str, contract_address: &str) -> (r: Result<
        StableIdentityProvisioningConfigV2,
    >)
        ensures
            match endpoint_refusal(endpoint@) {
                Some(why) => r matches Err(e) && e@ == why,
                None => match normal_identifier(contract_address@) {
                    Err(why) => r matches Err(e) && e@ == why,
                    Ok(address) => r matches Ok(c) && c.endpoint@ == endpoint@
                        && c.contract_address@ == address && c.network_id is None
                        && c.chain_id is None && c.allowed_rpc_endpoints@.len() == 0
                        && c.keystore_path is None && c.wallet_name is None
                        && c.confirmation_timeout.nanos == 60_000_000_000 && c.poll_interval.nanos
                        == 2_000_000_000,
                },
            },
    {
        if let Err(e) = validate_provisioning_endpoint(endpoint) {
            return Err(e);
        }
        match normalize_lookup_contract_identifier(contract_address) {
            Err(e) => Err(e),
            Ok(contract_address) => Ok(
                StableIdentityProvisioningConfigV2 {
                    endpoint: endpoint.to_owned(),
                    contract_address,
                    network_id: None,
                    chain_id: None,
                    allowed_rpc_endpoints: Vec::new(),
                    keystore_path: None,
                    wallet_name: None,
                    confirmation_timeout: Duration::from_secs(60),
                    poll_interval: Duration::from_secs(2),
                },
            ),
        }
    }

    /// Pins the network, the chain and the endpoints.
    pub fn with_network_pins(
        self,
        network_id: Option<String>,
        chain_id: Option<String>,
        allowed_rpc_endpoints: Vec<String>,
    ) -> (r: Result<StableIdentityProvisioningConfigV2>)
        ensures
            ({
                let pins = normal_pins(texts(allowed_rpc_endpoints@));
                match normal_identifier(self.contract_address@) {
                    Err(why) => r matches Err(e) && e@ == why,
                    Ok(_) => if is_pinned(self.endpoint@, pins) {
                        r matches Ok(c) && c.endpoint == self.endpoint && c.contract_address
                            == self.contract_address && optional_text(c.network_id) == normal_pin(
                            optional_text(network_id),
                        ) && optional_text(c.chain_id) == normal_pin(optional_text(chain_id))
                            && texts(c.allowed_rpc_endpoints@) == pins && c.keystore_path
                            == self.keystore_path && c.wallet_name == self.wallet_name
                            && c.confirmation_timeout == self.confirmation_timeout
                            && c.poll_interval == self.poll_interval
                    } else {
                        r matches Err(e) && e@ == not_pinned(self.endpoint@)
                    },
                }
            }),
    {
        let lookup = match DytallixRegistryLookupConfig::new(
            self.endpoint.as_str(),
            self.contract_address.as_str(),
        ) {
            Ok(lookup) => lookup,
            Err(e) => {
                return Err(e);
            },
        };
        match lookup.with_network_pins(network_id, chain_id, allowed_rpc_endpoints) {
            Ok(pinned) => {
                let mut config = self;
                config.network_id = pinned.network_id;
                config.chain_id = pinned.chain_id;
                config.allowed_rpc_endpoints = pinned.allowed_rpc_endpoints;
                Ok(config)
            },
            Err(e) => Err(e),
        }
    }

    /// Sets how long to wait and how often to ask. Both must be positive, and
    /// there must be time to ask at least once.
    pub fn with_confirmation_timing(self, timeout: Duration, poll_interval: Duration) -> (r: Result<
        StableIdentityProvisioningConfigV2,
    >)
        ensures
            if 0 < poll_interval.nanos <= timeout.nanos {
                r == Ok::<StableIdentityProvisioningConfigV2, QlinkError>(
                    StableIdentityProvisioningConfigV2 {
                        confirmation_timeout: timeout,
                        poll_interval,
                        ..self
                    },
                )
            } else {
                r matches Err(e) && e@ == QlinkErrorView::Protocol(
                    "confirmation timeout and poll interval must be positive, with poll interval no greater than timeout"@,
                )
            },
    {
        if timeout.is_zero() || poll_interval.is_zero() || poll_interval.nanos > timeout.nanos {
            return Err(
                protocol(
                    "confirmation timeout and poll interval must be positive, with poll interval no greater than timeout",
                ),
            );
        }
        let mut config = self;
        config.confirmation_timeout = timeout;
        config.poll_interval = poll_interval;
        Ok(config)
    }
}

/// Registers and changes stable identities, and reads them back.
pub struct DytallixStableIdentityProvisionerV2 {
    pub config: StableIdentityProvisioningConfigV2,
    pub lookup: DytallixIdentityRegistry,
}

/// A list of strings again.
fn copy_texts(list: &Vec<String>) -> (copy: Vec<String>)
    ensures
        texts(copy@) == texts(list@),
{
    let mut copy: Vec<String> = Vec::new();
    let mut i: usize = 0;
    while i < list.len()
        invariant
            i <= list@.len(),
            copy@.len() == i,
            forall|k: int| 0 <= k < i ==> (#[trigger] copy@[k])@ == list@[k]@,
        decreases list@.len() - i,
    {
        copy.push(list[i].clone());
        i = i + 1;
    }
    assert(texts(copy@) =~= texts(list@));
    copy
}

impl DytallixStableIdentityProvisionerV2 {
    /// A provisioner whose registry reads stable identities, at the endpoint, the
    /// contract and with the pins of the configuration.
    pub fn new(config: StableIdentityProvisioningConfigV2) -> (r: Result<
        DytallixStableIdentityProvisionerV2,
    >)
        ensures
            ({
                let pins = normal_pins(texts(config.allowed_rpc_endpoints@));
                match normal_identifier(config.contract_address@) {
                    Err(why) => r matches Err(e) && e@ == why,
                    Ok(address) => if is_pinned(config.endpoint@, pins) {
                        r matches Ok(p) && p.config == config && p.lookup.write_config is None
                            && p.lookup.lookup_config.endpoint@ == config.endpoint@
                            && p.lookup.lookup_config.contract_address@ == address
                            && p.lookup.lookup_config.binding_version
                            == DytallixRegistryBindingVersion::StableIdentityV2 && optional_text(
                            p.lookup.lookup_config.network_id,
                        ) == normal_pin(optional_text(config.network_id)) && optional_text(
                            p.lookup.lookup_config.chain_id,
                        ) == normal_pin(optional_text(config.chain_id)) && texts(
                            p.lookup.lookup_config.allowed_rpc_endpoints@,
                        ) == pins
                    } else {
                        r matches Err(e) && e@ == not_pinned(config.endpoint@)
                    },
                }
            }),
    {
        let lookup = match DytallixRegistryLookupConfig::new(
            config.endpoint.as_str(),
            config.contract_address.as_str(),
        ) {
            Ok(lookup) => lookup,
            Err(e) => {
                return Err(e);
            },
        };
        let network_id = config.network_id.clone();
        let chain_id = config.chain_id.clone();
        let allowed = copy_texts(&config.allowed_rpc_endpoints);
        let pinned = match lookup.with_network_pins(network_id, chain_id, allowed) {
            Ok(pinned) => pinned,
            Err(e) => {
                return Err(e);
            },
        };
        proof {
            law_normal_identifier_is_stable(config.contract_address@);
        }
        match DytallixIdentityRegistry::from_lookup_config(
            pinned.with_binding_version(DytallixRegistryBindingVersion::StableIdentityV2),
        ) {
            Ok(lookup) => Ok(DytallixStableIdentityProvisionerV2 { config, lookup }),
            Err(e) => Err(e),
        }
    }
}

/// A change of an identity.
#[derive(Debug, Clone, Copy, PartialEq, Eq, Structural)]
pub enum StableIdentityProvisioningOperationV2 {
    Register,
    Update,
    Suspend,
    Reactivate,
    Revoke,
}

/// The proof of a change that was confirmed and read back.
#[derive(Debug, Clone)]
pub struct StableIdentityProvisioningReceiptV2 {
    pub operation: StableIdentityProvisioningOperationV2,
    pub endpoint: String,
    pub contract_address: String,
    pub network_id: Option<String>,
    pub chain_id: Option<String>,
    pub tx_hash: String,
    pub confirmed_block: u64,
    pub chain_checkpoint_observed: String,
    pub readback_verified: bool,
    pub identity: RegistryIdentityRecordV2,
}

// ---------------------------------------------------------------------------
// What a change rests on
// ---------------------------------------------------------------------------

/// The refusal that wraps an error of stable identities.
pub fn stable_identity_error(error: &StableIdentityV2Error) -> (e: QlinkError)
    ensures
        e@ == stable_refusal_text(error@),
{
    let reason = error.to_string();
    QlinkError::Protocol(join2("Dytallix stable identity v2 error: ", reason.as_str()))
}

/// The refusal that wraps an error of stable identities.
pub open spec fn stable_refusal_text(e: StableErrorView) -> QlinkErrorView {
    QlinkErrorView::Protocol("Dytallix stable identity v2 error: "@ + stable_error_text(e))
}

/// The refusal that wraps an error of the chain's client.
pub fn provisioning_sdk_error(reason: &str) -> (e: QlinkError)
    ensures
        e@ == QlinkErrorView::Protocol("Dytallix SDK error: "@ + reason@),
{
    QlinkError::Protocol(join2("Dytallix SDK error: ", reason))
}

/// What reading an identity back means: a record of the first contract is none.
pub fn readback_outcome(record: Option<RegistryIdentityLookupRecord>) -> (r: Result<
    Option<RegistryIdentityRecordV2>,
>)
    ensures
        match record {
            Some(RegistryIdentityLookupRecord::StableIdentityV2(identity)) => r == Ok::<
                Option<RegistryIdentityRecordV2>,
                QlinkError,
            >(Some(identity)),
            Some(RegistryIdentityLookupRecord::ExactPeerRecordV1(_)) => r matches Err(e) && e@
                == QlinkErrorView::Protocol(
                "Dytallix v2 readback returned a legacy v1 identity"@,
            ),
            None => r == Ok::<Option<RegistryIdentityRecordV2>, QlinkError>(None),
        },
{
    match record {
        Some(RegistryIdentityLookupRecord::StableIdentityV2(identity)) => Ok(Some(identity)),
        Some(RegistryIdentityLookupRecord::ExactPeerRecordV1(_)) => Err(
            protocol("Dytallix v2 readback returned a legacy v1 identity"),
        ),
        None => Ok(None),
    }
}

/// The address of a wallet's owner; `derived` is what deriving it came to.
pub fn wallet_owner(derived: Result<String, String>) -> (r: Result<String>)
    ensures
        match derived {
            Ok(owner) => r == Ok::<String, QlinkError>(owner),
            Err(err) => r matches Err(e) && e@ == QlinkErrorView::InvalidKey(
                "Dytallix address derivation failed: "@ + err@,
            ),
        },
{
    match derived {
        Ok(owner) => Ok(owner),
        Err(err) => Err(
            QlinkError::InvalidKey(join2("Dytallix address derivation failed: ", err.as_str())),
        ),
    }
}

/// The keystore that a change is signed with.
pub fn require_keystore(keystore_path: &Option<String>) -> (r: Result<&str>)
    ensures
        match *keystore_path {
            Some(path) => r matches Ok(p) && p@ == path@,
            None => r matches Err(e) && e@ == QlinkErrorView::Protocol(
                "Dytallix wallet keystore is required for this operation"@,
            ),
        },
{
    match keystore_path {
        Some(path) => Ok(path.as_str()),
        None => Err(protocol("Dytallix wallet keystore is required for this operation")),
    }
}

/// The wallet that a change is signed with: the configured one, or the active one.
pub fn select_provisioning_wallet(configured: Option<&str>, active: Option<&str>) -> (r: Result<
    String,
>)
    ensures
        match (configured, active) {
            (Some(name), _) => r matches Ok(s) && s@ == name@,
            (None, Some(name)) => r matches Ok(s) && s@ == name@,
            (None, None) => r matches Err(e) && e@ == QlinkErrorView::Protocol(
                "Dytallix keystore has no active wallet"@,
            ),
        },
{
    match configured {
        Some(name) => Ok(name.to_owned()),
        None => match active {
            Some(name) => Ok(name.to_owned()),
            None => Err(protocol("Dytallix keystore has no active wallet")),
        },
    }
}

/// What a look at a keystore file showed. `mode` holds the permission bits where
/// the system has them.
#[derive(Debug, Clone)]
pub struct KeystoreMetadata {
    pub is_regular_file: bool,
    pub mode: Option<u32>,
}

/// The group or the world may touch a file with such permission bits.
pub open spec fn is_shared_mode(mode: u32) -> bool {
    mode % 64 != 0
}

/// Judges a keystore file: it must be there, be a regular file, and belong to its
/// owner alone. `inspected` is what looking at it came to.
pub fn validate_keystore_file(path: &str, inspected: &Result<KeystoreMetadata, String>) -> (r:
    Result<()>)
    ensures
        match *inspected {
            Err(err) => r matches Err(e) && e@ == QlinkErrorView::Protocol(
                "Dytallix keystore "@ + path@ + " cannot be inspected: "@ + err@,
            ),
            Ok(meta) => if !meta.is_regular_file {
                r matches Err(e) && e@ == QlinkErrorView::Protocol(
                    "Dytallix keystore "@ + path@ + " must be a regular file"@,
                )
            } else if meta.mode matches Some(mode) && is_shared_mode(mode) {
                r matches Err(e) && e@ == QlinkErrorView::Protocol(
                    "Dytallix keystore "@ + path@ + " must not be group- or world-accessible"@,
                )
            } else {
                r is Ok
            },
        },
{
    match inspected {
        Err(err) => {
            let mut text = join3("Dytallix keystore ", path, " cannot be inspected: ");
            text.append(err.as_str());
            Err(QlinkError::Protocol(text))
        },
        Ok(meta) => {
            if !meta.is_regular_file {
                return Err(
                    QlinkError::Protocol(
                        join3("Dytallix keystore ", path, " must be a regular file"),
                    ),
                );
            }
            if let Some(mode) = meta.mode {
                if mode % 64 != 0 {
                    return Err(
                        QlinkError::Protocol(
                            join3(
                                "Dytallix keystore ",
                                path,
                                " must not be group- or world-accessible",
                            ),
                        ),
                    );
                }
            }
            Ok(())
        },
    }
}

/// Registration needs a peer without an identity.
pub fn require_unregistered(existing: &Option<RegistryIdentityRecordV2>) -> (r: Result<()>)
    ensures
        match *existing {
            Some(_) => r matches Err(e) && e@ == QlinkErrorView::Protocol(
                "stable identity v2 is already registered"@,
            ),
            None => r is Ok,
        },
{
    match existing {
        Some(_) => Err(protocol("stable identity v2 is already registered")),
        None => Ok(()),
    }
}

/// What a change of an existing identity rests on.
#[derive(Debug, Clone)]
pub struct ChangeBasis {
    pub owner_daddr: String,
    pub status: RegistryIdentityStatusV2,
    pub revision: u64,
}

/// Why an existing identity may not be changed, if it may not: revocation is
/// final, only a suspended identity is reactivated, and revisions run out.
pub open spec fn change_refusal(
    operation: StableIdentityProvisioningOperationV2,
    current: Option<RegistryIdentityRecordV2>,
) -> Option<Seq<char>> {
    match current {
        None => Some("stable identity v2 is not registered"@),
        Some(r) => if r.status == RegistryIdentityStatusV2::Revoked {
            Some("stable identity v2 revocation is terminal"@)
        } else if operation == StableIdentityProvisioningOperationV2::Reactivate && r.status
            != RegistryIdentityStatusV2::Suspended {
            Some("stable identity v2 must be suspended before reactivation"@)
        } else if r.identity_revision == u64::MAX {
            Some("stable identity revision is exhausted"@)
        } else {
            None
        },
    }
}

/// The standing of an identity after a change of its terms.
pub open spec fn status_after_update(
    operation: StableIdentityProvisioningOperationV2,
    current: RegistryIdentityStatusV2,
) -> RegistryIdentityStatusV2 {
    if operation == StableIdentityProvisioningOperationV2::Reactivate {
        RegistryIdentityStatusV2::Active
    } else {
        current
    }
}

/// What an update or a reactivation rests on: the owner stays, the revision grows
/// by one, and a reactivated identity is active again.
pub fn update_basis(
    operation: StableIdentityProvisioningOperationV2,
    current: &Option<RegistryIdentityRecordV2>,
) -> (r: Result<ChangeBasis>)
    ensures
        match change_refusal(operation, *current) {
            Some(text) => r matches Err(e) && e@ == QlinkErrorView::Protocol(text),
            None => r matches Ok(basis) && basis.owner_daddr@ == current->0.owner_daddr@
                && basis.revision == current->0.identity_revision + 1 && basis.status
                == status_after_update(operation, current->0.status),
        },
{
    let record = match current {
        Some(record) => record,
        None => {
            return Err(protocol("stable identity v2 is not registered"));
        },
    };
    if record.status == RegistryIdentityStatusV2::Revoked {
        return Err(protocol("stable identity v2 revocation is terminal"));
    }
    if operation == StableIdentityProvisioningOperationV2::Reactivate && record.status
        != RegistryIdentityStatusV2::Suspended {
        return Err(protocol("stable identity v2 must be suspended before reactivation"));
    }
    if record.identity_revision == u64::MAX {
        return Err(protocol("stable identity revision is exhausted"));
    }
    let status = if operation == StableIdentityProvisioningOperationV2::Reactivate {
        RegistryIdentityStatusV2::Active
    } else {
        record.status
    };
    Ok(
        ChangeBasis {
            owner_daddr: record.owner_daddr.clone(),
            status,
            revision: record.identity_revision + 1,
        },
    )
}

/// The record that a registration or an update writes.
pub fn provisioned_record(
    basis: &ChangeBasis,
    device_public_key: &DevicePublicKey,
    policy: StableIdentityPolicyV2,
    owner_error: Option<&str>,
) -> (r: Result<RegistryIdentityRecordV2>)
    ensures
        exists|made: RegistryIdentityRecordV2|
            #[trigger] is_identity_of(
                made,
                basis.owner_daddr@,
                *device_public_key,
                basis.status,
                basis.revision,
                policy.authorization_expires_at,
                policy.max_peer_record_ttl_seconds,
                optional_text(policy.mesh_scope),
                policy.metadata_commitment_hex,
            ) && match record_refusal(made, reason_view(owner_error)) {
                Some(why) => r matches Err(e) && e@ == stable_refusal_text(why),
                None => r == Ok::<RegistryIdentityRecordV2, QlinkError>(made),
            },
{
    let scope = match &policy.mesh_scope {
        Some(scope) => Some(scope.as_str()),
        None => None,
    };
    match RegistryIdentityRecordV2::from_device_public_key(
        basis.owner_daddr.as_str(),
        device_public_key,
        basis.status,
        basis.revision,
        policy.authorization_expires_at,
        policy.max_peer_record_ttl_seconds,
        scope,
        policy.metadata_commitment_hex,
        owner_error,
    ) {
        Ok(record) => Ok(record),
        Err(e) => Err(stable_identity_error(&e)),
    }
}

/// The basis of a registration: active, first revision.
pub fn registration_basis(owner_daddr: String) -> (basis: ChangeBasis)
    ensures
        basis.owner_daddr == owner_daddr,
        basis.status == RegistryIdentityStatusV2::Active,
        basis.revision == 1,
{
    ChangeBasis { owner_daddr, status: RegistryIdentityStatusV2::Active, revision: 1 }
}

/// The same identity with another standing and revision.
pub open spec fn restated(
    r: RegistryIdentityRecordV2,
    status: RegistryIdentityStatusV2,
    revision: u64,
) -> RegistryIdentityRecordV2 {
    RegistryIdentityRecordV2 { status, identity_revision: revision, ..r }
}

/// The identity that a suspension or a revocation leads to: the same, with the new
/// standing and the next revision.
pub fn status_change(
    current: Option<RegistryIdentityRecordV2>,
    expected_status: RegistryIdentityStatusV2,
) -> (r: Result<RegistryIdentityRecordV2>)
    ensures
        match change_refusal(StableIdentityProvisioningOperationV2::Suspend, current) {
            Some(text) => r matches Err(e) && e@ == QlinkErrorView::Protocol(text),
            None => r == Ok::<RegistryIdentityRecordV2, QlinkError>(
                restated(
                    current->0,
                    expected_status,
                    (current->0.identity_revision + 1) as u64,
                ),
            ),
        },
{
    let record = match current {
        Some(record) => record,
        None => {
            return Err(protocol("stable identity v2 is not registered"));
        },
    };
    if record.status == RegistryIdentityStatusV2::Revoked {
        return Err(protocol("stable identity v2 revocation is terminal"));
    }
    if record.identity_revision == u64::MAX {
        return Err(protocol("stable identity revision is exhausted"));
    }
    let mut expected = record;
    expected.status = expected_status;
    expected.identity_revision = expected.identity_revision + 1;
    Ok(expected)
}

// ---------------------------------------------------------------------------
// What is sent
// ---------------------------------------------------------------------------

/// The JSON of a request that writes a record: the record and the fields of both
/// authorizations.
pub open spec fn record_mutation_json(
    record: RegistryIdentityRecordV2,
    wallet: WalletAuthorizationV2,
    device: DeviceAuthorizationV2,
) -> Seq<char> {
    "{\"record\":"@ + identity_json(record) + json_text_field(
        "actor_public_key_hex"@,
        wallet.actor_public_key_hex@,
    ) + json_text_field("actor_signature_hex"@, wallet.actor_signature_hex@) + json_text_field(
        "device_public_key_algorithm"@,
        device.device_public_key_algorithm@,
    ) + json_text_field("device_public_key_hex"@, device.device_public_key_hex@) + json_text_field(
        "device_signature_hex"@,
        device.device_signature_hex@,
    ) + "}"@
}

pub fn record_mutation_request(
    record: &RegistryIdentityRecordV2,
    wallet: &WalletAuthorizationV2,
    device: &DeviceAuthorizationV2,
) -> (s: String)
    ensures
        s@ == record_mutation_json(*record, *wallet, *device),
{
    let mut s = "{\"record\":".to_owned();
    let json = record.to_json();
    s.append(json.as_str());
    push_text_field(&mut s, "actor_public_key_hex", wallet.actor_public_key_hex.as_str());
    push_text_field(&mut s, "actor_signature_hex", wallet.actor_signature_hex.as_str());
    push_text_field(
        &mut s,
        "device_public_key_algorithm",
        device.device_public_key_algorithm.as_str(),
    );
    push_text_field(&mut s, "device_public_key_hex", device.device_public_key_hex.as_str());
    push_text_field(&mut s, "device_signature_hex", device.device_signature_hex.as_str());
    s.append("}");
    s
}

/// The JSON of a request that changes the standing of an identity.
pub open spec fn status_mutation_json(
    peer_id: Seq<char>,
    identity_revision: u64,
    wallet: WalletAuthorizationV2,
) -> Seq<char> {
    "{\"peer_id\":"@ + json_quoted(peer_id) + json_raw_field(
        "identity_revision"@,
        decimal(identity_revision as nat),
    ) + json_text_field("actor_public_key_hex"@, wallet.actor_public_key_hex@) + json_text_field(
        "actor_signature_hex"@,
        wallet.actor_signature_hex@,
    ) + "}"@
}

pub fn status_mutation_request(
    peer_id: &str,
    identity_revision: u64,
    wallet: &WalletAuthorizationV2,
) -> (s: String)
    ensures
        s@ == status_mutation_json(peer_id@, identity_revision, *wallet),
{
    let mut s = "{\"peer_id\":".to_owned();
    let quoted = json_string(peer_id);
    s.append(quoted.as_str());
    let revision = number_json(identity_revision);
    push_raw_field(&mut s, "identity_revision", revision.as_str());
    push_text_field(&mut s, "actor_public_key_hex", wallet.actor_public_key_hex.as_str());
    push_text_field(&mut s, "actor_signature_hex", wallet.actor_signature_hex.as_str());
    s.append("}");
    s
}

/// The body with which a signed call is submitted; its arguments are the
/// hexadecimal form of the request.
pub fn provisioning_call_body(
    method: &str,
    contract_address: &str,
    request_json: &str,
    signed_tx_json: &str,
) -> (s: String)
    ensures
        s@ == submission_body(
            method@,
            contract_address@,
            hex_text(encode_utf8(request_json@)),
            signed_tx_json@,
        ),
{
    let args_hex = hex_encode_bytes(request_json.as_bytes());
    call_body(method, contract_address, args_hex.as_str(), signed_tx_json)
}

/// A change is only signed for the chain that is pinned, where one is.
pub fn require_pinned_chain(pinned: Option<&str>, observed: &str) -> (r: Result<()>)
    ensures
        match pinned {
            Some(expected) => if expected@ == observed@ {
                r is Ok
            } else {
                r matches Err(e) && e@ == QlinkErrorView::Protocol(
                    "Dytallix chain ID mismatch: expected "@ + expected@ + ", got "@ + observed@,
                )
            },
            None => r is Ok,
        },
{
    match pinned {
        Some(expected) => if same_text(expected, observed) {
            Ok(())
        } else {
            let mut text = join3("Dytallix chain ID mismatch: expected ", expected, ", got ");
            text.append(observed);
            Err(QlinkError::Protocol(text))
        },
        None => Ok(()),
    }
}

/// The hash in the answer to a submission.
pub open spec fn hash_field(tx_hash: JsonField, hash: JsonField) -> Option<Seq<char>> {
    match tx_hash {
        JsonField::Text(text) => Some(text@),
        JsonField::Other => None,
        JsonField::Absent => match hash {
            JsonField::Text(text) => Some(text@),
            _ => None,
        },
    }
}

/// The hash of the submitted transaction: there must be one that is not blank.
pub fn require_tx_hash(tx_hash: JsonField, hash: JsonField) -> (r: Result<String>)
    ensures
        ({
            let found = hash_field(tx_hash, hash);
            if found is Some && trimmed(found->0).len() > 0 {
                r matches Ok(s) && s@ == found->0
            } else {
                r matches Err(e) && e@ == QlinkErrorView::Protocol(
                    "Dytallix contract submission did not return a transaction hash"@,
                )
            }
        }),
{
    if let Some(text) = submission_tx_hash(tx_hash, hash) {
        let bare = trim(text.as_str());
        if !bare.as_str().is_empty() {
            return Ok(text);
        }
    }
    Err(protocol("Dytallix contract submission did not return a transaction hash"))
}

// ---------------------------------------------------------------------------
// When a change is done
// ---------------------------------------------------------------------------

/// What asking for a transaction came to.
#[derive(Debug, Clone)]
pub enum TransactionPoll {
    Confirmed { block: u64 },
    Failed { reason: String },
    Pending,
    /// The chain could not be asked.
    Unavailable { error: String },
}

/// What to do after asking.
#[derive(Debug, Clone)]
pub enum ConfirmationStep {
    Done { block: u64 },
    Fail { error: QlinkError },
    /// Ask again after the poll interval.
    AskAgain,
}

/// The refusal of a transaction that was not confirmed in time.
pub open spec fn not_confirmed(tx_hash: Seq<char>, timeout: Duration) -> QlinkErrorView {
    QlinkErrorView::Protocol(
        "Dytallix transaction "@ + tx_hash + " was not confirmed within "@ + decimal(
            whole_seconds(timeout),
        ) + " seconds"@,
    )
}

/// Whole seconds of a span that a clock can measure.
pub open spec fn whole_seconds(d: Duration) -> nat {
    (saturated(d.nanos as int) / 1_000_000_000) as nat
}

fn push_seconds(s: &mut String, d: Duration)
    ensures
        final(s)@ == old(s)@ + decimal(whole_seconds(d)),
{
    let nanos: u128 = if d.nanos <= MAX_NANOS {
        d.nanos
    } else {
        MAX_NANOS
    };
    push_decimal(s, (nanos / 1_000_000_000) as u64);
}

/// What asking for a transaction leads to after some time of waiting.
pub open spec fn is_confirmation_step(
    step: ConfirmationStep,
    tx_hash: Seq<char>,
    poll: TransactionPoll,
    waited: Duration,
    timeout: Duration,
) -> bool {
    match poll {
        TransactionPoll::Confirmed { block } => step == (ConfirmationStep::Done { block }),
        TransactionPoll::Failed { reason } => step matches ConfirmationStep::Fail { error }
            && error@ == QlinkErrorView::Protocol(
            "Dytallix transaction "@ + tx_hash + " failed: "@ + reason@,
        ),
        TransactionPoll::Pending => if waited.nanos >= timeout.nanos {
            step matches ConfirmationStep::Fail { error } && error@ == not_confirmed(
                tx_hash,
                timeout,
            )
        } else {
            step is AskAgain
        },
        TransactionPoll::Unavailable { error: why } => if waited.nanos >= timeout.nanos {
            step matches ConfirmationStep::Fail { error } && error@ == QlinkErrorView::Protocol(
                "Dytallix SDK error: "@ + why@,
            )
        } else {
            step is AskAgain
        },
    }
}

/// What to do after asking for a transaction: a final answer ends the waiting, and
/// so does the timeout.
pub fn confirmation_step(
    tx_hash: &str,
    poll: TransactionPoll,
    waited: Duration,
    timeout: Duration,
) -> (step: ConfirmationStep)
    ensures
        is_confirmation_step(step, tx_hash@, poll, waited, timeout),
{
    match poll {
        TransactionPoll::Confirmed { block } => ConfirmationStep::Done { block },
        TransactionPoll::Failed { reason } => {
            let mut text = join3("Dytallix transaction ", tx_hash, " failed: ");
            text.append(reason.as_str());
            ConfirmationStep::Fail { error: QlinkError::Protocol(text) }
        },
        TransactionPoll::Pending => if waited.nanos >= timeout.nanos {
            let mut text = join3("Dytallix transaction ", tx_hash, " was not confirmed within ");
            push_seconds(&mut text, timeout);
            text.append(" seconds");
            ConfirmationStep::Fail { error: QlinkError::Protocol(text) }
        } else {
            ConfirmationStep::AskAgain
        },
        TransactionPoll::Unavailable { error } => if waited.nanos >= timeout.nanos {
            ConfirmationStep::Fail { error: provisioning_sdk_error(error.as_str()) }
        } else {
            ConfirmationStep::AskAgain
        },
    }
}

/// Two identities are the same in every field.
pub open spec fn same_identity(a: RegistryIdentityRecordV2, b: RegistryIdentityRecordV2) -> bool {
    &&& a.schema_version == b.schema_version
    &&& a.peer_id@ == b.peer_id@
    &&& a.owner_daddr@ == b.owner_daddr@
    &&& a.device_public_key_hash_hex@ == b.device_public_key_hash_hex@
    &&& a.node_signing_public_key_hash_hex@ == b.node_signing_public_key_hash_hex@
    &&& a.status == b.status
    &&& a.identity_revision == b.identity_revision
    &&& a.authorization_expires_at == b.authorization_expires_at
    &&& a.max_peer_record_ttl_seconds == b.max_peer_record_ttl_seconds
    &&& optional_text(a.mesh_scope_hash_hex) == optional_text(b.mesh_scope_hash_hex)
    &&& optional_text(a.metadata_commitment_hex) == optional_text(b.metadata_commitment_hex)
}

fn same_optional_text(a: &Option<String>, b: &Option<String>) -> (same: bool)
    ensures
        same == (optional_text(*a) == optional_text(*b)),
{
    match a {
        Some(x) => match b {
            Some(y) => same_text(x.as_str(), y.as_str()),
            None => false,
        },
        None => b.is_none(),
    }
}

fn same_optional_number(a: Option<u64>, b: Option<u64>) -> (same: bool)
    ensures
        same == (a == b),
{
    match a {
        Some(x) => match b {
            Some(y) => x == y,
            None => false,
        },
        None => b.is_none(),
    }
}

impl RegistryIdentityRecordV2 {
    /// The two identities are the same in every field.
    pub fn same_as(&self, other: &RegistryIdentityRecordV2) -> (same: bool)
        ensures
            same == same_identity(*self, *other),
    {
        self.schema_version == other.schema_version && same_text(
            self.peer_id.as_str(),
            other.peer_id.as_str(),
        ) && same_text(self.owner_daddr.as_str(), other.owner_daddr.as_str()) && same_text(
            self.device_public_key_hash_hex.as_str(),
            other.device_public_key_hash_hex.as_str(),
        ) && same_text(
            self.node_signing_public_key_hash_hex.as_str(),
            other.node_signing_public_key_hash_hex.as_str(),
        ) && self.status == other.status && self.identity_revision == other.identity_revision
            && same_optional_number(
            self.authorization_expires_at,
            other.authorization_expires_at,
        ) && self.max_peer_record_ttl_seconds == other.max_peer_record_ttl_seconds
            && same_optional_text(&self.mesh_scope_hash_hex, &other.mesh_scope_hash_hex)
            && same_optional_text(&self.metadata_commitment_hex, &other.metadata_commitment_hex)
    }
}

/// What to do after reading an identity back.
#[derive(Debug, Clone)]
pub enum ReadbackStep {
    Done { identity: RegistryIdentityRecordV2 },
    Fail { error: QlinkError },
    /// Read again after the poll interval.
    ReadAgain,
}

/// What reading an identity back leads to after some time of waiting.
pub open spec fn is_readback_step(
    step: ReadbackStep,
    expected: RegistryIdentityRecordV2,
    found: Option<RegistryIdentityRecordV2>,
    waited: Duration,
    timeout: Duration,
) -> bool {
    if found is Some && same_identity(found->0, expected) {
        step == (ReadbackStep::Done { identity: found->0 })
    } else if found is Some && found->0.identity_revision > expected.identity_revision {
        step matches ReadbackStep::Fail { error } && error@ == QlinkErrorView::Protocol(
            "Dytallix readback advanced past expected identity revision "@ + decimal(
                expected.identity_revision as nat,
            ),
        )
    } else if waited.nanos >= timeout.nanos {
        step matches ReadbackStep::Fail { error } && error@ == QlinkErrorView::Protocol(
            "Dytallix identity readback did not converge to revision "@ + decimal(
                expected.identity_revision as nat,
            ) + " within "@ + decimal(whole_seconds(timeout)) + " seconds"@,
        )
    } else {
        step is ReadAgain
    }
}

/// What to do after reading an identity back: the expected one ends the waiting, a
/// later one means that somebody else wrote, and the timeout ends it too.
pub fn readback_step(
    expected: &RegistryIdentityRecordV2,
    found: Option<RegistryIdentityRecordV2>,
    waited: Duration,
    timeout: Duration,
) -> (step: ReadbackStep)
    ensures
        is_readback_step(step, *expected, found, waited, timeout),
{
    if let Some(record) = found {
        if record.same_as(expected) {
            return ReadbackStep::Done { identity: record };
        }
        if record.identity_revision > expected.identity_revision {
            let mut text =
                "Dytallix readback advanced past expected identity revision ".to_owned();
            push_decimal(&mut text, expected.identity_revision);
            return ReadbackStep::Fail { error: QlinkError::Protocol(text) };
        }
    }
    if waited.nanos >= timeout.nanos {
        let mut text = "Dytallix identity readback did not converge to revision ".to_owned();
        push_decimal(&mut text, expected.identity_revision);
        text.append(" within ");
        push_seconds(&mut text, timeout);
        text.append(" seconds");
        return ReadbackStep::Fail { error: QlinkError::Protocol(text) };
    }
    ReadbackStep::ReadAgain
}

/// The receipt of a change that was confirmed and read back.
pub fn provisioning_receipt(
    config: &StableIdentityProvisioningConfigV2,
    operation: StableIdentityProvisioningOperationV2,
    tx_hash: String,
    confirmed_block: u64,
    chain_checkpoint_observed: String,
    identity: RegistryIdentityRecordV2,
) -> (r: StableIdentityProvisioningReceiptV2)
    ensures
        r.operation == operation,
        r.endpoint@ == config.endpoint@,
        r.contract_address@ == config.contract_address@,
        optional_text(r.network_id) == optional_text(config.network_id),
        optional_text(r.chain_id) == optional_text(config.chain_id),
        r.tx_hash == tx_hash,
        r.confirmed_block == confirmed_block,
        r.chain_checkpoint_observed == chain_checkpoint_observed,
        r.readback_verified,
        r.identity == identity,
{
    let network_id = match &config.network_id {
        Some(text) => Some(text.clone()),
        None => None,
    };
    let chain_id = match &config.chain_id {
        Some(text) => Some(text.clone()),
        None => None,
    };
    StableIdentityProvisioningReceiptV2 {
        operation,
        endpoint: config.endpoint.clone(),
        contract_address: config.contract_address.clone(),
        network_id,
        chain_id,
        tx_hash,
        confirmed_block,
        chain_checkpoint_observed,
        readback_verified: true,
        identity,
    }
}

// ---------------------------------------------------------------------------
// Laws
// ---------------------------------------------------------------------------

/// Revocation is final: no operation changes a revoked identity.
pub proof fn law_revocation_is_terminal(
    operation: StableIdentityProvisioningOperationV2,
    current: RegistryIdentityRecordV2,
)
    requires
        current.status == RegistryIdentityStatusV2::Revoked,
    ensures
        change_refusal(operation, Some(current)) == Some(
            "stable identity v2 revocation is terminal"@,
        ),
{
}

/// Only reactivation changes a suspended identity back to an active one, and it
/// changes no other.
pub proof fn law_only_reactivation_lifts_a_suspension(
    operation: StableIdentityProvisioningOperationV2,
    current: RegistryIdentityRecordV2,
)
    requires
        change_refusal(operation, Some(current)) is None,
    ensures
        operation == StableIdentityProvisioningOperationV2::Reactivate ==> current.status
            == RegistryIdentityStatusV2::Suspended,
        current.status == RegistryIdentityStatusV2::Suspended && status_after_update(
            operation,
            current.status,
        ) == RegistryIdentityStatusV2::Active ==> operation
            == StableIdentityProvisioningOperationV2::Reactivate,
{
}

/// Waiting ends: once the time is up no answer asks for more.
pub proof fn law_waiting_ends(
    step: ConfirmationStep,
    readback: ReadbackStep,
    tx_hash: Seq<char>,
    poll: TransactionPoll,
    expected: RegistryIdentityRecordV2,
    found: Option<RegistryIdentityRecordV2>,
    waited: Duration,
    timeout: Duration,
)
    requires
        waited.nanos >= timeout.nanos,
        is_confirmation_step(step, tx_hash, poll, waited, timeout),
        is_readback_step(readback, expected, found, waited, timeout),
    ensures
        !(step is AskAgain),
        !(readback is ReadAgain),
{
}

/// A change counts as done only once the registry shows exactly what was to be
/// written.
pub proof fn law_done_means_read_back(
    step: ReadbackStep,
    expected: RegistryIdentityRecordV2,
    found: Option<RegistryIdentityRecordV2>,
    waited: Duration,
    timeout: Duration,
)
    requires
        is_readback_step(step, expected, found, waited, timeout),
        step is Done,
    ensures
        found is Some,
        same_identity(found->0, expected),
        identity_json(found->0) == identity_json(expected),
{
}

} // verus!
