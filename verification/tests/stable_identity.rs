use qlink_core::discovery::{
    CandidateEndpoint, CandidateType, DevicePublicKey, InboundIdentityAssertion, PeerRecord,
    UnsignedPeerRecord,
};
use qlink_core::dytallix_identity::sha256_hex;
use qlink_core::dytallix_identity_v2::{
    canonical_device_payload_bytes, canonical_wallet_payload_bytes, decode_hex,
    mesh_scope_hash_hex, require_active_and_unexpired, signed_peer_record_issued_at_unix,
    verify_peer_record_signature, verify_stable_inbound_registry_binding,
    verify_stable_registry_binding, verify_stable_registry_binding_at,
    verify_stable_registry_binding_with_issued_at, DeviceAuthorizationV2,
    RegistryIdentityOperationV2, RegistryIdentityRecordV2, RegistryIdentityStatusV2,
    StableIdentityV2Error, StableIdentityV2Result, StableRegistryBindingDecisionV2,
    WalletAuthorizationV2, STABLE_IDENTITY_SCHEMA_VERSION,
};
use qlink_core::error::QlinkError;
use qlink_core::ice::IceCredentials;
use qlink_core::net::IpAddr;
use serde_json::Value;

const NOW: u64 = 1_900_000_000;
const OWNER: &str = "dytallix1owner";

fn device(name: &str) -> DevicePublicKey {
    key_of("ML-DSA-65", name.as_bytes())
}

fn key_of(algorithm: &str, bytes: &[u8]) -> DevicePublicKey {
    DevicePublicKey {
        algorithm: algorithm.to_string(),
        bytes: bytes.to_vec(),
        peer_id: format!("qlink_{}", hex::encode(bytes)),
        json: format!("{{\"algorithm\":\"{algorithm}\",\"bytes\":\"{}\"}}", hex::encode(bytes))
            .into_bytes(),
        fingerprint: "0000000000000000".to_string(),
    }
}

fn signed_peer_record(
    key: &DevicePublicKey,
    mesh_id: &str,
    expires_at_unix: u64,
    sequence: u64,
) -> PeerRecord {
    PeerRecord {
        body: UnsignedPeerRecord {
            mesh_id: mesh_id.to_string(),
            peer_id: key.peer_id.clone(),
            alias: format!("peer-{sequence}"),
            device_public_key: key.clone(),
            endpoints: vec![CandidateEndpoint {
                candidate_type: CandidateType::Host,
                address: "192.0.2.10".into(),
                ip: Some(IpAddr::V4(0xc000_020a)),
                port: 4433,
                priority: 100,
            }],
            routes: vec!["100.64.0.1/32".into()],
            issued_at_unix: NOW,
            expires_at_unix,
            sequence,
            ice_credentials: IceCredentials {
                ufrag: format!("user{sequence}"),
                password: format!("password{sequence}"),
            },
            device_certificate_der: format!("certificate-{sequence}").into_bytes(),
        },
        record_hash: vec![sequence as u8; 32],
        signature_error: None,
    }
}

fn active_record(owner: &str, peer_record: &PeerRecord, max_ttl: u64) -> RegistryIdentityRecordV2 {
    RegistryIdentityRecordV2::from_peer_record(
        owner,
        peer_record,
        RegistryIdentityStatusV2::Active,
        1,
        Some(NOW + 3_600),
        max_ttl,
        true,
        Some("ab".repeat(32)),
        None,
    )
    .unwrap()
}

fn verify_with_issued_at(
    peer_record: &PeerRecord,
    record: Option<&RegistryIdentityRecordV2>,
    issued_at_unix: u64,
) -> StableIdentityV2Result<StableRegistryBindingDecisionV2> {
    verify_peer_record_signature(peer_record, NOW)?;
    let record = record.ok_or(StableIdentityV2Error::Missing)?;
    record.validate(None)?;
    require_active_and_unexpired(record, NOW)?;
    verify_stable_registry_binding_with_issued_at(peer_record, record, issued_at_unix)
}

// A stand-in for a signature scheme: it depends on the key and on every byte.
fn toy_signature(key: &[u8], payload: &[u8]) -> Vec<u8> {
    let mut message = key.to_vec();
    message.extend_from_slice(payload);
    sha256_hex(&message).into_bytes()
}

fn derive_owner(key: &[u8]) -> Result<String, String> {
    if key == b"wallet" {
        Ok(OWNER.to_string())
    } else {
        Ok("dytallix1other".to_string())
    }
}

fn check_wallet(key: &[u8], payload: &[u8], signature: &[u8]) -> Result<bool, String> {
    Ok(toy_signature(key, payload) == signature)
}

fn check_device(key: &DevicePublicKey, payload: &[u8], signature: &[u8]) -> bool {
    toy_signature(&key.bytes, payload) == signature
}

#[test]
fn schema_serializes_exact_stable_fields_and_excludes_transient_fields() {
    let peer_record = signed_peer_record(&device("a"), "mesh-a", NOW + 120, 7);
    let record = active_record(OWNER, &peer_record, 300);
    let value: Value = serde_json::from_str(&record.to_json()).unwrap();
    let object = value.as_object().unwrap();

    let expected = [
        "schema_version",
        "peer_id",
        "owner_daddr",
        "device_public_key_hash_hex",
        "node_signing_public_key_hash_hex",
        "status",
        "identity_revision",
        "authorization_expires_at",
        "max_peer_record_ttl_seconds",
        "mesh_scope_hash_hex",
        "metadata_commitment_hex",
    ];
    assert_eq!(object.len(), expected.len());
    for field in expected {
        assert!(object.contains_key(field), "missing field {field}");
    }
    for transient in [
        "latest_peer_record_hash_hex",
        "transport_public_key_hash_hex",
        "expires_at_unix",
        "sequence",
        "endpoints",
        "ice_credentials",
    ] {
        assert!(!object.contains_key(transient));
    }
    assert_eq!(object["schema_version"], STABLE_IDENTITY_SCHEMA_VERSION);
}

#[test]
fn construction_is_stable_across_transient_peer_record_refreshes() {
    let first = signed_peer_record(&device("a"), "mesh-a", NOW + 120, 1);
    let second = signed_peer_record(&device("a"), "mesh-a", NOW + 240, 2);

    let first_record = active_record(OWNER, &first, 300);
    let second_record = active_record(OWNER, &second, 300);

    assert_eq!(first_record, second_record);
}

#[test]
fn construction_rejects_peer_id_that_does_not_match_device_key() {
    let mut peer_record = signed_peer_record(&device("a"), "mesh-a", NOW + 120, 1);
    peer_record.body.peer_id.push_str("-tampered");

    let error = RegistryIdentityRecordV2::from_peer_record(
        OWNER,
        &peer_record,
        RegistryIdentityStatusV2::Active,
        1,
        None,
        120,
        true,
        None,
        None,
    )
    .unwrap_err();

    assert_eq!(error, StableIdentityV2Error::WrongDevice);
}

#[test]
fn canonical_payloads_match_contract_domains_and_operations() {
    let peer_record = signed_peer_record(&device("a"), "mesh-a", NOW + 120, 1);
    let record = active_record(OWNER, &peer_record, 300);

    let wallet =
        canonical_wallet_payload_bytes(RegistryIdentityOperationV2::Register, &record, None)
            .unwrap();
    let wallet_again =
        canonical_wallet_payload_bytes(RegistryIdentityOperationV2::Register, &record, None)
            .unwrap();
    let device =
        canonical_device_payload_bytes(RegistryIdentityOperationV2::Register, &record, None)
            .unwrap();
    let update = canonical_wallet_payload_bytes(RegistryIdentityOperationV2::Update, &record, None)
        .unwrap();

    assert_eq!(wallet, wallet_again);
    assert_ne!(wallet, device);
    assert_ne!(wallet, update);
    let wallet: Value = serde_json::from_slice(&wallet).unwrap();
    let device: Value = serde_json::from_slice(&device).unwrap();
    let update: Value = serde_json::from_slice(&update).unwrap();
    assert_eq!(wallet["contract"], "quantumlink-node-registry-v2");
    assert_eq!(wallet["operation"], "register_identity");
    assert_eq!(wallet["record"]["peer_id"], record.peer_id.as_str());
    assert_eq!(update["operation"], "update_identity");
    assert_eq!(device["contract"], "quantumlink-node-registry-v2");
    assert_eq!(device["purpose"], "authorize-stable-identity-binding");
    assert_eq!(device["binding"]["peer_id"], record.peer_id.as_str());
}

#[test]
fn canonical_authorization_bytes_are_these() {
    let record = RegistryIdentityRecordV2 {
        schema_version: 2,
        peer_id: "qlink_peer".to_string(),
        owner_daddr: "dytallix1owner".to_string(),
        device_public_key_hash_hex:
            "00112233445566778899aabbccddeeff00112233445566778899aabbccddeeff".to_string(),
        node_signing_public_key_hash_hex:
            "ffeeddccbbaa99887766554433221100ffeeddccbbaa99887766554433221100".to_string(),
        status: RegistryIdentityStatusV2::Active,
        identity_revision: 7,
        authorization_expires_at: Some(1_900_003_600),
        max_peer_record_ttl_seconds: 300,
        mesh_scope_hash_hex: None,
        metadata_commitment_hex: Some(
            "abababababababababababababababababababababababababababababababab".to_string(),
        ),
    };
    let wallet = |operation| {
        String::from_utf8(canonical_wallet_payload_bytes(operation, &record, None).unwrap())
            .unwrap()
    };
    assert_eq!(
        wallet(RegistryIdentityOperationV2::Register),
        "{\"contract\":\"quantumlink-node-registry-v2\",\"schema_version\":2,\"operation\":\"register_identity\",\"record\":{\"schema_version\":2,\"peer_id\":\"qlink_peer\",\"owner_daddr\":\"dytallix1owner\",\"device_public_key_hash_hex\":\"00112233445566778899aabbccddeeff00112233445566778899aabbccddeeff\",\"node_signing_public_key_hash_hex\":\"ffeeddccbbaa99887766554433221100ffeeddccbbaa99887766554433221100\",\"status\":\"active\",\"identity_revision\":7,\"authorization_expires_at\":1900003600,\"max_peer_record_ttl_seconds\":300,\"mesh_scope_hash_hex\":null,\"metadata_commitment_hex\":\"abababababababababababababababababababababababababababababababab\"}}"
    );
    assert_eq!(
        wallet(RegistryIdentityOperationV2::Update),
        "{\"contract\":\"quantumlink-node-registry-v2\",\"schema_version\":2,\"operation\":\"update_identity\",\"record\":{\"schema_version\":2,\"peer_id\":\"qlink_peer\",\"owner_daddr\":\"dytallix1owner\",\"device_public_key_hash_hex\":\"00112233445566778899aabbccddeeff00112233445566778899aabbccddeeff\",\"node_signing_public_key_hash_hex\":\"ffeeddccbbaa99887766554433221100ffeeddccbbaa99887766554433221100\",\"status\":\"active\",\"identity_revision\":7,\"authorization_expires_at\":1900003600,\"max_peer_record_ttl_seconds\":300,\"mesh_scope_hash_hex\":null,\"metadata_commitment_hex\":\"abababababababababababababababababababababababababababababababab\"}}"
    );
    let device =
        canonical_device_payload_bytes(RegistryIdentityOperationV2::Register, &record, None)
            .unwrap();
    assert_eq!(
        String::from_utf8(device).unwrap(),
        "{\"contract\":\"quantumlink-node-registry-v2\",\"schema_version\":2,\"purpose\":\"authorize-stable-identity-binding\",\"binding\":{\"schema_version\":2,\"peer_id\":\"qlink_peer\",\"owner_daddr\":\"dytallix1owner\",\"device_public_key_hash_hex\":\"00112233445566778899aabbccddeeff00112233445566778899aabbccddeeff\",\"node_signing_public_key_hash_hex\":\"ffeeddccbbaa99887766554433221100ffeeddccbbaa99887766554433221100\",\"status\":\"active\",\"identity_revision\":7,\"authorization_expires_at\":1900003600,\"max_peer_record_ttl_seconds\":300,\"mesh_scope_hash_hex\":null,\"metadata_commitment_hex\":\"abababababababababababababababababababababababababababababababab\"}}"
    );
}

#[test]
fn payloads_are_the_exact_json() {
    let peer_record = signed_peer_record(&device("a"), "mesh-a", NOW + 120, 1);
    let record = active_record(OWNER, &peer_record, 300);
    let hash = sha256_hex(&device("a").json);
    let record_json = format!(
        "{{\"schema_version\":2,\"peer_id\":\"qlink_61\",\"owner_daddr\":\"{OWNER}\",\"device_public_key_hash_hex\":\"{hash}\",\"node_signing_public_key_hash_hex\":\"{hash}\",\"status\":\"active\",\"identity_revision\":1,\"authorization_expires_at\":{},\"max_peer_record_ttl_seconds\":300,\"mesh_scope_hash_hex\":\"{}\",\"metadata_commitment_hex\":\"{}\"}}",
        NOW + 3_600,
        mesh_scope_hash_hex("mesh-a"),
        "ab".repeat(32)
    );
    assert_eq!(record.to_json(), record_json);
    assert_eq!(
        canonical_wallet_payload_bytes(RegistryIdentityOperationV2::Register, &record, None)
            .unwrap(),
        format!("{{\"contract\":\"quantumlink-node-registry-v2\",\"schema_version\":2,\"operation\":\"register_identity\",\"record\":{record_json}}}").into_bytes()
    );
    assert_eq!(
        canonical_wallet_payload_bytes(RegistryIdentityOperationV2::Update, &record, None).unwrap(),
        format!("{{\"contract\":\"quantumlink-node-registry-v2\",\"schema_version\":2,\"operation\":\"update_identity\",\"record\":{record_json}}}").into_bytes()
    );
    assert_eq!(
        canonical_device_payload_bytes(RegistryIdentityOperationV2::Register, &record, None)
            .unwrap(),
        format!("{{\"contract\":\"quantumlink-node-registry-v2\",\"schema_version\":2,\"purpose\":\"authorize-stable-identity-binding\",\"binding\":{record_json}}}").into_bytes()
    );
}

#[test]
fn wallet_authorization_verifies_owner_bound_canonical_record() {
    let peer_record = signed_peer_record(&device("a"), "mesh-a", NOW + 120, 1);
    let record = active_record(OWNER, &peer_record, 300);

    let authorization = WalletAuthorizationV2::sign(
        RegistryIdentityOperationV2::Register,
        &record,
        b"wallet",
        &derive_owner(b"wallet"),
        None,
        |payload: &[u8]| Ok(toy_signature(b"wallet", payload)),
    )
    .unwrap();

    authorization
        .verify(
            RegistryIdentityOperationV2::Register,
            &record,
            None,
            derive_owner,
            check_wallet,
        )
        .unwrap();
    assert!(authorization
        .verify(
            RegistryIdentityOperationV2::Update,
            &record,
            None,
            derive_owner,
            check_wallet
        )
        .is_err());

    let mut changed = record.clone();
    changed.identity_revision += 1;
    assert!(authorization
        .verify(
            RegistryIdentityOperationV2::Register,
            &changed,
            None,
            derive_owner,
            check_wallet
        )
        .is_err());
}

#[test]
fn wallet_authorization_rejects_wrong_owner() {
    let peer_record = signed_peer_record(&device("a"), "mesh-a", NOW + 120, 1);
    let record = active_record("dytallix1other", &peer_record, 300);

    let error = WalletAuthorizationV2::sign(
        RegistryIdentityOperationV2::Register,
        &record,
        b"wallet",
        &derive_owner(b"wallet"),
        None,
        |payload: &[u8]| Ok(toy_signature(b"wallet", payload)),
    )
    .unwrap_err();

    assert!(matches!(
        error,
        StableIdentityV2Error::WalletAuthorization(_)
    ));
}

#[test]
fn device_authorization_verifies_and_rejects_tampering() {
    let key = device("a");
    let peer_record = signed_peer_record(&key, "mesh-a", NOW + 120, 1);
    let record = active_record(OWNER, &peer_record, 300);

    let authorization = DeviceAuthorizationV2::sign(
        RegistryIdentityOperationV2::Register,
        &record,
        &key,
        None,
        |payload: &[u8]| toy_signature(b"a", payload),
    )
    .unwrap();

    authorization
        .verify(
            RegistryIdentityOperationV2::Register,
            &record,
            None,
            key_of,
            check_device,
        )
        .unwrap();
    let mut changed = record.clone();
    changed.identity_revision += 1;
    assert_eq!(
        authorization
            .verify(
                RegistryIdentityOperationV2::Register,
                &changed,
                None,
                key_of,
                check_device
            )
            .unwrap_err(),
        StableIdentityV2Error::DeviceAuthorization(
            "device signature verification failed".to_string()
        )
    );
}

#[test]
fn device_authorization_rejects_wrong_device() {
    let peer_record = signed_peer_record(&device("a"), "mesh-a", NOW + 120, 1);
    let record = active_record(OWNER, &peer_record, 300);

    let error = DeviceAuthorizationV2::sign(
        RegistryIdentityOperationV2::Register,
        &record,
        &device("b"),
        None,
        |payload: &[u8]| toy_signature(b"b", payload),
    )
    .unwrap_err();

    assert_eq!(error, StableIdentityV2Error::WrongDevice);
}

#[test]
fn active_matching_binding_is_accepted_with_signed_timing_evidence() {
    let peer_record = signed_peer_record(&device("a"), "mesh-a", NOW + 120, 1);
    let record = active_record(OWNER, &peer_record, 120);

    assert_eq!(
        verify_with_issued_at(&peer_record, Some(&record), NOW).unwrap(),
        StableRegistryBindingDecisionV2::Accepted
    );
    assert_eq!(
        verify_stable_registry_binding(&peer_record, Some(&record), NOW, None).unwrap(),
        StableRegistryBindingDecisionV2::Accepted
    );
    assert_eq!(signed_peer_record_issued_at_unix(&peer_record).unwrap(), NOW);
}

#[test]
fn public_verifier_requires_nonzero_signed_issued_at() {
    let mut peer_record = signed_peer_record(&device("a"), "mesh-a", NOW + 120, 1);
    peer_record.body.issued_at_unix = 0;
    let record = active_record(OWNER, &peer_record, 120);

    let error =
        verify_stable_registry_binding_at(&peer_record, Some(&record), NOW, None).unwrap_err();

    assert_eq!(error, StableIdentityV2Error::MissingSignedIssuedAt);
}

#[test]
fn missing_registry_identity_is_rejected() {
    let peer_record = signed_peer_record(&device("a"), "mesh-a", NOW + 120, 1);

    let error = verify_stable_registry_binding_at(&peer_record, None, NOW, None).unwrap_err();

    assert_eq!(error, StableIdentityV2Error::Missing);
}

#[test]
fn revoked_and_suspended_identities_are_rejected() {
    let peer_record = signed_peer_record(&device("a"), "mesh-a", NOW + 120, 1);
    let mut record = active_record(OWNER, &peer_record, 120);

    record.status = RegistryIdentityStatusV2::Revoked;
    assert_eq!(
        verify_with_issued_at(&peer_record, Some(&record), NOW).unwrap_err(),
        StableIdentityV2Error::Revoked
    );

    record.status = RegistryIdentityStatusV2::Suspended;
    assert_eq!(
        verify_with_issued_at(&peer_record, Some(&record), NOW).unwrap_err(),
        StableIdentityV2Error::Suspended
    );
}

#[test]
fn wrong_device_identity_is_rejected() {
    let peer_record = signed_peer_record(&device("a"), "mesh-a", NOW + 120, 1);
    let other_peer_record = signed_peer_record(&device("b"), "mesh-a", NOW + 120, 1);
    let record = active_record(OWNER, &other_peer_record, 120);

    assert_eq!(
        verify_with_issued_at(&peer_record, Some(&record), NOW).unwrap_err(),
        StableIdentityV2Error::WrongDevice
    );
}

#[test]
fn wrong_node_signing_key_is_rejected() {
    let peer_record = signed_peer_record(&device("a"), "mesh-a", NOW + 120, 1);
    let mut record = active_record(OWNER, &peer_record, 120);
    record.node_signing_public_key_hash_hex = "cd".repeat(32);

    assert_eq!(
        verify_with_issued_at(&peer_record, Some(&record), NOW).unwrap_err(),
        StableIdentityV2Error::WrongNodeSigningKey
    );
}

#[test]
fn expired_authorization_is_rejected() {
    let peer_record = signed_peer_record(&device("a"), "mesh-a", NOW + 120, 1);
    let mut record = active_record(OWNER, &peer_record, 120);
    record.authorization_expires_at = Some(NOW);

    assert_eq!(
        verify_with_issued_at(&peer_record, Some(&record), NOW).unwrap_err(),
        StableIdentityV2Error::AuthorizationExpired { expires_at: NOW }
    );
}

#[test]
fn peer_record_ttl_policy_is_enforced_from_signed_issued_at() {
    let peer_record = signed_peer_record(&device("a"), "mesh-a", NOW + 301, 1);
    let record = active_record(OWNER, &peer_record, 300);

    assert_eq!(
        verify_with_issued_at(&peer_record, Some(&record), NOW).unwrap_err(),
        StableIdentityV2Error::PeerRecordTtlExceeded {
            actual_seconds: 301,
            maximum_seconds: 300,
        }
    );
}

#[test]
fn non_positive_peer_record_ttl_is_rejected() {
    let peer_record = signed_peer_record(&device("a"), "mesh-a", NOW + 120, 1);
    let record = active_record(OWNER, &peer_record, 300);

    let error = verify_stable_registry_binding_with_issued_at(
        &peer_record,
        &record,
        peer_record.body.expires_at_unix,
    )
    .unwrap_err();

    assert!(matches!(
        error,
        StableIdentityV2Error::InvalidPeerRecordTtl(_)
    ));
}

#[test]
fn wrong_mesh_scope_is_rejected() {
    let peer_record = signed_peer_record(&device("a"), "mesh-a", NOW + 120, 1);
    let mut record = active_record(OWNER, &peer_record, 120);
    record.mesh_scope_hash_hex = Some(mesh_scope_hash_hex("mesh-b"));

    assert_eq!(
        verify_with_issued_at(&peer_record, Some(&record), NOW).unwrap_err(),
        StableIdentityV2Error::WrongMeshScope
    );
}

#[test]
fn malformed_or_wrong_version_records_are_rejected() {
    let peer_record = signed_peer_record(&device("a"), "mesh-a", NOW + 120, 1);
    let mut record = active_record(OWNER, &peer_record, 120);

    record.schema_version = 1;
    let error = record.validate(None).unwrap_err();
    assert_eq!(error, StableIdentityV2Error::UnsupportedSchemaVersion(1));
    assert!(error
        .to_string()
        .contains("unsupported Dytallix stable identity schema version 1"));

    record.schema_version = STABLE_IDENTITY_SCHEMA_VERSION;
    record.device_public_key_hash_hex = "ABCDEF".repeat(10) + "ABCD";
    assert!(matches!(
        record.validate(None).unwrap_err(),
        StableIdentityV2Error::InvalidRecord(_)
    ));
}

#[test]
fn tampered_peer_record_signature_is_rejected_before_binding() {
    let mut peer_record = signed_peer_record(&device("a"), "mesh-a", NOW + 120, 1);
    let record = active_record(OWNER, &peer_record, 120);
    peer_record.body.routes.push("100.64.0.2/32".into());
    peer_record.signature_error = Some(QlinkError::SignatureVerification);

    let error = verify_with_issued_at(&peer_record, Some(&record), NOW).unwrap_err();

    assert!(matches!(error, StableIdentityV2Error::InvalidPeerRecord(_)));
}

#[test]
fn inbound_assertions_are_held_to_the_stable_identity() {
    let peer_record = signed_peer_record(&device("a"), "mesh-a", NOW + 120, 1);
    let record = active_record(OWNER, &peer_record, 120);
    let assertion = InboundIdentityAssertion {
        peer_id: device("a").peer_id,
        mesh_id: "mesh-a".to_string(),
        device_public_key: device("a"),
        verification_error: None,
    };
    assert_eq!(
        verify_stable_inbound_registry_binding(&assertion, Some(&record), NOW, None).unwrap(),
        StableRegistryBindingDecisionV2::Accepted
    );
    assert_eq!(
        verify_stable_inbound_registry_binding(&assertion, None, NOW, None).unwrap_err(),
        StableIdentityV2Error::Missing
    );
    let mut unproven = assertion.clone();
    unproven.verification_error = Some(QlinkError::SignatureVerification);
    assert!(matches!(
        verify_stable_inbound_registry_binding(&unproven, Some(&record), NOW, None).unwrap_err(),
        StableIdentityV2Error::InvalidPeerRecord(_)
    ));
    let mut elsewhere = assertion.clone();
    elsewhere.mesh_id = "mesh-b".to_string();
    assert_eq!(
        verify_stable_inbound_registry_binding(&elsewhere, Some(&record), NOW, None).unwrap_err(),
        StableIdentityV2Error::WrongMeshScope
    );
}

#[test]
fn owners_that_are_no_address_are_refused() {
    let peer_record = signed_peer_record(&device("a"), "mesh-a", NOW + 120, 1);
    let record = active_record(OWNER, &peer_record, 120);
    let error = record.validate(Some("bad checksum")).unwrap_err();
    assert!(error.to_string().contains("bad checksum"));
    let text = decode_hex("actor_public_key_hex", "zz").unwrap_err().to_string();
    assert!(text.contains(
        "actor_public_key_hex is not valid hexadecimal: Invalid character 'z' at position 0"
    ));
}
