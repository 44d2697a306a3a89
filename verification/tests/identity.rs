use qlink_core::discovery::{
    CandidateEndpoint, CandidateType, DevicePublicKey, InboundIdentityAssertion, PeerRecord,
    UnsignedPeerRecord,
};
use qlink_core::dytallix_identity::{
    canonical_binding_payload_bytes, canonical_wallet_record_payload_bytes,
    canonical_wallet_revoke_payload_bytes, contract_call_submission_body, contract_json_refusal,
    contract_result_bytes, device_public_key_hash_hex, dytallix_policy_status_label,
    dytallix_sdk_error, encode_contract_args, encode_contract_call_args, enrolled_wallet,
    evaluate_dytallix_policy_status, latest_peer_record_hash_hex, lookup_outcome,
    mesh_trust_policy_label, node_signing_public_key_hash_hex, normalize_endpoint_pin,
    plan_enrollment_wallet, pqc_binding_hash_hex, registry_node_record_json, select_wallet_name,
    sha256_hex, stable_lookup_outcome, submission_tx_hash, transport_public_key_hash_hex,
    validate_registry_submission_response, verify_inbound_registry_assertion,
    verify_peer_record_identity, verify_registry_binding, write_record, DeviceBindingAuthorization,
    DytallixIdentityRegistry, DytallixPolicyStatus, DytallixRegistryBindingVersion,
    DytallixRegistryConfig, DytallixRegistryLookupConfig, GetNodeRequest, JsonField,
    MeshTrustPolicy, RegisterNodeRequest, RegistryContractMethod, RegistryDecision,
    RegistryNodeRecord, RegistryNodeStatus, RegistryQueryResponse, RevokeNodeRequest,
    WalletAuthorization,
};
use qlink_core::error::QlinkError;
use qlink_core::ice::IceCredentials;
use qlink_core::net::IpAddr;
use serde_json::Value;

const NOW: u64 = 1_725_000_100;
const ADDRESS: &str = "0x9a9671441249ee2c364f9b4bc8049e61b082449a";

fn device_key() -> DevicePublicKey {
    DevicePublicKey {
        algorithm: "ML-DSA-65".to_string(),
        bytes: b"device-public-key".to_vec(),
        peer_id: "qlink_registry-test-peer".to_string(),
        json: br#"{"algorithm":"ML-DSA-65","bytes":[1,2,3]}"#.to_vec(),
        fingerprint: "0102030405060708".to_string(),
    }
}

fn fresh_peer_record() -> PeerRecord {
    PeerRecord {
        body: UnsignedPeerRecord {
            mesh_id: "dytallix-mesh".to_string(),
            peer_id: "qlink_registry-test-peer".to_string(),
            alias: "registry-test-node".to_string(),
            device_public_key: device_key(),
            endpoints: vec![CandidateEndpoint {
                candidate_type: CandidateType::Host,
                address: "192.0.2.10".to_string(),
                ip: Some(IpAddr::V4(0xc000_020a)),
                port: 4433,
                priority: 100,
            }],
            routes: vec!["100.64.10.7/32".to_string()],
            issued_at_unix: NOW,
            expires_at_unix: NOW + 300,
            sequence: 42,
            ice_credentials: IceCredentials {
                ufrag: "ufrag".to_string(),
                password: "password".to_string(),
            },
            device_certificate_der: b"test-quic-certificate-der".to_vec(),
        },
        record_hash: vec![0x5a; 32],
        signature_error: None,
    }
}

fn active_registry_record(peer_record: &PeerRecord) -> RegistryNodeRecord {
    RegistryNodeRecord::from_peer_record(
        "daddr:owner:registry-test",
        peer_record,
        RegistryNodeStatus::Active,
        1_725_000_000,
    )
    .unwrap()
}

// A stand-in for a signature scheme: it depends on the key and on every byte.
fn toy_signature(key: &[u8], payload: &[u8]) -> Vec<u8> {
    let mut message = key.to_vec();
    message.extend_from_slice(payload);
    let mut signature = Vec::new();
    for round in 0..20_u8 {
        message.push(round);
        signature.extend_from_slice(sha256_hex(&message).as_bytes());
    }
    signature
}

fn toy_verify(key: &[u8], payload: &[u8], signature: &[u8]) -> bool {
    toy_signature(key, payload) == signature
}

fn wallet_key() -> Vec<u8> {
    vec![0x77; 1_952]
}

fn json(text: &str) -> Value {
    serde_json::from_str(text).unwrap()
}

// What the registry client does with a contract's answer.
fn decode_response(value: &Value) -> Result<RegistryQueryResponse, QlinkError> {
    let field = match value.get("result") {
        None => JsonField::Absent,
        Some(Value::String(text)) => JsonField::Text(text.clone()),
        Some(_) => JsonField::Other,
    };
    let body: Value = match contract_result_bytes(&field, "registry")? {
        Some(bytes) => serde_json::from_slice(&bytes)
            .map_err(|err| contract_json_refusal(true, "registry", &err.to_string()))?,
        None => value.clone(),
    };
    Ok(RegistryQueryResponse {
        ok: body["ok"].as_bool().unwrap(),
        node: None,
        events: body["events"].as_array().unwrap().iter().map(|e| e.to_string()).collect(),
        error: body["error"].as_str().map(|e| e.to_string()),
    })
}

#[test]
fn rejects_expired_peer_record_even_when_registry_record_matches() {
    let mut peer_record = fresh_peer_record();
    peer_record.body.expires_at_unix = NOW - 1;
    let registry_record = active_registry_record(&peer_record);

    let err = verify_registry_binding(
        &peer_record,
        Some(&registry_record),
        MeshTrustPolicy::PublicRequired,
        NOW,
    )
    .unwrap_err();

    assert!(matches!(err, QlinkError::RecordExpired));
}

#[test]
fn registry_config_normalizes_raw_contract_address() {
    let config = DytallixRegistryConfig::new(
        "https://dytallix.com",
        "9a9671441249ee2c364f9b4bc8049e61b082449a",
        "/tmp/keystore.json",
        None,
    )
    .unwrap();

    assert_eq!(
        config.contract_address,
        "0x9a9671441249ee2c364f9b4bc8049e61b082449a"
    );
}

#[test]
fn registry_config_accepts_prefixed_contract_address() {
    let config = DytallixRegistryConfig::new(
        "https://dytallix.com",
        "0x9a9671441249ee2c364f9b4bc8049e61b082449a",
        "/tmp/keystore.json",
        None,
    )
    .unwrap();

    assert_eq!(
        config.contract_address,
        "0x9a9671441249ee2c364f9b4bc8049e61b082449a"
    );
}

#[test]
fn contract_call_submission_body_includes_signed_tx_and_route_fields() {
    let body = json(&contract_call_submission_body(
        RegistryContractMethod::RegisterNode,
        "0x9a9671441249ee2c364f9b4bc8049e61b082449a",
        "7b7d",
        r#"{"transaction":"signed"}"#,
    ));

    assert_eq!(
        body["address"],
        "0x9a9671441249ee2c364f9b4bc8049e61b082449a"
    );
    assert_eq!(body["method"], "register_node");
    assert_eq!(body["args"], "7b7d");
    assert_eq!(body["signed_tx"]["transaction"], "signed");
}

#[test]
fn registry_query_response_decodes_direct_contract_json() {
    let response =
        decode_response(&json(r#"{"ok":true,"node":null,"events":[],"error":null}"#)).unwrap();

    assert!(response.ok);
    assert!(response.node.is_none());
}

#[test]
fn registry_query_response_decodes_dytallix_result_hex_wrapper() {
    let response_json = br#"{"ok":true,"node":null,"events":[],"error":null}"#;
    let wrapper = format!(
        r#"{{"contract_address":"{ADDRESS}","method":"get_node","result":"{}"}}"#,
        hex::encode(response_json)
    );
    let response = decode_response(&json(&wrapper)).unwrap();

    assert!(response.ok);
    assert!(response.node.is_none());
}

#[test]
fn wrapped_results_must_be_hex() {
    let refusal = |text: &str| {
        contract_result_bytes(&JsonField::Text(text.to_string()), "registry")
            .unwrap_err()
            .to_string()
    };
    for (text, reason) in [
        ("7b7", "Odd number of digits"),
        ("g7b", "Odd number of digits"),
        ("7g", "Invalid character 'g' at position 1"),
        ("7b7dz0", "Invalid character 'z' at position 4"),
        ("\n0", "Invalid character '\\n' at position 0"),
        ("7\u{e9}0", "Invalid character '\u{c3}' at position 1"),
    ] {
        assert_eq!(
            refusal(text),
            format!("protocol error: dytallix registry result is not valid hex: {reason}")
        );
    }
    let upper = contract_result_bytes(&JsonField::Text("7B7d".to_string()), "registry").unwrap();
    assert_eq!(upper, Some(b"{}".to_vec()));
    assert_eq!(contract_result_bytes(&JsonField::Other, "registry").unwrap(), None);
    assert_eq!(
        contract_json_refusal(false, "registry", "why").to_string(),
        "protocol error: dytallix registry response is not valid JSON: why"
    );
}

#[test]
fn registry_submission_response_accepts_successful_contract_result() {
    let response_json = br#"{"ok":true,"node":null,"events":[],"error":null}"#;
    let value = json(&format!(
        r#"{{"tx_hash":"0xabc","result":"{}"}}"#,
        hex::encode(response_json)
    ));
    validate_registry_submission_response(true, false, decode_response(&value)).unwrap();
}

#[test]
fn registry_submission_response_rejects_contract_error_result() {
    let response_json =
        br#"{"ok":false,"node":null,"events":[],"error":"node already registered"}"#;
    let value = json(&format!(
        r#"{{"tx_hash":"0xabc","result":"{}"}}"#,
        hex::encode(response_json)
    ));
    let err = validate_registry_submission_response(true, false, decode_response(&value))
        .unwrap_err();

    assert!(err
        .to_string()
        .contains("dytallix registry contract rejected request: node already registered"));
}

#[test]
fn registry_submission_response_allows_async_ack_without_contract_result() {
    validate_registry_submission_response(
        false,
        false,
        Err(QlinkError::Protocol("never looked at".to_string())),
    )
    .unwrap();
    assert_eq!(
        submission_tx_hash(JsonField::Text("0xabc".to_string()), JsonField::Absent),
        Some("0xabc".to_string())
    );
    assert_eq!(
        submission_tx_hash(JsonField::Absent, JsonField::Text("0xdef".to_string())),
        Some("0xdef".to_string())
    );
    assert_eq!(
        submission_tx_hash(JsonField::Other, JsonField::Text("0xdef".to_string())),
        None
    );
}

#[test]
fn enrollment_creates_named_wallet_when_missing() {
    let config = DytallixRegistryConfig::new(
        "https://dytallix.com",
        "0x9a9671441249ee2c364f9b4bc8049e61b082449a",
        "/tmp/keystore.json",
        Some("quantumlink".to_string()),
    )
    .unwrap();

    let plan = plan_enrollment_wallet(config.wallet_name.as_deref(), &Vec::new(), None);
    assert!(plan.create_wallet);
    assert!(plan.set_active);
    let enrollment =
        enrolled_wallet(&config.keystore_path, &plan, Ok("dytallix1owner".to_string())).unwrap();

    assert!(enrollment.created_wallet);
    assert_eq!(enrollment.wallet_name, "quantumlink");
    assert_eq!(enrollment.keystore_path, "/tmp/keystore.json");
    assert!(enrollment.wallet_address.starts_with("dytallix1"));
}

#[test]
fn enrollment_reuses_active_wallet_when_name_is_not_specified() {
    let existing = vec!["operator".to_string()];
    let plan = plan_enrollment_wallet(None, &existing, Some("operator"));
    assert!(!plan.set_active);
    let enrollment =
        enrolled_wallet("/tmp/keystore.json", &plan, Ok("dytallix1operator".to_string())).unwrap();

    assert!(!enrollment.created_wallet);
    assert_eq!(enrollment.wallet_name, "operator");
    assert_eq!(enrollment.wallet_address, "dytallix1operator");
}

#[test]
fn enrollment_falls_back_to_the_default_name() {
    let plan = plan_enrollment_wallet(None, &vec!["quantumlink".to_string()], None);
    assert_eq!(plan.wallet_name, "quantumlink");
    assert!(!plan.create_wallet);
    assert!(plan.set_active);
    let error = enrolled_wallet("k", &plan, Err("bad key".to_string())).unwrap_err();
    assert_eq!(
        error.to_string(),
        "invalid key material: dytallix address derivation failed: bad key"
    );
    assert_eq!(select_wallet_name(Some("a"), Some("b")).unwrap(), "a");
    assert_eq!(select_wallet_name(None, Some("b")).unwrap(), "b");
    assert!(select_wallet_name(None, None).is_err());
}

#[test]
fn registry_lookup_config_decodes_and_normalizes_contract_address() {
    let config = DytallixRegistryLookupConfig::from_fields(
        "https://dytallix.com",
        "9a9671441249ee2c364f9b4bc8049e61b082449a",
        DytallixRegistryBindingVersion::ExactPeerRecordV1,
        Some(" dytallix-testnet ".to_string()),
        Some(" dytallix-testnet-1 ".to_string()),
        vec![" https://dytallix.com/ ".to_string(), " ".to_string()],
    )
    .unwrap();

    assert_eq!(config.endpoint, "https://dytallix.com");
    assert_eq!(
        config.contract_address,
        "0x9a9671441249ee2c364f9b4bc8049e61b082449a"
    );
    assert_eq!(config.network_id.as_deref(), Some("dytallix-testnet"));
    assert_eq!(config.chain_id.as_deref(), Some("dytallix-testnet-1"));
    assert_eq!(
        config.allowed_rpc_endpoints,
        vec!["https://dytallix.com/".to_string()]
    );
}

#[test]
fn registry_lookup_config_accepts_named_quantumlink_contract() {
    let config = DytallixRegistryLookupConfig::from_fields(
        "https://dytallix.com",
        "quantumlink-node-registry",
        DytallixRegistryBindingVersion::ExactPeerRecordV1,
        Some("dytallix-mainnet".to_string()),
        Some("dytallix-mainnet-1".to_string()),
        vec!["https://dytallix.com".to_string()],
    )
    .unwrap();

    assert_eq!(config.contract_address, "quantumlink-node-registry");
}

#[test]
fn registry_lookup_config_rejects_endpoint_outside_allowlist() {
    let err = DytallixRegistryLookupConfig::from_fields(
        "https://evil.example",
        "0x9a9671441249ee2c364f9b4bc8049e61b082449a",
        DytallixRegistryBindingVersion::ExactPeerRecordV1,
        Some("dytallix-testnet".to_string()),
        Some("dytallix-testnet-1".to_string()),
        vec!["https://dytallix.com".to_string()],
    )
    .unwrap_err();

    assert!(err.to_string().contains("pinned allowlist"));
}

#[test]
fn lookup_only_registry_rejects_write_methods_with_protocol_error() {
    let registry = DytallixIdentityRegistry::from_lookup_config(
        DytallixRegistryLookupConfig::new(
            "https://dytallix.com",
            "0x9a9671441249ee2c364f9b4bc8049e61b082449a",
        )
        .unwrap(),
    )
    .unwrap();

    let err = registry.write_config().unwrap_err();

    assert!(matches!(err, QlinkError::Protocol(_)));
    assert!(err.to_string().contains("lookup-only registry"));
}

#[test]
fn registry_config_rejects_slash_or_query_contract_address() {
    for address in [
        "0x9a9671441249ee2c364f9b4bc8049e61b082449a/../../tx",
        "0x9a9671441249ee2c364f9b4bc8049e61b082449a?args=evil",
    ] {
        let err = DytallixRegistryConfig::new(
            "https://dytallix.com",
            address,
            "/tmp/keystore.json",
            None,
        )
        .unwrap_err();

        assert!(err.to_string().contains("Invalid contract address"));
    }
}

#[test]
fn registry_config_rejects_non_hex_contract_address() {
    let err = DytallixRegistryConfig::new(
        "https://dytallix.com",
        "0x9a9671441249ee2c364f9b4bc8049e61b08244zz",
        "/tmp/keystore.json",
        None,
    )
    .unwrap_err();

    assert!(err.to_string().contains("Invalid contract address"));
}

#[test]
fn registry_config_rejects_short_contract_address() {
    let err = DytallixRegistryConfig::new(
        "https://dytallix.com",
        "0x9a9671441249ee2c364f9b4bc8049e61b08244",
        "/tmp/keystore.json",
        None,
    )
    .unwrap_err();

    assert!(err.to_string().contains("Invalid contract address"));
}

#[test]
fn register_call_args_are_hex_encoded_json() {
    let peer_record = fresh_peer_record();
    let owner = "dytallix1owner";
    let record = RegistryNodeRecord::from_peer_record(
        owner,
        &peer_record,
        RegistryNodeStatus::Active,
        1_725_000_000,
    )
    .unwrap();
    let key = wallet_key();
    let wallet_auth = WalletAuthorization::sign_record(
        RegistryContractMethod::RegisterNode,
        &record,
        &key,
        |payload: &[u8]| Ok(toy_signature(&wallet_key(), payload)),
    )
    .unwrap();
    let device_auth = DeviceBindingAuthorization::sign(
        owner,
        &peer_record,
        &peer_record.body.device_public_key,
        |payload: &[u8]| toy_signature(b"device", payload),
    )
    .unwrap();
    let request = RegisterNodeRequest::new(record, wallet_auth, device_auth);

    let call =
        encode_contract_call_args(RegistryContractMethod::RegisterNode, &request.to_json())
            .unwrap();
    assert_eq!(call.method, "register_node");
    let decoded = hex::decode(&call.args_hex).unwrap();
    let value: Value = serde_json::from_slice(&decoded).unwrap();

    assert_eq!(value["record"]["peer_id"], peer_record.body.peer_id.as_str());
    assert_eq!(value["record"]["owner_daddr"], owner);
    assert!(value["actor_public_key_hex"].as_str().unwrap().len() > 1_000);
    assert!(value["actor_signature_hex"].as_str().unwrap().len() > 1_000);
    assert_eq!(
        value["device_public_key_algorithm"],
        peer_record.body.device_public_key.algorithm.as_str()
    );
    assert_eq!(
        value["device_public_key_hex"],
        hex::encode(&peer_record.body.device_public_key.bytes).as_str()
    );
    assert!(
        value["device_binding_signature_hex"]
            .as_str()
            .unwrap()
            .len()
            > 1_000
    );
}

#[test]
fn wallet_authorization_signs_canonical_contract_payload_with_dytallix_keypair() {
    let peer_record = fresh_peer_record();
    let record = RegistryNodeRecord::from_peer_record(
        "dytallix1owner",
        &peer_record,
        RegistryNodeStatus::Active,
        1_725_000_000,
    )
    .unwrap();
    let key = wallet_key();

    let auth = WalletAuthorization::sign_record(
        RegistryContractMethod::RegisterNode,
        &record,
        &key,
        |payload: &[u8]| Ok(toy_signature(&wallet_key(), payload)),
    )
    .unwrap();
    let payload =
        canonical_wallet_record_payload_bytes(RegistryContractMethod::RegisterNode, &record)
            .unwrap();
    let payload_json: Value = serde_json::from_slice(&payload).unwrap();
    let signature = hex::decode(&auth.actor_signature_hex).unwrap();

    assert_eq!(payload_json["operation"], "register_node");
    assert!(payload_json.get("method").is_none());
    assert_eq!(auth.actor_public_key_hex, hex::encode(&key));
    assert!(toy_verify(&key, &payload, &signature));

    let mut changed = record.clone();
    changed.peer_id.push_str("-changed");
    let changed_payload =
        canonical_wallet_record_payload_bytes(RegistryContractMethod::RegisterNode, &changed)
            .unwrap();
    assert!(!toy_verify(&key, &changed_payload, &signature));
}

#[test]
fn wallet_signing_errors_are_passed_on() {
    let record = active_registry_record(&fresh_peer_record());
    let error = WalletAuthorization::sign_record(
        RegistryContractMethod::UpdateNode,
        &record,
        b"key",
        |_: &[u8]| Err("locked".to_string()),
    )
    .unwrap_err();
    assert!(error.to_string().contains("locked"));
}

#[test]
fn wallet_revoke_authorization_uses_contract_operation_schema() {
    let key = wallet_key();
    let peer_id = "qlink_registry_revoke_test";
    let block_time = 1_725_000_300;

    let auth = WalletAuthorization::sign_revoke(peer_id, block_time, &key, |payload: &[u8]| {
        Ok(toy_signature(&wallet_key(), payload))
    })
    .unwrap();
    let payload = canonical_wallet_revoke_payload_bytes(peer_id, block_time).unwrap();
    let payload_json: Value = serde_json::from_slice(&payload).unwrap();
    let signature = hex::decode(&auth.actor_signature_hex).unwrap();

    assert_eq!(payload_json["operation"], "revoke_node");
    assert!(payload_json.get("method").is_none());
    assert!(toy_verify(&key, &payload, &signature));

    let request = RevokeNodeRequest {
        peer_id: peer_id.to_string(),
        block_time,
        wallet_authorization: auth,
    };
    let value = json(&request.to_json());
    assert_eq!(value["peer_id"], peer_id);
    assert_eq!(value["block_time"], block_time);
    let query = GetNodeRequest { peer_id: peer_id.to_string() };
    assert_eq!(query.to_json(), r#"{"peer_id":"qlink_registry_revoke_test"}"#);
    assert_eq!(encode_contract_args("{}").unwrap(), "7b7d");
}

#[test]
fn device_binding_authorization_signs_owner_bound_payload_with_quantumlink_keypair() {
    let peer_record = fresh_peer_record();
    let owner = "dytallix1owner";

    let auth = DeviceBindingAuthorization::sign(
        owner,
        &peer_record,
        &peer_record.body.device_public_key,
        |payload: &[u8]| toy_signature(b"device", payload),
    )
    .unwrap();
    let payload = canonical_binding_payload_bytes(owner, &peer_record).unwrap();
    let signature = hex::decode(&auth.device_binding_signature_hex).unwrap();

    assert_eq!(auth.device_public_key_algorithm, "ML-DSA-65");
    assert_eq!(
        auth.device_public_key_hex,
        hex::encode(&peer_record.body.device_public_key.bytes)
    );
    assert!(toy_verify(b"device", &payload, &signature));

    let changed_payload =
        canonical_binding_payload_bytes("dytallix1differentowner", &peer_record).unwrap();
    assert!(!toy_verify(b"device", &changed_payload, &signature));
}

#[test]
fn query_response_decodes_registry_node_record() {
    let peer_record = fresh_peer_record();
    let record = active_registry_record(&peer_record);
    let response = RegistryQueryResponse {
        ok: true,
        node: Some(record),
        events: vec![format!(
            r#"{{"type":"node_registered","peer_id":"{}"}}"#,
            peer_record.body.peer_id
        )],
        error: None,
    };

    assert_eq!(response.events.len(), 1);
    assert!(response.error.is_none());
    let node = lookup_outcome(response).unwrap();
    assert_eq!(node.unwrap().peer_id, peer_record.body.peer_id);
}

#[test]
fn failed_lookups_say_why() {
    let refused = |error: Option<&str>| {
        lookup_outcome(RegistryQueryResponse {
            ok: false,
            node: None,
            events: Vec::new(),
            error: error.map(|e| e.to_string()),
        })
        .unwrap_err()
        .to_string()
    };
    assert_eq!(
        refused(Some("paused")),
        "protocol error: dytallix registry lookup failed: paused"
    );
    assert!(refused(None).starts_with("protocol error: dytallix registry lookup failed: "));
    assert_eq!(stable_lookup_outcome(true, Some(7_u8), None).unwrap(), Some(7));
    assert!(stable_lookup_outcome::<u8>(false, Some(7), Some("no".to_string())).is_err());
    assert!(dytallix_sdk_error("boom").to_string().contains("boom"));
}

#[test]
fn public_policy_accepts_active_matching_registry_record() {
    let peer_record = fresh_peer_record();
    let registry_record = active_registry_record(&peer_record);

    let decision = verify_registry_binding(
        &peer_record,
        Some(&registry_record),
        MeshTrustPolicy::PublicRequired,
        NOW,
    )
    .unwrap();

    assert_eq!(decision, RegistryDecision::Accepted);
}

#[test]
fn policy_status_helper_accepts_active_registry_status() {
    let decision = evaluate_dytallix_policy_status(
        MeshTrustPolicy::PublicRequired,
        DytallixPolicyStatus::Active,
        false,
    )
    .unwrap();

    assert!(decision.accepted);
    assert!(decision.warning.is_none());
}

#[test]
fn policy_status_helper_warns_for_private_registry_unavailable() {
    let decision = evaluate_dytallix_policy_status(
        MeshTrustPolicy::PrivatePreferred,
        DytallixPolicyStatus::Unavailable,
        false,
    )
    .unwrap();

    assert!(decision.accepted);
    assert!(decision.warning.unwrap().contains("registry unavailable"));
}

#[test]
fn policy_status_helper_rejects_public_or_explicit_verification_gaps() {
    let public_missing = evaluate_dytallix_policy_status(
        MeshTrustPolicy::PublicRequired,
        DytallixPolicyStatus::Missing,
        false,
    )
    .unwrap_err();
    assert!(public_missing.to_string().contains("public mesh policy"));
    assert!(public_missing.to_string().contains("missing"));

    let private_unavailable_required = evaluate_dytallix_policy_status(
        MeshTrustPolicy::PrivatePreferred,
        DytallixPolicyStatus::Unavailable,
        true,
    )
    .unwrap_err();
    assert!(private_unavailable_required
        .to_string()
        .contains("private mesh policy"));
    assert!(private_unavailable_required
        .to_string()
        .contains("registry unavailable"));
}

#[test]
fn policy_status_helper_rejects_non_active_registry_results() {
    for status in [
        DytallixPolicyStatus::Missing,
        DytallixPolicyStatus::Revoked,
        DytallixPolicyStatus::Suspended,
        DytallixPolicyStatus::Mismatched,
        DytallixPolicyStatus::Stale,
    ] {
        let err =
            evaluate_dytallix_policy_status(MeshTrustPolicy::PrivatePreferred, status, false)
                .unwrap_err();

        assert!(err.to_string().contains("active Dytallix"));
    }
}

#[test]
fn policies_and_statuses_have_names() {
    assert_eq!(mesh_trust_policy_label(MeshTrustPolicy::PublicRequired), "public mesh policy");
    assert_eq!(mesh_trust_policy_label(MeshTrustPolicy::PrivatePreferred), "private mesh policy");
    assert_eq!(
        dytallix_policy_status_label(DytallixPolicyStatus::Unavailable),
        "registry unavailable"
    );
}

#[test]
fn public_policy_rejects_missing_registry_record() {
    let peer_record = fresh_peer_record();

    let err = verify_registry_binding(&peer_record, None, MeshTrustPolicy::PublicRequired, NOW)
        .unwrap_err();

    assert!(err.to_string().contains("registry record required"));
}

#[test]
fn private_policy_accepts_valid_peer_record_without_registry() {
    let peer_record = fresh_peer_record();

    let decision =
        verify_registry_binding(&peer_record, None, MeshTrustPolicy::PrivatePreferred, NOW)
            .unwrap();

    assert_eq!(decision, RegistryDecision::AcceptedWithoutRegistryPrivate);
}

#[test]
fn development_policy_accepts_valid_peer_record_without_registry() {
    let peer_record = fresh_peer_record();

    let decision =
        verify_registry_binding(&peer_record, None, MeshTrustPolicy::DevelopmentOptional, NOW)
            .unwrap();

    assert_eq!(
        decision,
        RegistryDecision::AcceptedWithoutRegistryDevelopment
    );
}

#[test]
fn rejects_revoked_or_suspended_registry_record() {
    let peer_record = fresh_peer_record();

    for (status, expected) in [
        (RegistryNodeStatus::Revoked, "registry record is revoked"),
        (
            RegistryNodeStatus::Suspended,
            "registry record is suspended",
        ),
    ] {
        let mut registry_record = RegistryNodeRecord::from_peer_record(
            "daddr:owner:registry-test",
            &peer_record,
            status,
            NOW,
        )
        .unwrap();
        registry_record.expires_at = Some(NOW + 300);

        let err = verify_registry_binding(
            &peer_record,
            Some(&registry_record),
            MeshTrustPolicy::PrivatePreferred,
            NOW,
        )
        .unwrap_err();

        assert!(err.to_string().contains(expected));
    }
}

#[test]
fn rejects_expired_registry_record_for_all_policies() {
    let peer_record = fresh_peer_record();
    let mut registry_record = active_registry_record(&peer_record);
    registry_record.expires_at = Some(NOW - 1);

    for policy in [
        MeshTrustPolicy::PublicRequired,
        MeshTrustPolicy::PrivatePreferred,
        MeshTrustPolicy::DevelopmentOptional,
    ] {
        let err =
            verify_registry_binding(&peer_record, Some(&registry_record), policy, NOW).unwrap_err();

        assert!(err.to_string().contains("registry record has expired"));
    }
}

fn refusal_of(registry_record: &RegistryNodeRecord) -> String {
    verify_registry_binding(
        &fresh_peer_record(),
        Some(registry_record),
        MeshTrustPolicy::PublicRequired,
        NOW,
    )
    .unwrap_err()
    .to_string()
}

#[test]
fn rejects_peer_id_mismatch() {
    let mut registry_record = active_registry_record(&fresh_peer_record());
    registry_record.peer_id = "qlink_wrong-peer-id".to_string();
    assert!(refusal_of(&registry_record).contains("peer_id mismatch"));
}

#[test]
fn rejects_device_key_hash_mismatch() {
    let mut registry_record = active_registry_record(&fresh_peer_record());
    registry_record.device_public_key_hash_hex = "00".repeat(32);
    assert!(refusal_of(&registry_record).contains("device_public_key_hash_hex mismatch"));
}

#[test]
fn rejects_latest_peer_record_hash_mismatch() {
    let mut registry_record = active_registry_record(&fresh_peer_record());
    registry_record.latest_peer_record_hash_hex = "11".repeat(32);
    assert!(refusal_of(&registry_record).contains("latest_peer_record_hash_hex mismatch"));
}

fn assertion() -> InboundIdentityAssertion {
    InboundIdentityAssertion {
        peer_id: "qlink_registry-test-peer".to_string(),
        mesh_id: "dytallix-mesh".to_string(),
        device_public_key: device_key(),
        verification_error: None,
    }
}

#[test]
fn inbound_registry_policy_accepts_matching_assertion() {
    let registry_record = active_registry_record(&fresh_peer_record());

    let decision = verify_inbound_registry_assertion(
        &assertion(),
        Some(&registry_record),
        MeshTrustPolicy::PublicRequired,
        NOW,
    )
    .unwrap();

    assert_eq!(decision, RegistryDecision::Accepted);
}

#[test]
fn inbound_public_policy_rejects_missing_registry_record() {
    let err = verify_inbound_registry_assertion(
        &assertion(),
        None,
        MeshTrustPolicy::PublicRequired,
        NOW,
    )
    .unwrap_err();

    assert!(err.to_string().contains("registry record required"));
}

#[test]
fn rejects_pqc_binding_hash_mismatch() {
    let mut registry_record = active_registry_record(&fresh_peer_record());
    registry_record.pqc_binding_hash_hex = "22".repeat(32);
    assert!(refusal_of(&registry_record).contains("pqc_binding_hash_hex mismatch"));
}

#[test]
fn rejects_node_signing_public_key_hash_mismatch() {
    let mut registry_record = active_registry_record(&fresh_peer_record());
    registry_record.node_signing_public_key_hash_hex = "33".repeat(32);
    assert!(refusal_of(&registry_record).contains("node_signing_public_key_hash_hex mismatch"));
}

#[test]
fn rejects_transport_public_key_hash_mismatch() {
    let mut registry_record = active_registry_record(&fresh_peer_record());
    registry_record.transport_public_key_hash_hex = "44".repeat(32);
    assert!(refusal_of(&registry_record).contains("transport_public_key_hash_hex mismatch"));
}

#[test]
fn from_peer_record_populates_finalized_contract_fields() {
    let peer_record = fresh_peer_record();
    let registry_record = active_registry_record(&peer_record);

    assert_eq!(registry_record.peer_id, peer_record.body.peer_id);
    assert_eq!(registry_record.owner_daddr, "daddr:owner:registry-test");
    assert_eq!(
        registry_record.device_public_key_hash_hex,
        device_public_key_hash_hex(&peer_record).unwrap()
    );
    assert_eq!(
        registry_record.pqc_binding_hash_hex,
        pqc_binding_hash_hex("daddr:owner:registry-test", &peer_record).unwrap()
    );
    assert_eq!(
        registry_record.node_signing_public_key_hash_hex,
        node_signing_public_key_hash_hex(&peer_record).unwrap()
    );
    assert_eq!(
        registry_record.transport_public_key_hash_hex,
        transport_public_key_hash_hex(&peer_record)
    );
    assert_eq!(
        registry_record.latest_peer_record_hash_hex,
        latest_peer_record_hash_hex(&peer_record).unwrap()
    );
    assert_eq!(registry_record.status, RegistryNodeStatus::Active);
    assert_eq!(registry_record.reputation_score, 0_u64);
    assert_eq!(registry_record.stake_status, None);
    assert_eq!(registry_record.updated_at, 1_725_000_000);
    assert_eq!(
        registry_record.expires_at,
        Some(peer_record.body.expires_at_unix)
    );
    assert_eq!(registry_record.metadata_commitment_hex, None);
}

#[test]
fn pqc_binding_hash_includes_owner_daddr() {
    let peer_record = fresh_peer_record();
    let first_owner = RegistryNodeRecord::from_peer_record(
        "daddr:owner:first",
        &peer_record,
        RegistryNodeStatus::Active,
        1_725_000_000,
    )
    .unwrap();
    let second_owner = RegistryNodeRecord::from_peer_record(
        "daddr:owner:second",
        &peer_record,
        RegistryNodeStatus::Active,
        1_725_000_000,
    )
    .unwrap();

    assert_ne!(
        first_owner.pqc_binding_hash_hex,
        second_owner.pqc_binding_hash_hex
    );
    assert_eq!(
        first_owner.pqc_binding_hash_hex,
        pqc_binding_hash_hex("daddr:owner:first", &peer_record).unwrap()
    );
}

#[test]
fn registry_node_status_serializes_as_snake_case() {
    for (status, text) in [
        (RegistryNodeStatus::Active, "\"active\""),
        (RegistryNodeStatus::Revoked, "\"revoked\""),
        (RegistryNodeStatus::Suspended, "\"suspended\""),
    ] {
        let mut record = active_registry_record(&fresh_peer_record());
        record.status = status;
        let value = json(&registry_node_record_json(&record));
        assert_eq!(value["status"].to_string(), text);
    }
}

#[test]
fn sha256_hex_gives_the_known_digest() {
    assert_eq!(
        sha256_hex(b"abc"),
        "ba7816bf8f01cfea414140de5dae2223b00361a396177a9cb410ff61f20015ad"
    );
}

#[test]
fn binding_payload_is_the_exact_json() {
    let mut peer_record = fresh_peer_record();
    peer_record.body.peer_id = "quoted \"id\"\n".to_string();
    let payload = canonical_binding_payload_bytes("own\\er", &peer_record).unwrap();
    let expected = format!(
        "{{\"contract\":\"quantumlink-node-registry\",\"version\":1,\"owner_daddr\":\"own\\\\er\",\"peer_id\":\"quoted \\\"id\\\"\\n\",\"device_public_key_hash_hex\":\"{0}\",\"node_signing_public_key_hash_hex\":\"{0}\",\"transport_public_key_hash_hex\":\"{1}\",\"latest_peer_record_hash_hex\":\"{2}\"}}",
        sha256_hex(br#"{"algorithm":"ML-DSA-65","bytes":[1,2,3]}"#),
        sha256_hex(b"test-quic-certificate-der"),
        "5a".repeat(32)
    );
    assert_eq!(String::from_utf8(payload).unwrap(), expected);
}

#[test]
fn bad_signatures_are_refused_before_the_registry_is_asked() {
    let mut peer_record = fresh_peer_record();
    peer_record.signature_error = Some(QlinkError::SignatureVerification);
    assert!(matches!(
        verify_peer_record_identity(&peer_record, NOW).unwrap_err(),
        QlinkError::SignatureVerification
    ));
    assert!(verify_peer_record_identity(&fresh_peer_record(), NOW).is_ok());
    assert!(
        verify_registry_binding(&peer_record, None, MeshTrustPolicy::DevelopmentOptional, NOW)
            .is_err()
    );
}

#[test]
fn registry_urls_and_paths() {
    let config = DytallixRegistryConfig::new("https://dytallix.com/", ADDRESS, "k", None).unwrap();
    let registry = DytallixIdentityRegistry::new(config).unwrap();
    assert_eq!(registry.write_config().unwrap().keystore_path, "k");
    assert_eq!(registry.binding_version(), DytallixRegistryBindingVersion::ExactPeerRecordV1);
    let args = "7b22706565725f6964223a22716c696e6b5f70656572227d";
    let path =
        registry.lookup_path(DytallixRegistryBindingVersion::ExactPeerRecordV1, "qlink_peer");
    assert_eq!(path, format!("/api/contracts/{ADDRESS}/query/get_node?args={args}"));
    assert_eq!(
        registry.lookup_path(DytallixRegistryBindingVersion::StableIdentityV2, "qlink_peer"),
        format!("/api/contracts/{ADDRESS}/query/get_identity?args={args}")
    );
    let url = registry.url(&path).unwrap();
    assert!(url.starts_with("https://dytallix.com/"));
    let broken = DytallixIdentityRegistry::from_lookup_config(
        DytallixRegistryLookupConfig::new("no url", ADDRESS).unwrap(),
    )
    .unwrap();
    assert!(broken.url("x").is_err());
    assert_eq!(normalize_endpoint_pin("https://A.example/"), normalize_endpoint_pin("https://A.example"));
}

#[test]
fn pins_keep_the_version_that_was_chosen() {
    let config = DytallixRegistryLookupConfig::new("https://dytallix.com", " quantumlink-node-registry ")
        .unwrap()
        .with_binding_version(DytallixRegistryBindingVersion::StableIdentityV2)
        .with_network_pins(Some("  ".to_string()), None, vec!["https://dytallix.com".to_string()])
        .unwrap();
    assert_eq!(config.binding_version, DytallixRegistryBindingVersion::StableIdentityV2);
    assert_eq!(config.network_id, None);
    assert!(config.validate_endpoint_allowlist().is_ok());
}

#[test]
fn writing_a_record_needs_an_owner_a_signature_and_the_right_device() {
    let peer_record = fresh_peer_record();
    let device = &peer_record.body.device_public_key;
    let wallet_sign = |payload: &[u8]| Ok(toy_signature(&wallet_key(), payload));
    let device_sign = |payload: &[u8]| toy_signature(b"device", payload);
    let method = RegistryContractMethod::RegisterNode;
    let owner = || Ok("dytallix1owner".to_string());

    let request = write_record(
        method,
        owner(),
        &wallet_key(),
        wallet_sign,
        &peer_record,
        device,
        device_sign,
        77,
    )
    .unwrap();
    assert_eq!(request.record.owner_daddr, "dytallix1owner");
    assert_eq!(request.record.status, RegistryNodeStatus::Active);
    assert_eq!(request.record.updated_at, 77);
    let payload = canonical_wallet_record_payload_bytes(method, &request.record).unwrap();
    assert_eq!(
        request.wallet_authorization.actor_signature_hex,
        hex::encode(toy_signature(&wallet_key(), &payload))
    );
    let payload = canonical_binding_payload_bytes("dytallix1owner", &peer_record).unwrap();
    assert_eq!(
        request.device_binding_authorization.device_binding_signature_hex,
        hex::encode(toy_signature(b"device", &payload))
    );

    let error = write_record(
        method,
        Err("no key".to_string()),
        &wallet_key(),
        wallet_sign,
        &peer_record,
        device,
        device_sign,
        77,
    )
    .unwrap_err();
    assert_eq!(
        error.to_string(),
        "invalid key material: dytallix address derivation failed: no key"
    );
    let error = write_record(
        method,
        owner(),
        &wallet_key(),
        |_: &[u8]| Err("locked".to_string()),
        &peer_record,
        device,
        device_sign,
        77,
    )
    .unwrap_err();
    assert!(error.to_string().contains("dytallix wallet signing failed: locked"));
    let mut other = device.clone();
    other.bytes.push(9);
    let error = write_record(
        method,
        owner(),
        &wallet_key(),
        wallet_sign,
        &peer_record,
        &other,
        device_sign,
        77,
    )
    .unwrap_err();
    assert!(error.to_string().contains("does not match peer record device public key"));
}

#[test]
fn registered_records_hold_no_endpoints() {
    let here = fresh_peer_record();
    let mut elsewhere = here.clone();
    elsewhere.body.endpoints.clear();
    elsewhere.body.routes = vec!["10.0.0.0/8".to_string()];
    elsewhere.body.alias = "other".to_string();
    let record = |peer: &PeerRecord| {
        RegistryNodeRecord::from_peer_record("owner", peer, RegistryNodeStatus::Active, 5).unwrap()
    };
    assert_eq!(record(&here), record(&elsewhere));
    let text = registry_node_record_json(&record(&here));
    for endpoint in &here.body.endpoints {
        assert!(!text.contains(&endpoint.address));
    }
    assert_eq!(
        canonical_binding_payload_bytes("owner", &here).unwrap(),
        canonical_binding_payload_bytes("owner", &elsewhere).unwrap()
    );
}
