use qlink_core::discovery::DevicePublicKey;
use qlink_core::dytallix_identity::{
    DytallixRegistryBindingVersion, JsonField, RegistryIdentityLookupRecord,
    CONTRACT_CALL_GAS_LIMIT,
};
use qlink_core::dytallix_identity_v2::{
    DeviceAuthorizationV2, RegistryIdentityOperationV2, RegistryIdentityRecordV2,
    RegistryIdentityStatusV2, StableIdentityV2Error, WalletAuthorizationV2,
};
use qlink_core::dytallix_provisioning_v2::{
    confirmation_step, endpoint_url, judge_endpoint, provisioned_record, provisioning_call_body,
    provisioning_receipt, provisioning_sdk_error, readback_outcome, readback_step,
    record_mutation_request, registration_basis, require_keystore, require_pinned_chain,
    require_tx_hash, require_unregistered, select_provisioning_wallet, stable_identity_error,
    status_change, status_mutation_request, update_basis, validate_keystore_file,
    validate_provisioning_endpoint, wallet_owner, ConfirmationStep,
    DytallixStableIdentityProvisionerV2, KeystoreMetadata, ReadbackStep, StableIdentityPolicyV2,
    StableIdentityProvisioningConfigV2, StableIdentityProvisioningOperationV2, TransactionPoll,
};
use qlink_core::error::QlinkError;
use qlink_core::provisioning_run::{Provisioning, ProvisioningAction, ProvisioningEvent};
use qlink_core::time::Duration;
use serde_json::Value;

const ADDRESS: &str = "0x9a9671441249ee2c364f9b4bc8049e61b082449a";

fn config() -> StableIdentityProvisioningConfigV2 {
    StableIdentityProvisioningConfigV2::new(
        "https://registry.example",
        ADDRESS,
        "/tmp/wallet.json",
        None,
    )
    .unwrap()
}

fn device() -> DevicePublicKey {
    DevicePublicKey {
        algorithm: "ML-DSA-65".to_string(),
        bytes: vec![1, 2, 3],
        peer_id: "qlink_device".to_string(),
        json: b"{}".to_vec(),
        fingerprint: "0000000000000000".to_string(),
    }
}

fn policy() -> StableIdentityPolicyV2 {
    StableIdentityPolicyV2 {
        authorization_expires_at: None,
        max_peer_record_ttl_seconds: 300,
        mesh_scope: Some("mesh-a".to_string()),
        metadata_commitment_hex: None,
    }
}

fn registered() -> RegistryIdentityRecordV2 {
    provisioned_record(
        &registration_basis("dytallix1owner".to_string()),
        &device(),
        policy(),
        None,
    )
    .unwrap()
}

#[test]
fn provisioning_rejects_insecure_remote_endpoint() {
    let error = StableIdentityProvisioningConfigV2::new(
        "http://registry.example",
        "0x9a9671441249ee2c364f9b4bc8049e61b082449a",
        "/tmp/wallet.json",
        None,
    )
    .unwrap_err();
    assert!(error.to_string().contains("must use HTTPS"));
}

#[test]
fn provisioning_allows_loopback_http_for_tests() {
    let config = StableIdentityProvisioningConfigV2::new(
        "http://127.0.0.1:9471",
        "0x9a9671441249ee2c364f9b4bc8049e61b082449a",
        "/tmp/wallet.json",
        None,
    )
    .unwrap();
    assert_eq!(config.endpoint, "http://127.0.0.1:9471");
}

#[test]
fn confirmation_timing_must_be_bounded_and_positive() {
    let config = StableIdentityProvisioningConfigV2::new(
        "https://registry.example",
        "0x9a9671441249ee2c364f9b4bc8049e61b082449a",
        "/tmp/wallet.json",
        None,
    )
    .unwrap();
    assert!(config
        .clone()
        .with_confirmation_timing(Duration::from_secs(0), Duration::from_secs(1))
        .is_err());
    assert!(config
        .with_confirmation_timing(Duration::from_secs(1), Duration::from_secs(2))
        .is_err());
}

#[test]
fn endpoints_are_judged_by_scheme_and_host() {
    assert!(judge_endpoint("https", Some("registry.example")).is_ok());
    assert!(judge_endpoint("http", Some("localhost")).is_ok());
    assert!(judge_endpoint("http", Some("registry.example")).is_err());
    assert!(judge_endpoint("ftp", Some("localhost")).is_err());
    assert!(validate_provisioning_endpoint("https://registry.example").is_ok());
    assert!(validate_provisioning_endpoint("not a url").is_err());
    assert_eq!(
        endpoint_url("https://registry.example/base/", "/v1/tx").unwrap(),
        "https://registry.example/base/v1/tx"
    );
}

#[test]
fn timing_and_pins_can_be_set() {
    let config = config()
        .with_confirmation_timing(Duration::from_secs(9), Duration::from_secs(3))
        .unwrap()
        .with_network_pins(
            Some(" net ".to_string()),
            Some("chain".to_string()),
            vec!["https://registry.example".to_string()],
        )
        .unwrap();
    assert_eq!(config.confirmation_timeout, Duration::from_secs(9));
    assert_eq!(config.poll_interval, Duration::from_secs(3));
    assert_eq!(config.network_id.as_deref(), Some("net"));
    assert!(config
        .with_network_pins(None, None, vec!["https://elsewhere.example".to_string()])
        .is_err());
    let lookup =
        StableIdentityProvisioningConfigV2::lookup_only("https://registry.example", ADDRESS)
            .unwrap();
    assert!(require_keystore(&lookup.keystore_path).is_err());
}

#[test]
fn provisioner_reads_stable_identities() {
    let provisioner = DytallixStableIdentityProvisionerV2::new(config()).unwrap();
    assert_eq!(
        provisioner.lookup.binding_version(),
        DytallixRegistryBindingVersion::StableIdentityV2
    );
    assert_eq!(provisioner.lookup.lookup_config.contract_address, ADDRESS);
    assert!(provisioner.lookup.write_config().is_err());
    let mut broken = config();
    broken.contract_address = "nonsense".to_string();
    assert!(DytallixStableIdentityProvisionerV2::new(broken).is_err());
}

#[test]
fn registration_writes_the_first_revision() {
    let record = registered();
    assert_eq!(record.identity_revision, 1);
    assert_eq!(record.status, RegistryIdentityStatusV2::Active);
    assert_eq!(record.peer_id, "qlink_device");
    assert!(require_unregistered(&None).is_ok());
    assert_eq!(
        require_unregistered(&Some(record)).unwrap_err().to_string(),
        "protocol error: stable identity v2 is already registered"
    );
    let mut short = policy();
    short.max_peer_record_ttl_seconds = 1;
    let basis = registration_basis("dytallix1owner".to_string());
    let error = provisioned_record(&basis, &device(), short, None).unwrap_err();
    assert!(error.to_string().contains("Dytallix stable identity v2 error"));
}

#[test]
fn updates_rest_on_the_current_identity() {
    let mut current = registered();
    let basis =
        update_basis(StableIdentityProvisioningOperationV2::Update, &Some(current.clone()))
            .unwrap();
    assert_eq!(basis.revision, 2);
    assert_eq!(basis.owner_daddr, "dytallix1owner");
    let refusal = |operation, current: &Option<RegistryIdentityRecordV2>| {
        update_basis(operation, current).unwrap_err().to_string()
    };
    assert!(refusal(StableIdentityProvisioningOperationV2::Update, &None)
        .contains("is not registered"));
    assert!(refusal(
        StableIdentityProvisioningOperationV2::Reactivate,
        &Some(current.clone())
    )
    .contains("must be suspended before reactivation"));
    current.status = RegistryIdentityStatusV2::Suspended;
    let basis =
        update_basis(StableIdentityProvisioningOperationV2::Reactivate, &Some(current.clone()))
            .unwrap();
    assert_eq!(basis.status, RegistryIdentityStatusV2::Active);
    current.identity_revision = u64::MAX;
    assert!(refusal(StableIdentityProvisioningOperationV2::Update, &Some(current.clone()))
        .contains("revision is exhausted"));
    current.status = RegistryIdentityStatusV2::Revoked;
    assert!(refusal(StableIdentityProvisioningOperationV2::Update, &Some(current))
        .contains("revocation is terminal"));
}

#[test]
fn revocation_is_final() {
    let revoked =
        status_change(Some(registered()), RegistryIdentityStatusV2::Revoked).unwrap();
    assert_eq!(revoked.identity_revision, 2);
    assert_eq!(revoked.status, RegistryIdentityStatusV2::Revoked);
    let error =
        status_change(Some(revoked), RegistryIdentityStatusV2::Suspended).unwrap_err();
    assert!(error.to_string().contains("revocation is terminal"));
}

fn wallet_authorization() -> WalletAuthorizationV2 {
    WalletAuthorizationV2 {
        actor_public_key_hex: "aa".to_string(),
        actor_signature_hex: "bb".to_string(),
    }
}

fn device_authorization() -> DeviceAuthorizationV2 {
    DeviceAuthorizationV2 {
        device_public_key_algorithm: "ML-DSA-65".to_string(),
        device_public_key_hex: "cc".to_string(),
        device_signature_hex: "dd".to_string(),
    }
}

#[test]
fn requests_are_json() {
    let wallet = wallet_authorization();
    let device = device_authorization();
    let request = record_mutation_request(&registered(), &wallet, &device);
    let value: Value = serde_json::from_str(&request).unwrap();
    assert_eq!(value["record"]["peer_id"], "qlink_device");
    assert_eq!(value["actor_signature_hex"], "bb");
    assert_eq!(value["device_signature_hex"], "dd");
    assert_eq!(
        status_mutation_request("p\"q", 7, &wallet),
        "{\"peer_id\":\"p\\\"q\",\"identity_revision\":7,\"actor_public_key_hex\":\"aa\",\"actor_signature_hex\":\"bb\"}"
    );
    let body = provisioning_call_body("revoke_identity", ADDRESS, "{}", "{\"tx\":1}");
    let value: Value = serde_json::from_str(&body).unwrap();
    assert_eq!(value["args"], "7b7d");
    assert_eq!(value["method"], "revoke_identity");
    assert_eq!(value["signed_tx"]["tx"], 1);
}

#[test]
fn keystores_belong_to_their_owner() {
    let inspect = |is_regular_file, mode| Ok(KeystoreMetadata { is_regular_file, mode });
    assert!(validate_keystore_file("k", &inspect(true, Some(0o600))).is_ok());
    assert!(validate_keystore_file("k", &inspect(true, Some(0o100_400))).is_ok());
    assert!(validate_keystore_file("k", &inspect(true, None)).is_ok());
    let refusal = |inspected: Result<KeystoreMetadata, String>| {
        validate_keystore_file("k", &inspected).unwrap_err().to_string()
    };
    assert!(refusal(inspect(true, Some(0o640))).contains("group- or world-accessible"));
    assert!(refusal(inspect(true, Some(0o601))).contains("group- or world-accessible"));
    assert!(refusal(inspect(false, Some(0o600))).contains("must be a regular file"));
    assert!(refusal(Err("gone".to_string())).contains("cannot be inspected: gone"));
    assert_eq!(select_provisioning_wallet(None, Some("w")).unwrap(), "w");
    assert!(select_provisioning_wallet(None, None).is_err());
    assert_eq!(wallet_owner(Ok("d".to_string())).unwrap(), "d");
    assert!(wallet_owner(Err("e".to_string())).is_err());
}

#[test]
fn changes_are_signed_for_the_pinned_chain() {
    assert!(require_pinned_chain(None, "any").is_ok());
    assert!(require_pinned_chain(Some("a"), "a").is_ok());
    assert_eq!(
        require_pinned_chain(Some("a"), "b").unwrap_err().to_string(),
        "protocol error: Dytallix chain ID mismatch: expected a, got b"
    );
    assert_eq!(
        require_tx_hash(JsonField::Absent, JsonField::Text("0x1".to_string())).unwrap(),
        "0x1"
    );
    assert!(require_tx_hash(JsonField::Text("  ".to_string()), JsonField::Absent).is_err());
}

#[test]
fn confirmation_ends_with_a_final_answer_or_the_timeout() {
    let timeout = Duration::from_secs(60);
    let early = Duration::from_secs(59);
    let step = |poll, waited| confirmation_step("0xabc", poll, waited, timeout);
    assert!(matches!(
        step(TransactionPoll::Confirmed { block: 5 }, timeout),
        ConfirmationStep::Done { block: 5 }
    ));
    assert!(matches!(step(TransactionPoll::Pending, early), ConfirmationStep::AskAgain));
    let text = |step| match step {
        ConfirmationStep::Fail { error } => error.to_string(),
        _ => unreachable!(),
    };
    assert_eq!(
        text(step(TransactionPoll::Pending, timeout)),
        "protocol error: Dytallix transaction 0xabc was not confirmed within 60 seconds"
    );
    assert_eq!(
        text(step(TransactionPoll::Failed { reason: "gas".to_string() }, early)),
        "protocol error: Dytallix transaction 0xabc failed: gas"
    );
    let down = TransactionPoll::Unavailable { error: "down".to_string() };
    assert!(matches!(step(down.clone(), early), ConfirmationStep::AskAgain));
    assert_eq!(text(step(down, timeout)), provisioning_sdk_error("down").to_string());
}

#[test]
fn readback_waits_for_exactly_what_was_written() {
    let timeout = Duration::from_secs(60);
    let early = Duration::from_secs(1);
    let expected = registered();
    assert!(matches!(
        readback_step(&expected, Some(expected.clone()), timeout, timeout),
        ReadbackStep::Done { .. }
    ));
    assert!(matches!(
        readback_step(&expected, None, early, timeout),
        ReadbackStep::ReadAgain
    ));
    let mut later = expected.clone();
    later.identity_revision = 2;
    let text = |step| match step {
        ReadbackStep::Fail { error } => error.to_string(),
        _ => unreachable!(),
    };
    assert!(text(readback_step(&expected, Some(later), early, timeout))
        .contains("advanced past expected identity revision 1"));
    let mut other = expected.clone();
    other.owner_daddr = "dytallix1else".to_string();
    assert!(!expected.same_as(&other));
    assert!(text(readback_step(&expected, Some(other), timeout, timeout))
        .contains("did not converge to revision 1 within 60 seconds"));
    let receipt = provisioning_receipt(
        &config(),
        StableIdentityProvisioningOperationV2::Register,
        "0xabc".to_string(),
        5,
        "checkpoint".to_string(),
        expected,
    );
    assert!(receipt.readback_verified);
    assert_eq!(receipt.endpoint, "https://registry.example");
    assert_eq!(receipt.confirmed_block, 5);
}

#[test]
fn readback_takes_no_legacy_identity() {
    let identity = registered();
    let found =
        readback_outcome(Some(RegistryIdentityLookupRecord::StableIdentityV2(identity.clone())))
            .unwrap();
    assert_eq!(found, Some(identity));
    assert_eq!(readback_outcome(None).unwrap(), None);
    assert_eq!(
        stable_identity_error(&StableIdentityV2Error::Missing).to_string(),
        format!(
            "protocol error: Dytallix stable identity v2 error: {}",
            StableIdentityV2Error::Missing.to_string()
        )
    );
}

fn read(found: Option<RegistryIdentityRecordV2>) -> ProvisioningEvent {
    ProvisioningEvent::Read {
        found: Ok(found.map(RegistryIdentityLookupRecord::StableIdentityV2)),
        waited: Duration::from_secs(0),
    }
}

fn wallet(owner: &str) -> ProvisioningEvent {
    ProvisioningEvent::Wallet { owner: Ok(owner.to_string()), owner_error: None }
}

fn hashed(tx_hash: &str) -> ProvisioningEvent {
    ProvisioningEvent::Submitted {
        tx_hash: JsonField::Text(tx_hash.to_string()),
        hash: JsonField::Absent,
    }
}

fn polled(poll: TransactionPoll, waited: u64) -> ProvisioningEvent {
    ProvisioningEvent::Polled { poll, waited: Duration::from_secs(waited) }
}

fn checkpoint(text: &str) -> ProvisioningEvent {
    ProvisioningEvent::Checkpoint(Ok(text.to_string()))
}

fn record_authorized() -> ProvisioningEvent {
    ProvisioningEvent::RecordAuthorized {
        wallet: wallet_authorization(),
        device: device_authorization(),
    }
}

fn status_authorized() -> ProvisioningEvent {
    ProvisioningEvent::StatusAuthorized { wallet: wallet_authorization() }
}

fn failure(action: ProvisioningAction) -> String {
    match action {
        ProvisioningAction::Finish(Err(error)) => error.to_string(),
        other => panic!("unexpected {other:?}"),
    }
}

fn provisioner() -> DytallixStableIdentityProvisionerV2 {
    let pinned =
        config().with_network_pins(None, Some("chain-7".to_string()), Vec::new()).unwrap();
    DytallixStableIdentityProvisionerV2::new(pinned).unwrap()
}

#[test]
fn a_registration_runs_to_its_receipt() {
    let p = provisioner();
    let (run, action) = p.provision(p.register(device(), policy()), read(None));
    assert!(matches!(action, ProvisioningAction::OpenWallet));
    let (run, action) = p.provision(run, wallet("dytallix1owner"));
    assert!(matches!(action, ProvisioningAction::Authorize));
    let (run, action) = p.provision(run, record_authorized());
    assert!(matches!(action, ProvisioningAction::AskCheckpoint));
    let (run, action) = p.provision(run, checkpoint("chain-7"));
    let expected = match &run {
        Provisioning::Submitting { expected, checkpoint, .. } => {
            assert_eq!(checkpoint, "chain-7");
            expected.clone()
        }
        other => panic!("unexpected {other:?}"),
    };
    assert_eq!(expected, registered());
    let request =
        record_mutation_request(&expected, &wallet_authorization(), &device_authorization());
    match action {
        ProvisioningAction::Submit { call } => {
            assert_eq!(call.chain_id, "chain-7");
            assert_eq!(call.contract_address, ADDRESS);
            assert_eq!(call.method, "register_identity");
            assert_eq!(call.args_hex, hex::encode(&request));
            assert_eq!(call.gas_limit, CONTRACT_CALL_GAS_LIMIT);
        }
        other => panic!("unexpected {other:?}"),
    }
    let (run, action) = p.provision(run, hashed("0xabc"));
    assert!(matches!(action, ProvisioningAction::Poll));
    let (run, action) = p.provision(run, polled(TransactionPoll::Pending, 1));
    assert!(matches!(action, ProvisioningAction::PauseAndPoll));
    let (run, action) = p.provision(run, polled(TransactionPoll::Confirmed { block: 9 }, 2));
    assert!(matches!(action, ProvisioningAction::ReadBack));
    let (run, action) = p.provision(run, read(None));
    assert!(matches!(action, ProvisioningAction::PauseAndReadBack));
    let (run, action) = p.provision(run, read(Some(expected.clone())));
    assert!(matches!(action, ProvisioningAction::AskCheckpoint));
    let (run, action) = p.provision(run, checkpoint("chain-7@9"));
    assert!(matches!(run, Provisioning::Finished));
    match action {
        ProvisioningAction::Finish(Ok(receipt)) => {
            assert_eq!(receipt.operation, StableIdentityProvisioningOperationV2::Register);
            assert_eq!(receipt.tx_hash, "0xabc");
            assert_eq!(receipt.confirmed_block, 9);
            assert_eq!(receipt.chain_checkpoint_observed, "chain-7@9");
            assert_eq!(receipt.chain_id.as_deref(), Some("chain-7"));
            assert!(receipt.readback_verified);
            assert_eq!(receipt.identity, expected);
        }
        other => panic!("unexpected {other:?}"),
    }
    let (_, action) = p.provision(Provisioning::Finished, read(None));
    assert!(matches!(action, ProvisioningAction::Wait));
}

#[test]
fn changes_are_barred_by_what_stands() {
    let p = provisioner();
    let refused = |start: Provisioning, found| failure(p.provision(start, read(found)).1);
    assert!(refused(p.register(device(), policy()), Some(registered())).contains("already registered"));
    assert!(refused(p.update(device(), policy()), None).contains("is not registered"));
    assert!(refused(p.reactivate(device(), policy()), Some(registered()))
        .contains("must be suspended before reactivation"));
    let mut revoked = registered();
    revoked.status = RegistryIdentityStatusV2::Revoked;
    assert!(refused(p.suspend("qlink_device"), Some(revoked.clone())).contains("revocation is terminal"));
    assert!(refused(p.revoke("qlink_device"), Some(revoked)).contains("revocation is terminal"));
    let lookup = ProvisioningEvent::Read {
        found: Err(QlinkError::Protocol("unreachable".to_string())),
        waited: Duration::from_secs(0),
    };
    assert!(failure(p.provision(p.suspend("qlink_device"), lookup).1).contains("unreachable"));
}

#[test]
fn standings_change_with_the_next_revision() {
    let p = provisioner();
    let (run, _) = p.provision(p.suspend("qlink_device"), read(Some(registered())));
    let (run, _) = p.provision(run, wallet("dytallix1owner"));
    match run {
        Provisioning::Authorizing { operation, peer_id, expected } => {
            assert_eq!(peer_id, "qlink_device");
            assert_eq!(operation, StableIdentityProvisioningOperationV2::Suspend);
            assert_eq!(expected.status, RegistryIdentityStatusV2::Suspended);
            assert_eq!(expected.identity_revision, 2);
        }
        other => panic!("unexpected {other:?}"),
    }
    let mut suspended = registered();
    suspended.status = RegistryIdentityStatusV2::Suspended;
    let (run, _) = p.provision(p.reactivate(device(), policy()), read(Some(suspended)));
    let (run, _) = p.provision(run, wallet("dytallix1other"));
    match run {
        Provisioning::Authorizing { expected, .. } => {
            assert_eq!(expected.status, RegistryIdentityStatusV2::Active);
            assert_eq!(expected.owner_daddr, "dytallix1owner");
            assert_eq!(expected.identity_revision, 2);
        }
        other => panic!("unexpected {other:?}"),
    }
}

#[test]
fn nothing_is_submitted_to_another_chain() {
    let p = provisioner();
    let (run, _) = p.provision(p.revoke("qlink_device"), read(Some(registered())));
    let (run, _) = p.provision(run, wallet("dytallix1owner"));
    let (run, _) = p.provision(run, status_authorized());
    let (run, action) = p.provision(run, checkpoint("chain-8"));
    assert!(matches!(run, Provisioning::Finished));
    assert!(failure(action).contains("expected chain-7, got chain-8"));
}

#[test]
fn a_call_is_for_the_checkpoint_that_was_seen() {
    let unpinned = DytallixStableIdentityProvisionerV2::new(config()).unwrap();
    for seen in ["chain-1", "chain-2"] {
        let p = &unpinned;
        let (run, _) = p.provision(p.suspend("qlink_device"), read(Some(registered())));
        let (run, _) = p.provision(run, wallet("dytallix1owner"));
        let (run, _) = p.provision(run, status_authorized());
        let (_, action) = p.provision(run, checkpoint(seen));
        match action {
            ProvisioningAction::Submit { call } => {
                assert_eq!(call.chain_id, seen);
                assert_eq!(call.method, "suspend_identity");
                let request =
                    status_mutation_request("qlink_device", 2, &wallet_authorization());
                assert_eq!(call.args_hex, hex::encode(request));
            }
            other => panic!("unexpected {other:?}"),
        }
    }
}

#[test]
fn a_standing_changes_for_the_peer_that_was_asked_for() {
    let p = provisioner();
    let (run, _) = p.provision(p.revoke("asked"), read(Some(registered())));
    let (run, _) = p.provision(run, wallet("dytallix1owner"));
    let (run, _) = p.provision(run, status_authorized());
    match run {
        Provisioning::Pinning { request_json, .. } => {
            let value: Value = serde_json::from_str(&request_json).unwrap();
            assert_eq!(value["peer_id"], "asked");
            assert_eq!(value["identity_revision"], 2);
        }
        other => panic!("unexpected {other:?}"),
    }
}

#[test]
fn a_wallet_that_does_not_own_is_reported_before_a_wrong_chain() {
    let p = provisioner();
    let (run, _) = p.provision(p.update(device(), policy()), read(Some(registered())));
    let (run, action) = p.provision(run, wallet("dytallix1other"));
    assert!(matches!(action, ProvisioningAction::Authorize));
    let expected = match &run {
        Provisioning::Authorizing { expected, .. } => expected.clone(),
        other => panic!("unexpected {other:?}"),
    };
    let refusal = WalletAuthorizationV2::sign(
        RegistryIdentityOperationV2::Update,
        &expected,
        &[1, 2, 3],
        &Ok("dytallix1other".to_string()),
        None,
        |payload: &[u8]| Ok(payload.to_vec()),
    )
    .unwrap_err();
    let refused = ProvisioningEvent::NotAuthorized(stable_identity_error(&refusal));
    let (run, action) = p.provision(run, refused);
    assert!(matches!(run, Provisioning::Finished));
    assert_eq!(failure(action), stable_identity_error(&refusal).to_string());
}

#[test]
fn only_the_fitting_authorization_moves_a_change_on() {
    let p = provisioner();
    let (run, _) = p.provision(p.suspend("qlink_device"), read(Some(registered())));
    let (run, _) = p.provision(run, wallet("dytallix1owner"));
    let (run, action) = p.provision(run, record_authorized());
    assert!(matches!(action, ProvisioningAction::Wait));
    let (run, action) = p.provision(run, checkpoint("chain-7"));
    assert!(matches!(action, ProvisioningAction::Wait));
    let (run, action) = p.provision(run, status_authorized());
    assert!(matches!(action, ProvisioningAction::AskCheckpoint));
    let no_account = ProvisioningEvent::NotSubmitted(QlinkError::Protocol("no nonce".to_string()));
    assert!(failure(p.provision(run, no_account).1).contains("no nonce"));
}

#[test]
fn failures_on_the_way_end_a_change() {
    let p = provisioner();
    let opened = || p.provision(p.register(device(), policy()), read(None)).0;
    let no_owner =
        ProvisioningEvent::Wallet { owner: Err("bad key".to_string()), owner_error: None };
    assert!(failure(p.provision(opened(), no_owner).1).contains("address derivation failed: bad key"));
    let no_wallet = ProvisioningEvent::NoWallet(QlinkError::Protocol("locked".to_string()));
    assert!(failure(p.provision(opened(), no_wallet).1).contains("locked"));
    let bad_owner = ProvisioningEvent::Wallet {
        owner: Ok("x".to_string()),
        owner_error: Some("not an address".to_string()),
    };
    assert!(failure(p.provision(opened(), bad_owner).1).contains("not an address"));

    let submitting = || {
        let (run, _) = p.provision(opened(), wallet("dytallix1owner"));
        let (run, _) = p.provision(run, record_authorized());
        p.provision(run, checkpoint("chain-7")).0
    };
    assert!(failure(p.provision(submitting(), hashed(" ")).1).contains("transaction hash"));
    let rejected = ProvisioningEvent::NotSubmitted(QlinkError::Protocol("503".to_string()));
    assert!(failure(p.provision(submitting(), rejected).1).contains("503"));
    let (run, _) = p.provision(submitting(), hashed("0x1"));
    let failed = TransactionPoll::Failed { reason: "reverted".to_string() };
    assert!(failure(p.provision(run, polled(failed, 0)).1).contains("0x1 failed: reverted"));
}

#[test]
fn operations_name_their_contract_methods() {
    let named = |operation: StableIdentityProvisioningOperationV2| {
        (operation.contract_method(), operation.record_operation())
    };
    assert_eq!(
        named(StableIdentityProvisioningOperationV2::Register),
        ("register_identity", Some(RegistryIdentityOperationV2::Register))
    );
    assert_eq!(
        named(StableIdentityProvisioningOperationV2::Update),
        ("update_identity", Some(RegistryIdentityOperationV2::Update))
    );
    assert_eq!(
        named(StableIdentityProvisioningOperationV2::Reactivate),
        ("update_identity", Some(RegistryIdentityOperationV2::Update))
    );
    assert_eq!(named(StableIdentityProvisioningOperationV2::Suspend), ("suspend_identity", None));
    assert_eq!(named(StableIdentityProvisioningOperationV2::Revoke), ("revoke_identity", None));
}
