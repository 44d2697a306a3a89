//! The course of a change of a stable identity, from reading what stands to the
//! receipt. The caller reads, signs and submits, and hands in what came of it.

use crate::discovery::DevicePublicKey;
use crate::dytallix_identity::{CONTRACT_CALL_GAS_LIMIT, JsonField, RegistryIdentityLookupRecord};
use crate::dytallix_identity_v2::{
    DeviceAuthorizationV2, RegistryIdentityOperationV2, RegistryIdentityRecordV2,
    RegistryIdentityStatusV2, WalletAuthorizationV2, is_identity_of, reason_view, record_refusal,
};
use crate::dytallix_provisioning_v2::{
    ChangeBasis, ConfirmationStep, DytallixStableIdentityProvisionerV2, ReadbackStep,
    StableIdentityPolicyV2, StableIdentityProvisioningConfigV2,
    StableIdentityProvisioningOperationV2, StableIdentityProvisioningReceiptV2, TransactionPoll,
    change_refusal, confirmation_step, hash_field, is_confirmation_step, is_readback_step,
    provisioned_record, provisioning_receipt, provisioning_sdk_error, readback_outcome,
    readback_step, record_mutation_json, record_mutation_request, registration_basis,
    require_pinned_chain, require_tx_hash, require_unregistered, restated, same_identity,
    stable_refusal_text, status_after_update, status_change, status_mutation_json,
    status_mutation_request, update_basis, wallet_owner,
};
use crate::error::{QlinkError, QlinkErrorView, Result};
use crate::outside::{hex_encode_bytes, optional_text};
use crate::text::{hex_text, trimmed};
use crate::time::Duration;
use vstd::prelude::*;
use vstd::string::*;
use vstd::utf8::*;

verus! {

/// What is to be changed.
#[derive(Debug, Clone)]
pub enum IdentityChange {
    Register { device_public_key: DevicePublicKey, policy: StableIdentityPolicyV2 },
    Update { device_public_key: DevicePublicKey, policy: StableIdentityPolicyV2 },
    Reactivate { device_public_key: DevicePublicKey, policy: StableIdentityPolicyV2 },
    Suspend { peer_id: String },
    Revoke { peer_id: String },
}

/// How far a change has come.
#[derive(Debug, Clone)]
pub enum Provisioning {
    /// The identity is read as it stands.
    Reading { change: IdentityChange },
    /// The wallet is opened for a change that is allowed.
    OpeningWallet { change: IdentityChange, current: Option<RegistryIdentityRecordV2> },
    /// The wallet, and for a record the device, authorize the change of this peer.
    Authorizing {
        operation: StableIdentityProvisioningOperationV2,
        peer_id: String,
        expected: RegistryIdentityRecordV2,
    },
    /// The chain is asked who it is, before the call is signed for it.
    Pinning {
        operation: StableIdentityProvisioningOperationV2,
        expected: RegistryIdentityRecordV2,
        request_json: String,
    },
    /// The call is signed for the chain that stood at this checkpoint, and
    /// submitted.
    Submitting {
        operation: StableIdentityProvisioningOperationV2,
        expected: RegistryIdentityRecordV2,
        request_json: String,
        checkpoint: String,
    },
    /// The chain is asked for the transaction.
    Confirming {
        operation: StableIdentityProvisioningOperationV2,
        expected: RegistryIdentityRecordV2,
        tx_hash: String,
    },
    /// The identity is read back.
    ReadingBack {
        operation: StableIdentityProvisioningOperationV2,
        expected: RegistryIdentityRecordV2,
        tx_hash: String,
        block: u64,
    },
    /// The chain is asked how far it is.
    Closing {
        operation: StableIdentityProvisioningOperationV2,
        tx_hash: String,
        block: u64,
        identity: RegistryIdentityRecordV2,
    },
    Finished,
}

/// What a change is told.
#[derive(Debug)]
pub enum ProvisioningEvent {
    /// What the registry holds; `waited` counts from the first time it was asked.
    Read { found: Result<Option<RegistryIdentityLookupRecord>>, waited: Duration },
    /// The wallet is open: the address that its key stands for, and why the
    /// address that is to own the identity is none, if it is none.
    Wallet { owner: Result<String, String>, owner_error: Option<String> },
    /// The wallet cannot be opened.
    NoWallet(QlinkError),
    /// The wallet and the device have authorized the writing of a record.
    RecordAuthorized { wallet: WalletAuthorizationV2, device: DeviceAuthorizationV2 },
    /// The wallet has authorized a change of the standing.
    StatusAuthorized { wallet: WalletAuthorizationV2 },
    /// The wallet or the device does not authorize the change.
    NotAuthorized(QlinkError),
    /// What the chain calls its last finalized checkpoint.
    Checkpoint(Result<String, String>),
    /// The fields `tx_hash` and `hash` of the answer to the submission.
    Submitted { tx_hash: JsonField, hash: JsonField },
    /// The call could not be prepared, signed or submitted.
    NotSubmitted(QlinkError),
    /// What became of the transaction; `waited` counts from the first time the
    /// chain was asked.
    Polled { poll: TransactionPoll, waited: Duration },
}

/// A call of the contract, to be signed: for which chain, and what is called.
#[derive(Debug, Clone)]
pub struct ContractCall {
    pub chain_id: String,
    pub contract_address: String,
    pub method: &'static str,
    pub args_hex: String,
    pub gas_limit: u64,
}

/// What a change asks for next.
#[derive(Debug)]
pub enum ProvisioningAction {
    OpenWallet,
    Authorize,
    AskCheckpoint,
    Submit { call: ContractCall },
    Poll,
    PauseAndPoll,
    ReadBack,
    PauseAndReadBack,
    Finish(Result<StableIdentityProvisioningReceiptV2>),
    /// The event was none that the change waited for.
    Wait,
}

/// The operation of a change.
pub open spec fn operation_of(change: IdentityChange) -> StableIdentityProvisioningOperationV2 {
    match change {
        IdentityChange::Register { .. } => StableIdentityProvisioningOperationV2::Register,
        IdentityChange::Update { .. } => StableIdentityProvisioningOperationV2::Update,
        IdentityChange::Reactivate { .. } => StableIdentityProvisioningOperationV2::Reactivate,
        IdentityChange::Suspend { .. } => StableIdentityProvisioningOperationV2::Suspend,
        IdentityChange::Revoke { .. } => StableIdentityProvisioningOperationV2::Revoke,
    }
}

/// The peer whose identity a change is about.
pub open spec fn peer_of(change: IdentityChange) -> String {
    match change {
        IdentityChange::Register { device_public_key, .. } => device_public_key.peer_id,
        IdentityChange::Update { device_public_key, .. } => device_public_key.peer_id,
        IdentityChange::Reactivate { device_public_key, .. } => device_public_key.peer_id,
        IdentityChange::Suspend { peer_id } => peer_id,
        IdentityChange::Revoke { peer_id } => peer_id,
    }
}

/// The change waits for its authorization.
pub open spec fn is_to_authorize(
    next: Provisioning,
    action: ProvisioningAction,
    change: IdentityChange,
    expected: RegistryIdentityRecordV2,
) -> bool {
    action is Authorize && (next matches Provisioning::Authorizing {
        operation,
        peer_id,
        expected: x,
    } && operation == operation_of(change) && peer_id@ == peer_of(change)@ && x == expected)
}

/// The identity that was read, or why there is none to go by.
pub open spec fn identity_read(found: Result<Option<RegistryIdentityLookupRecord>>) -> Result<
    Option<RegistryIdentityRecordV2>,
    QlinkErrorView,
> {
    match found {
        Err(e) => Err(e@),
        Ok(None) => Ok(None),
        Ok(Some(RegistryIdentityLookupRecord::StableIdentityV2(identity))) => Ok(Some(identity)),
        Ok(Some(RegistryIdentityLookupRecord::ExactPeerRecordV1(_))) => Err(
            QlinkErrorView::Protocol("Dytallix v2 readback returned a legacy v1 identity"@),
        ),
    }
}

/// Why a change is not allowed as things stand, if it is not.
pub open spec fn change_barred(
    change: IdentityChange,
    current: Option<RegistryIdentityRecordV2>,
) -> Option<Seq<char>> {
    if change is Register {
        if current is Some {
            Some("stable identity v2 is already registered"@)
        } else {
            None
        }
    } else {
        change_refusal(operation_of(change), current)
    }
}

/// What a change of the terms rests on: owner, standing and revision.
pub open spec fn written_basis(
    change: IdentityChange,
    current: Option<RegistryIdentityRecordV2>,
    owner: Seq<char>,
) -> (Seq<char>, RegistryIdentityStatusV2, u64) {
    if change is Register {
        (owner, RegistryIdentityStatusV2::Active, 1)
    } else {
        (
            current->0.owner_daddr@,
            status_after_update(operation_of(change), current->0.status),
            (current->0.identity_revision + 1) as u64,
        )
    }
}

/// A change that writes the terms writes this record, or is refused for it.
pub open spec fn is_written(
    made: RegistryIdentityRecordV2,
    basis: (Seq<char>, RegistryIdentityStatusV2, u64),
    key: DevicePublicKey,
    policy: StableIdentityPolicyV2,
) -> bool {
    is_identity_of(
        made,
        basis.0,
        key,
        basis.1,
        basis.2,
        policy.authorization_expires_at,
        policy.max_peer_record_ttl_seconds,
        optional_text(policy.mesh_scope),
        policy.metadata_commitment_hex,
    )
}

/// The change has ended with this refusal.
pub open spec fn gave_up(
    next: Provisioning,
    action: ProvisioningAction,
    why: QlinkErrorView,
) -> bool {
    next is Finished && (action matches ProvisioningAction::Finish(Err(e)) && e@ == why)
}

/// The chain is the pinned one, where one is pinned.
pub open spec fn chain_fits(pinned: Option<Seq<char>>, observed: Seq<char>) -> bool {
    pinned matches Some(expected) ==> expected == observed
}

/// The refusal of a chain that is not the pinned one.
pub open spec fn wrong_chain(pinned: Option<Seq<char>>, observed: Seq<char>) -> QlinkErrorView {
    QlinkErrorView::Protocol(
        "Dytallix chain ID mismatch: expected "@ + pinned->0 + ", got "@ + observed,
    )
}

/// The step after the wallet was opened.
pub open spec fn is_prepared(
    change: IdentityChange,
    current: Option<RegistryIdentityRecordV2>,
    owner: Result<String, String>,
    owner_error: Option<String>,
    next: Provisioning,
    action: ProvisioningAction,
) -> bool {
    match change {
        IdentityChange::Suspend { .. } => is_to_authorize(
            next,
            action,
            change,
            restated(
                current->0,
                RegistryIdentityStatusV2::Suspended,
                (current->0.identity_revision + 1) as u64,
            ),
        ),
        IdentityChange::Revoke { .. } => is_to_authorize(
            next,
            action,
            change,
            restated(
                current->0,
                RegistryIdentityStatusV2::Revoked,
                (current->0.identity_revision + 1) as u64,
            ),
        ),
        IdentityChange::Register { device_public_key, policy } => match owner {
            Err(err) => gave_up(
                next,
                action,
                QlinkErrorView::InvalidKey("Dytallix address derivation failed: "@ + err@),
            ),
            Ok(owner) => is_ready(
                change,
                written_basis(change, current, owner@),
                device_public_key,
                policy,
                owner_error,
                next,
                action,
            ),
        },
        IdentityChange::Update { device_public_key, policy } => is_ready(
            change,
            written_basis(change, current, Seq::empty()),
            device_public_key,
            policy,
            owner_error,
            next,
            action,
        ),
        IdentityChange::Reactivate { device_public_key, policy } => is_ready(
            change,
            written_basis(change, current, Seq::empty()),
            device_public_key,
            policy,
            owner_error,
            next,
            action,
        ),
    }
}

/// The record is made and goes on its way, or breaks one of the schema's rules.
pub open spec fn is_ready(
    change: IdentityChange,
    basis: (Seq<char>, RegistryIdentityStatusV2, u64),
    key: DevicePublicKey,
    policy: StableIdentityPolicyV2,
    owner_error: Option<String>,
    next: Provisioning,
    action: ProvisioningAction,
) -> bool {
    exists|made: RegistryIdentityRecordV2| #[trigger]
        is_written(made, basis, key, policy) && match record_refusal(
            made,
            optional_text(owner_error),
        ) {
            Some(why) => gave_up(next, action, stable_refusal_text(why)),
            None => is_to_authorize(next, action, change, made),
        }
}

/// The chain is asked who it is, with a request in hand.
pub open spec fn is_to_pin(
    next: Provisioning,
    action: ProvisioningAction,
    operation: StableIdentityProvisioningOperationV2,
    expected: RegistryIdentityRecordV2,
    request: Seq<char>,
) -> bool {
    action is AskCheckpoint && (next matches Provisioning::Pinning {
        operation: o,
        expected: x,
        request_json,
    } && o == operation && x == expected && request_json@ == request)
}

/// The call that carries a request, for a chain at this checkpoint.
pub open spec fn is_call_of(
    call: ContractCall,
    config: StableIdentityProvisioningConfigV2,
    operation: StableIdentityProvisioningOperationV2,
    request: Seq<char>,
    checkpoint: Seq<char>,
) -> bool {
    &&& call.chain_id@ == checkpoint
    &&& call.contract_address@ == config.contract_address@
    &&& call.method@ == contract_method_name(operation)
    &&& call.args_hex@ == hex_text(encode_utf8(request))
    &&& call.gas_limit == CONTRACT_CALL_GAS_LIMIT
}

/// The step after the chain was asked for the transaction.
pub open spec fn is_polled(
    operation: StableIdentityProvisioningOperationV2,
    expected: RegistryIdentityRecordV2,
    tx_hash: String,
    poll: TransactionPoll,
    waited: Duration,
    timeout: Duration,
    next: Provisioning,
    action: ProvisioningAction,
) -> bool {
    exists|step: ConfirmationStep| #[trigger]
        is_confirmation_step(step, tx_hash@, poll, waited, timeout) && match step {
            ConfirmationStep::Done { block } => action is ReadBack && next
                == (Provisioning::ReadingBack { operation, expected, tx_hash, block }),
            ConfirmationStep::Fail { error } => gave_up(next, action, error@),
            ConfirmationStep::AskAgain => action is PauseAndPoll && next
                == (Provisioning::Confirming { operation, expected, tx_hash }),
        }
}

/// The step after the identity was read back.
pub open spec fn is_read_back(
    operation: StableIdentityProvisioningOperationV2,
    expected: RegistryIdentityRecordV2,
    tx_hash: String,
    block: u64,
    found: Option<RegistryIdentityRecordV2>,
    waited: Duration,
    timeout: Duration,
    next: Provisioning,
    action: ProvisioningAction,
) -> bool {
    exists|step: ReadbackStep| #[trigger]
        is_readback_step(step, expected, found, waited, timeout) && match step {
            ReadbackStep::Done { identity } => action is AskCheckpoint && next
                == (Provisioning::Closing { operation, tx_hash, block, identity }),
            ReadbackStep::Fail { error } => gave_up(next, action, error@),
            ReadbackStep::ReadAgain => action is PauseAndReadBack && next
                == (Provisioning::ReadingBack { operation, expected, tx_hash, block }),
        }
}

/// The receipt of a change.
pub open spec fn is_receipt(
    r: StableIdentityProvisioningReceiptV2,
    config: StableIdentityProvisioningConfigV2,
    operation: StableIdentityProvisioningOperationV2,
    tx_hash: String,
    block: u64,
    checkpoint: String,
    identity: RegistryIdentityRecordV2,
) -> bool {
    &&& r.operation == operation
    &&& r.endpoint@ == config.endpoint@
    &&& r.contract_address@ == config.contract_address@
    &&& optional_text(r.network_id) == optional_text(config.network_id)
    &&& optional_text(r.chain_id) == optional_text(config.chain_id)
    &&& r.tx_hash == tx_hash
    &&& r.confirmed_block == block
    &&& r.chain_checkpoint_observed == checkpoint
    &&& r.readback_verified
    &&& r.identity == identity
}

/// Where a change goes from here, and what it asks for.
pub open spec fn is_provisioning_step(
    config: StableIdentityProvisioningConfigV2,
    run: Provisioning,
    event: ProvisioningEvent,
    next: Provisioning,
    action: ProvisioningAction,
) -> bool {
    match (run, event) {
        (Provisioning::Reading { change }, ProvisioningEvent::Read { found, .. }) => {
            match identity_read(found) {
                Err(why) => gave_up(next, action, why),
                Ok(current) => match change_barred(change, current) {
                    Some(text) => gave_up(next, action, QlinkErrorView::Protocol(text)),
                    None => action is OpenWallet && next == (Provisioning::OpeningWallet {
                        change,
                        current,
                    }),
                },
            }
        },
        (
            Provisioning::OpeningWallet { change, current },
            ProvisioningEvent::Wallet { owner, owner_error },
        ) => match change_barred(change, current) {
            Some(text) => gave_up(next, action, QlinkErrorView::Protocol(text)),
            None => is_prepared(change, current, owner, owner_error, next, action),
        },
        (Provisioning::OpeningWallet { .. }, ProvisioningEvent::NoWallet(e)) => gave_up(
            next,
            action,
            e@,
        ),
        (
            Provisioning::Authorizing { operation, expected, .. },
            ProvisioningEvent::RecordAuthorized { wallet, device },
        ) => if written_operation(operation) is Some {
            is_to_pin(
                next,
                action,
                operation,
                expected,
                record_mutation_json(expected, wallet, device),
            )
        } else {
            next == run && action is Wait
        },
        (
            Provisioning::Authorizing { operation, peer_id, expected },
            ProvisioningEvent::StatusAuthorized { wallet },
        ) => if written_operation(operation) is None {
            is_to_pin(
                next,
                action,
                operation,
                expected,
                status_mutation_json(peer_id@, expected.identity_revision, wallet),
            )
        } else {
            next == run && action is Wait
        },
        (Provisioning::Authorizing { .. }, ProvisioningEvent::NotAuthorized(e)) => gave_up(
            next,
            action,
            e@,
        ),
        (
            Provisioning::Pinning { operation, expected, request_json },
            ProvisioningEvent::Checkpoint(observed),
        ) => match observed {
            Err(reason) => gave_up(
                next,
                action,
                QlinkErrorView::Protocol("Dytallix SDK error: "@ + reason@),
            ),
            Ok(observed) => if chain_fits(optional_text(config.chain_id), observed@) {
                &&& action matches ProvisioningAction::Submit { call } && is_call_of(
                    call,
                    config,
                    operation,
                    request_json@,
                    observed@,
                )
                &&& next matches Provisioning::Submitting {
                    operation: o,
                    expected: x,
                    request_json: r,
                    checkpoint,
                } && o == operation && x == expected && r == request_json && checkpoint@
                    == observed@
            } else {
                gave_up(next, action, wrong_chain(optional_text(config.chain_id), observed@))
            },
        },
        (Provisioning::Pinning { .. }, ProvisioningEvent::NotSubmitted(e)) => gave_up(
            next,
            action,
            e@,
        ),
        (
            Provisioning::Submitting { operation, expected, .. },
            ProvisioningEvent::Submitted { tx_hash, hash },
        ) => {
            let found = hash_field(tx_hash, hash);
            if found is Some && trimmed(found->0).len() > 0 {
                action is Poll && (next matches Provisioning::Confirming {
                    operation: o,
                    expected: x,
                    tx_hash: h,
                } && o == operation && x == expected && h@ == found->0)
            } else {
                gave_up(
                    next,
                    action,
                    QlinkErrorView::Protocol(
                        "Dytallix contract submission did not return a transaction hash"@,
                    ),
                )
            }
        },
        (Provisioning::Submitting { .. }, ProvisioningEvent::NotSubmitted(e)) => gave_up(
            next,
            action,
            e@,
        ),
        (
            Provisioning::Confirming { operation, expected, tx_hash },
            ProvisioningEvent::Polled { poll, waited },
        ) => is_polled(
            operation,
            expected,
            tx_hash,
            poll,
            waited,
            config.confirmation_timeout,
            next,
            action,
        ),
        (
            Provisioning::ReadingBack { operation, expected, tx_hash, block },
            ProvisioningEvent::Read { found, waited },
        ) => match identity_read(found) {
            Err(why) => gave_up(next, action, why),
            Ok(found) => is_read_back(
                operation,
                expected,
                tx_hash,
                block,
                found,
                waited,
                config.confirmation_timeout,
                next,
                action,
            ),
        },
        (
            Provisioning::Closing { operation, tx_hash, block, identity },
            ProvisioningEvent::Checkpoint(observed),
        ) => match observed {
            Err(reason) => gave_up(
                next,
                action,
                QlinkErrorView::Protocol("Dytallix SDK error: "@ + reason@),
            ),
            Ok(observed) => next is Finished && (action matches ProvisioningAction::Finish(
                Ok(receipt),
            ) && is_receipt(receipt, config, operation, tx_hash, block, observed, identity)),
        },
        _ => next == run && action is Wait,
    }
}

/// The contract's method for an operation.
pub open spec fn contract_method_name(
    operation: StableIdentityProvisioningOperationV2,
) -> Seq<char> {
    match operation {
        StableIdentityProvisioningOperationV2::Register => "register_identity"@,
        StableIdentityProvisioningOperationV2::Update => "update_identity"@,
        StableIdentityProvisioningOperationV2::Reactivate => "update_identity"@,
        StableIdentityProvisioningOperationV2::Suspend => "suspend_identity"@,
        StableIdentityProvisioningOperationV2::Revoke => "revoke_identity"@,
    }
}

/// What the wallet and the device authorize for an operation that writes a record;
/// nothing for one that only changes the standing.
pub open spec fn written_operation(operation: StableIdentityProvisioningOperationV2) -> Option<
    RegistryIdentityOperationV2,
> {
    match operation {
        StableIdentityProvisioningOperationV2::Register => Some(
            RegistryIdentityOperationV2::Register,
        ),
        StableIdentityProvisioningOperationV2::Update => Some(RegistryIdentityOperationV2::Update),
        StableIdentityProvisioningOperationV2::Reactivate => Some(
            RegistryIdentityOperationV2::Update,
        ),
        _ => None,
    }
}

impl StableIdentityProvisioningOperationV2 {
    pub fn contract_method(self) -> (s: &'static str)
        ensures
            s@ == contract_method_name(self),
    {
        match self {
            StableIdentityProvisioningOperationV2::Register => "register_identity",
            StableIdentityProvisioningOperationV2::Update => "update_identity",
            StableIdentityProvisioningOperationV2::Reactivate => "update_identity",
            StableIdentityProvisioningOperationV2::Suspend => "suspend_identity",
            StableIdentityProvisioningOperationV2::Revoke => "revoke_identity",
        }
    }

    pub fn record_operation(self) -> (r: Option<RegistryIdentityOperationV2>)
        ensures
            r == written_operation(self),
    {
        match self {
            StableIdentityProvisioningOperationV2::Register => Some(
                RegistryIdentityOperationV2::Register,
            ),
            StableIdentityProvisioningOperationV2::Update => Some(
                RegistryIdentityOperationV2::Update,
            ),
            StableIdentityProvisioningOperationV2::Reactivate => Some(
                RegistryIdentityOperationV2::Update,
            ),
            StableIdentityProvisioningOperationV2::Suspend => None,
            StableIdentityProvisioningOperationV2::Revoke => None,
        }
    }
}

/// A change that has ended with this reason.
fn end(e: QlinkError) -> (r: (Provisioning, ProvisioningAction))
    ensures
        gave_up(r.0, r.1, e@),
{
    (Provisioning::Finished, ProvisioningAction::Finish(Err(e)))
}

/// What was read, as an identity.
fn read_identity(found: Result<Option<RegistryIdentityLookupRecord>>) -> (r: Result<
    Option<RegistryIdentityRecordV2>,
>)
    ensures
        match identity_read(found) {
            Ok(identity) => r == Ok::<Option<RegistryIdentityRecordV2>, QlinkError>(identity),
            Err(why) => r matches Err(e) && e@ == why,
        },
{
    match found {
        Ok(record) => readback_outcome(record),
        Err(e) => Err(e),
    }
}

/// Why a change is not allowed as things stand, if it is not.
fn barred(change: &IdentityChange, current: &Option<RegistryIdentityRecordV2>) -> (r: Option<
    QlinkError,
>)
    ensures
        match change_barred(*change, *current) {
            Some(text) => r matches Some(e) && e@ == QlinkErrorView::Protocol(text),
            None => r is None,
        },
{
    let operation = match change {
        IdentityChange::Register { .. } => {
            return match require_unregistered(current) {
                Ok(()) => None,
                Err(e) => Some(e),
            };
        },
        IdentityChange::Update { .. } => StableIdentityProvisioningOperationV2::Update,
        IdentityChange::Reactivate { .. } => StableIdentityProvisioningOperationV2::Reactivate,
        IdentityChange::Suspend { .. } => StableIdentityProvisioningOperationV2::Suspend,
        IdentityChange::Revoke { .. } => StableIdentityProvisioningOperationV2::Revoke,
    };
    match update_basis(operation, current) {
        Ok(_) => None,
        Err(e) => Some(e),
    }
}

impl DytallixStableIdentityProvisionerV2 {
    /// Starts a registration: the first revision of an identity, active.
    pub fn register(&self, device_public_key: DevicePublicKey, policy: StableIdentityPolicyV2) -> (r:
        Provisioning)
        ensures
            r == (Provisioning::Reading {
                change: IdentityChange::Register { device_public_key, policy },
            }),
    {
        Provisioning::Reading { change: IdentityChange::Register { device_public_key, policy } }
    }

    /// Starts a change of the terms.
    pub fn update(&self, device_public_key: DevicePublicKey, policy: StableIdentityPolicyV2) -> (r:
        Provisioning)
        ensures
            r == (Provisioning::Reading {
                change: IdentityChange::Update { device_public_key, policy },
            }),
    {
        Provisioning::Reading { change: IdentityChange::Update { device_public_key, policy } }
    }

    /// Starts to lift a suspension.
    pub fn reactivate(
        &self,
        device_public_key: DevicePublicKey,
        policy: StableIdentityPolicyV2,
    ) -> (r: Provisioning)
        ensures
            r == (Provisioning::Reading {
                change: IdentityChange::Reactivate { device_public_key, policy },
            }),
    {
        Provisioning::Reading { change: IdentityChange::Reactivate { device_public_key, policy } }
    }

    /// Starts a suspension.
    pub fn suspend(&self, device_peer_id: &str) -> (r: Provisioning)
        ensures
            r matches Provisioning::Reading { change: IdentityChange::Suspend { peer_id } }
                && peer_id@ == device_peer_id@,
    {
        Provisioning::Reading {
            change: IdentityChange::Suspend { peer_id: device_peer_id.to_owned() },
        }
    }

    /// Starts a revocation.
    pub fn revoke(&self, device_peer_id: &str) -> (r: Provisioning)
        ensures
            r matches Provisioning::Reading { change: IdentityChange::Revoke { peer_id } }
                && peer_id@ == device_peer_id@,
    {
        Provisioning::Reading {
            change: IdentityChange::Revoke { peer_id: device_peer_id.to_owned() },
        }
    }

    /// Makes the record that a change of the terms writes.
    fn write(
        &self,
        operation: StableIdentityProvisioningOperationV2,
        basis: ChangeBasis,
        device_public_key: DevicePublicKey,
        policy: StableIdentityPolicyV2,
        owner_error: Option<String>,
    ) -> (r: (Provisioning, ProvisioningAction))
        ensures
            exists|made: RegistryIdentityRecordV2| #[trigger]
                is_written(
                    made,
                    (basis.owner_daddr@, basis.status, basis.revision),
                    device_public_key,
                    policy,
                ) && match record_refusal(made, optional_text(owner_error)) {
                    Some(why) => gave_up(r.0, r.1, stable_refusal_text(why)),
                    None => r.1 is Authorize && (r.0 matches Provisioning::Authorizing {
                        operation: o,
                        peer_id,
                        expected,
                    } && o == operation && peer_id@ == device_public_key.peer_id@ && expected
                        == made),
                },
    {
        let reason = match &owner_error {
            Some(text) => Some(text.as_str()),
            None => None,
        };
        assert(reason_view(reason) == optional_text(owner_error));
        let made = provisioned_record(&basis, &device_public_key, policy, reason);
        let ghost chosen = choose|made_record: RegistryIdentityRecordV2|
            #[trigger] is_identity_of(
                made_record,
                basis.owner_daddr@,
                device_public_key,
                basis.status,
                basis.revision,
                policy.authorization_expires_at,
                policy.max_peer_record_ttl_seconds,
                optional_text(policy.mesh_scope),
                policy.metadata_commitment_hex,
            ) && match record_refusal(made_record, reason_view(reason)) {
                Some(why) => made matches Err(e) && e@ == stable_refusal_text(why),
                None => made == Ok::<RegistryIdentityRecordV2, QlinkError>(made_record),
            };
        assert(is_written(
            chosen,
            (basis.owner_daddr@, basis.status, basis.revision),
            device_public_key,
            policy,
        ));
        match made {
            Ok(expected) => (
                Provisioning::Authorizing {
                    operation,
                    peer_id: device_public_key.peer_id.clone(),
                    expected,
                },
                ProvisioningAction::Authorize,
            ),
            Err(e) => end(e),
        }
    }

    /// The call that carries a request, for a chain at this checkpoint.
    fn call_of(
        &self,
        operation: StableIdentityProvisioningOperationV2,
        request_json: &str,
        checkpoint: &str,
    ) -> (call: ContractCall)
        ensures
            is_call_of(call, self.config, operation, request_json@, checkpoint@),
    {
        ContractCall {
            chain_id: checkpoint.to_owned(),
            contract_address: self.config.contract_address.clone(),
            method: operation.contract_method(),
            args_hex: hex_encode_bytes(request_json.as_bytes()),
            gas_limit: CONTRACT_CALL_GAS_LIMIT,
        }
    }

    /// Goes on once the wallet is open.
    fn prepare(
        &self,
        change: IdentityChange,
        current: Option<RegistryIdentityRecordV2>,
        owner: Result<String, String>,
        owner_error: Option<String>,
    ) -> (r: (Provisioning, ProvisioningAction))
        ensures
            match change_barred(change, current) {
                Some(text) => gave_up(r.0, r.1, QlinkErrorView::Protocol(text)),
                None => is_prepared(change, current, owner, owner_error, r.0, r.1),
            },
    {
        if let Some(e) = barred(&change, &current) {
            return end(e);
        }
        match change {
            IdentityChange::Register { device_public_key, policy } => match wallet_owner(owner) {
                Ok(owner_daddr) => self.write(
                    StableIdentityProvisioningOperationV2::Register,
                    registration_basis(owner_daddr),
                    device_public_key,
                    policy,
                    owner_error,
                ),
                Err(e) => end(e),
            },
            IdentityChange::Update { device_public_key, policy } => match update_basis(
                StableIdentityProvisioningOperationV2::Update,
                &current,
            ) {
                Ok(basis) => self.write(
                    StableIdentityProvisioningOperationV2::Update,
                    basis,
                    device_public_key,
                    policy,
                    owner_error,
                ),
                Err(e) => end(e),
            },
            IdentityChange::Reactivate { device_public_key, policy } => match update_basis(
                StableIdentityProvisioningOperationV2::Reactivate,
                &current,
            ) {
                Ok(basis) => self.write(
                    StableIdentityProvisioningOperationV2::Reactivate,
                    basis,
                    device_public_key,
                    policy,
                    owner_error,
                ),
                Err(e) => end(e),
            },
            IdentityChange::Suspend { peer_id } => match status_change(
                current,
                RegistryIdentityStatusV2::Suspended,
            ) {
                Ok(expected) => (
                    Provisioning::Authorizing {
                        operation: StableIdentityProvisioningOperationV2::Suspend,
                        peer_id,
                        expected,
                    },
                    ProvisioningAction::Authorize,
                ),
                Err(e) => end(e),
            },
            IdentityChange::Revoke { peer_id } => match status_change(
                current,
                RegistryIdentityStatusV2::Revoked,
            ) {
                Ok(expected) => (
                    Provisioning::Authorizing {
                        operation: StableIdentityProvisioningOperationV2::Revoke,
                        peer_id,
                        expected,
                    },
                    ProvisioningAction::Authorize,
                ),
                Err(e) => end(e),
            },
        }
    }

    /// Goes on with a change.
    pub fn provision(&self, run: Provisioning, event: ProvisioningEvent) -> (r: (
        Provisioning,
        ProvisioningAction,
    ))
        ensures
            is_provisioning_step(self.config, run, event, r.0, r.1),
    {
        match (run, event) {
            (Provisioning::Reading { change }, ProvisioningEvent::Read { found, .. }) => {
                match read_identity(found) {
                    Ok(current) => match barred(&change, &current) {
                        Some(e) => end(e),
                        None => (
                            Provisioning::OpeningWallet { change, current },
                            ProvisioningAction::OpenWallet,
                        ),
                    },
                    Err(e) => end(e),
                }
            },
            (
                Provisioning::OpeningWallet { change, current },
                ProvisioningEvent::Wallet { owner, owner_error },
            ) => self.prepare(change, current, owner, owner_error),
            (Provisioning::OpeningWallet { .. }, ProvisioningEvent::NoWallet(e)) => end(e),
            (
                Provisioning::Authorizing { operation, peer_id, expected },
                ProvisioningEvent::RecordAuthorized { wallet, device },
            ) => match operation.record_operation() {
                Some(_) => {
                    let request_json = record_mutation_request(&expected, &wallet, &device);
                    (
                        Provisioning::Pinning { operation, expected, request_json },
                        ProvisioningAction::AskCheckpoint,
                    )
                },
                None => (
                    Provisioning::Authorizing { operation, peer_id, expected },
                    ProvisioningAction::Wait,
                ),
            },
            (
                Provisioning::Authorizing { operation, peer_id, expected },
                ProvisioningEvent::StatusAuthorized { wallet },
            ) => match operation.record_operation() {
                None => {
                    let request_json = status_mutation_request(
                        peer_id.as_str(),
                        expected.identity_revision,
                        &wallet,
                    );
                    (
                        Provisioning::Pinning { operation, expected, request_json },
                        ProvisioningAction::AskCheckpoint,
                    )
                },
                Some(_) => (
                    Provisioning::Authorizing { operation, peer_id, expected },
                    ProvisioningAction::Wait,
                ),
            },
            (Provisioning::Authorizing { .. }, ProvisioningEvent::NotAuthorized(e)) => end(e),
            (
                Provisioning::Pinning { operation, expected, request_json },
                ProvisioningEvent::Checkpoint(observed),
            ) => match observed {
                Err(reason) => end(provisioning_sdk_error(reason.as_str())),
                Ok(checkpoint) => {
                    let pinned = match &self.config.chain_id {
                        Some(chain_id) => Some(chain_id.as_str()),
                        None => None,
                    };
                    match require_pinned_chain(pinned, checkpoint.as_str()) {
                        Ok(()) => {
                            let call = self.call_of(
                                operation,
                                request_json.as_str(),
                                checkpoint.as_str(),
                            );
                            (
                                Provisioning::Submitting {
                                    operation,
                                    expected,
                                    request_json,
                                    checkpoint,
                                },
                                ProvisioningAction::Submit { call },
                            )
                        },
                        Err(e) => end(e),
                    }
                },
            },
            (Provisioning::Pinning { .. }, ProvisioningEvent::NotSubmitted(e)) => end(e),
            (
                Provisioning::Submitting { operation, expected, .. },
                ProvisioningEvent::Submitted { tx_hash, hash },
            ) => match require_tx_hash(tx_hash, hash) {
                Ok(tx_hash) => (
                    Provisioning::Confirming { operation, expected, tx_hash },
                    ProvisioningAction::Poll,
                ),
                Err(e) => end(e),
            },
            (Provisioning::Submitting { .. }, ProvisioningEvent::NotSubmitted(e)) => end(e),
            (
                Provisioning::Confirming { operation, expected, tx_hash },
                ProvisioningEvent::Polled { poll, waited },
            ) => match confirmation_step(
                tx_hash.as_str(),
                poll,
                waited,
                self.config.confirmation_timeout,
            ) {
                ConfirmationStep::Done { block } => (
                    Provisioning::ReadingBack { operation, expected, tx_hash, block },
                    ProvisioningAction::ReadBack,
                ),
                ConfirmationStep::Fail { error } => end(error),
                ConfirmationStep::AskAgain => (
                    Provisioning::Confirming { operation, expected, tx_hash },
                    ProvisioningAction::PauseAndPoll,
                ),
            },
            (
                Provisioning::ReadingBack { operation, expected, tx_hash, block },
                ProvisioningEvent::Read { found, waited },
            ) => match read_identity(found) {
                Err(e) => end(e),
                Ok(found) => match readback_step(
                    &expected,
                    found,
                    waited,
                    self.config.confirmation_timeout,
                ) {
                    ReadbackStep::Done { identity } => (
                        Provisioning::Closing { operation, tx_hash, block, identity },
                        ProvisioningAction::AskCheckpoint,
                    ),
                    ReadbackStep::Fail { error } => end(error),
                    ReadbackStep::ReadAgain => (
                        Provisioning::ReadingBack { operation, expected, tx_hash, block },
                        ProvisioningAction::PauseAndReadBack,
                    ),
                },
            },
            (
                Provisioning::Closing { operation, tx_hash, block, identity },
                ProvisioningEvent::Checkpoint(observed),
            ) => match observed {
                Err(reason) => end(provisioning_sdk_error(reason.as_str())),
                Ok(checkpoint) => {
                    let receipt = provisioning_receipt(
                        &self.config,
                        operation,
                        tx_hash,
                        block,
                        checkpoint,
                        identity,
                    );
                    (Provisioning::Finished, ProvisioningAction::Finish(Ok(receipt)))
                },
            },
            (run, _) => (run, ProvisioningAction::Wait),
        }
    }
}

// ---------------------------------------------------------------------------
// Laws
// ---------------------------------------------------------------------------

/// A change from its start: before the event `events[i]` it stood at `runs[i]`, and
/// after it the change asked for `actions[i]`.
pub open spec fn is_course(
    config: StableIdentityProvisioningConfigV2,
    change: IdentityChange,
    runs: Seq<Provisioning>,
    events: Seq<ProvisioningEvent>,
    actions: Seq<ProvisioningAction>,
) -> bool {
    &&& runs.len() == events.len() + 1
    &&& actions.len() == events.len()
    &&& runs[0] == (Provisioning::Reading { change })
    &&& forall|i: int|
        0 <= i < events.len() ==> is_provisioning_step(
            config,
            runs[i],
            #[trigger] events[i],
            runs[i + 1],
            actions[i],
        )
}

/// Before the `k`-th step the registry was read, and what it held allows the change.
pub open spec fn was_allowed(
    change: IdentityChange,
    events: Seq<ProvisioningEvent>,
    k: int,
) -> bool {
    exists|i: int|
        0 <= i < k && (#[trigger] events[i] matches ProvisioningEvent::Read { found, .. } && (
        identity_read(found) matches Ok(current) && change_barred(change, current) is None))
}

/// An event that authorizes a change: of the wallet and the device for a record, of
/// the wallet alone for a standing.
pub open spec fn authorizes(change: IdentityChange, event: ProvisioningEvent) -> bool {
    if written_operation(operation_of(change)) is Some {
        event is RecordAuthorized
    } else {
        event is StatusAuthorized
    }
}

/// The request that an authorization makes of a change.
pub open spec fn request_of(
    change: IdentityChange,
    expected: RegistryIdentityRecordV2,
    event: ProvisioningEvent,
) -> Seq<char> {
    match event {
        ProvisioningEvent::RecordAuthorized { wallet, device } => record_mutation_json(
            expected,
            wallet,
            device,
        ),
        ProvisioningEvent::StatusAuthorized { wallet } => status_mutation_json(
            peer_of(change)@,
            expected.identity_revision,
            wallet,
        ),
        _ => Seq::empty(),
    }
}

/// Before the `k`-th step the change was authorized.
pub open spec fn was_authorized(
    change: IdentityChange,
    events: Seq<ProvisioningEvent>,
    k: int,
) -> bool {
    exists|i: int| 0 <= i < k && authorizes(change, #[trigger] events[i])
}

/// Before the `k`-th step the change was authorized in the way that the request says.
#[verifier::opaque]
pub open spec fn was_requested(
    change: IdentityChange,
    expected: RegistryIdentityRecordV2,
    request: Seq<char>,
    events: Seq<ProvisioningEvent>,
    k: int,
) -> bool {
    exists|i: int|
        0 <= i < k && authorizes(change, #[trigger] events[i]) && request == request_of(
            change,
            expected,
            events[i],
        )
}

/// Before the `k`-th step the chain said that it is the pinned one.
pub open spec fn was_pinned(
    config: StableIdentityProvisioningConfigV2,
    events: Seq<ProvisioningEvent>,
    k: int,
) -> bool {
    exists|i: int|
        0 <= i < k && (#[trigger] events[i] matches ProvisioningEvent::Checkpoint(Ok(observed))
            && chain_fits(optional_text(config.chain_id), observed@))
}

/// Before the `k`-th step the chain confirmed the transaction in this block.
pub open spec fn was_confirmed(
    runs: Seq<Provisioning>,
    events: Seq<ProvisioningEvent>,
    tx_hash: String,
    block: u64,
    k: int,
) -> bool {
    exists|i: int|
        0 <= i < k && (#[trigger] events[i] matches ProvisioningEvent::Polled { poll, .. } && poll
            == (TransactionPoll::Confirmed { block })) && (
        runs[i] matches Provisioning::Confirming { tx_hash: asked, .. } && asked == tx_hash)
}

/// Before the `k`-th step the registry showed exactly what was to be written.
pub open spec fn was_shown(
    runs: Seq<Provisioning>,
    events: Seq<ProvisioningEvent>,
    identity: RegistryIdentityRecordV2,
    k: int,
) -> bool {
    exists|i: int|
        0 <= i < k && (#[trigger] events[i] matches ProvisioningEvent::Read { found, .. } && (
        identity_read(found) matches Ok(Some(shown)) && shown == identity && (
        runs[i] matches Provisioning::ReadingBack { expected, .. } && same_identity(
            shown,
            expected,
        ))))
}

/// What a change that stands at `runs[k]` has behind it.
pub open spec fn course_so_far(
    config: StableIdentityProvisioningConfigV2,
    change: IdentityChange,
    runs: Seq<Provisioning>,
    events: Seq<ProvisioningEvent>,
    k: int,
) -> bool {
    match runs[k] {
        Provisioning::Reading { change: c } => c == change,
        Provisioning::OpeningWallet { change: c, .. } => c == change && was_allowed(
            change,
            events,
            k,
        ),
        Provisioning::Authorizing { operation, peer_id, .. } => operation == operation_of(change)
            && peer_id@ == peer_of(change)@ && was_allowed(change, events, k),
        Provisioning::Pinning { operation, expected, request_json } => operation == operation_of(
            change,
        ) && was_allowed(change, events, k) && was_requested(
            change,
            expected,
            request_json@,
            events,
            k,
        ),
        Provisioning::Submitting { operation, expected, request_json, checkpoint } => operation
            == operation_of(change) && was_allowed(change, events, k) && was_requested(
            change,
            expected,
            request_json@,
            events,
            k,
        ) && was_pinned(config, events, k) && chain_fits(optional_text(config.chain_id), checkpoint@),
        Provisioning::Confirming { operation, .. } => operation == operation_of(change)
            && was_allowed(change, events, k) && was_authorized(change, events, k) && was_pinned(
            config,
            events,
            k,
        ),
        Provisioning::ReadingBack { operation, tx_hash, block, .. } => operation == operation_of(
            change,
        ) && was_allowed(change, events, k) && was_authorized(change, events, k) && was_pinned(
            config,
            events,
            k,
        ) && was_confirmed(
            runs,
            events,
            tx_hash,
            block,
            k,
        ),
        Provisioning::Closing { operation, tx_hash, block, identity } => operation == operation_of(
            change,
        ) && was_allowed(change, events, k) && was_authorized(change, events, k) && was_pinned(
            config,
            events,
            k,
        ) && was_confirmed(
            runs,
            events,
            tx_hash,
            block,
            k,
        ) && was_shown(runs, events, identity, k),
        Provisioning::Finished => true,
    }
}

/// What happened before a step happened before every later one.
proof fn lemma_history_grows(
    config: StableIdentityProvisioningConfigV2,
    change: IdentityChange,
    runs: Seq<Provisioning>,
    events: Seq<ProvisioningEvent>,
    tx_hash: String,
    block: u64,
    identity: RegistryIdentityRecordV2,
    k: int,
)
    ensures
        was_allowed(change, events, k) ==> was_allowed(change, events, k + 1),
        was_authorized(change, events, k) ==> was_authorized(change, events, k + 1),
        was_pinned(config, events, k) ==> was_pinned(config, events, k + 1),
        was_confirmed(runs, events, tx_hash, block, k) ==> was_confirmed(
            runs,
            events,
            tx_hash,
            block,
            k + 1,
        ),
        was_shown(runs, events, identity, k) ==> was_shown(runs, events, identity, k + 1),
{
}

/// The step that takes an authorization keeps the request that it makes.
proof fn lemma_request_made(
    config: StableIdentityProvisioningConfigV2,
    change: IdentityChange,
    run: Provisioning,
    events: Seq<ProvisioningEvent>,
    next: Provisioning,
    action: ProvisioningAction,
    i: int,
)
    requires
        0 <= i < events.len(),
        is_provisioning_step(config, run, events[i], next, action),
        run matches Provisioning::Authorizing { operation, peer_id, .. } && operation
            == operation_of(change) && peer_id@ == peer_of(change)@,
    ensures
        next matches Provisioning::Pinning { operation, expected, request_json } ==> operation
            == operation_of(change) && was_requested(
            change,
            expected,
            request_json@,
            events,
            i + 1,
        ),
        next !is Submitting,
{
    reveal(was_requested);
    let event = events[i];
    if let Provisioning::Pinning { expected, request_json, .. } = next {
        assert(authorizes(change, event));
        assert(request_json@ == request_of(change, expected, event));
    }
}

/// A request that was made stays made.
proof fn lemma_request_stays(
    change: IdentityChange,
    expected: RegistryIdentityRecordV2,
    request: Seq<char>,
    events: Seq<ProvisioningEvent>,
    k: int,
)
    requires
        was_requested(change, expected, request, events, k),
    ensures
        was_requested(change, expected, request, events, k + 1),
        was_authorized(change, events, k + 1),
{
    reveal(was_requested);
    let i = choose|i: int|
        0 <= i < k && authorizes(change, #[trigger] events[i]) && request == request_of(
            change,
            expected,
            events[i],
        );
    assert(authorizes(change, events[i]));
}

/// One step of a change that nothing has been asked of the chain for yet.
proof fn lemma_early_step(
    config: StableIdentityProvisioningConfigV2,
    change: IdentityChange,
    runs: Seq<Provisioning>,
    events: Seq<ProvisioningEvent>,
    actions: Seq<ProvisioningAction>,
    i: int,
)
    requires
        is_course(config, change, runs, events, actions),
        0 <= i < events.len(),
        course_so_far(config, change, runs, events, i),
        runs[i] is Reading || runs[i] is OpeningWallet || runs[i] is Authorizing,
    ensures
        course_so_far(config, change, runs, events, i + 1),
{
    assert(is_provisioning_step(config, runs[i], events[i], runs[i + 1], actions[i]));
    if runs[i] is Authorizing {
        lemma_request_made(config, change, runs[i], events, runs[i + 1], actions[i], i);
    }
}

/// One step of a change that is being pinned, submitted or confirmed.
proof fn lemma_middle_step(
    config: StableIdentityProvisioningConfigV2,
    change: IdentityChange,
    runs: Seq<Provisioning>,
    events: Seq<ProvisioningEvent>,
    actions: Seq<ProvisioningAction>,
    i: int,
)
    requires
        is_course(config, change, runs, events, actions),
        0 <= i < events.len(),
        course_so_far(config, change, runs, events, i),
        runs[i] is Pinning || runs[i] is Submitting || runs[i] is Confirming,
    ensures
        course_so_far(config, change, runs, events, i + 1),
{
    assert(is_provisioning_step(config, runs[i], events[i], runs[i + 1], actions[i]));
    match runs[i] {
        Provisioning::Pinning { expected, request_json, .. } => {
            lemma_request_stays(change, expected, request_json@, events, i);
        },
        Provisioning::Submitting { expected, request_json, .. } => {
            lemma_request_stays(change, expected, request_json@, events, i);
        },
        _ => {},
    }
}

/// One step of a change that was confirmed.
proof fn lemma_late_step(
    config: StableIdentityProvisioningConfigV2,
    change: IdentityChange,
    runs: Seq<Provisioning>,
    events: Seq<ProvisioningEvent>,
    actions: Seq<ProvisioningAction>,
    i: int,
)
    requires
        is_course(config, change, runs, events, actions),
        0 <= i < events.len(),
        course_so_far(config, change, runs, events, i),
        runs[i] is ReadingBack || runs[i] is Closing || runs[i] is Finished,
    ensures
        course_so_far(config, change, runs, events, i + 1),
{
    assert(is_provisioning_step(config, runs[i], events[i], runs[i + 1], actions[i]));
    if let Provisioning::Closing { tx_hash, block, identity, .. } = runs[i + 1] {
        lemma_history_grows(config, change, runs, events, tx_hash, block, identity, i);
    }
    if let Provisioning::ReadingBack { tx_hash, block, expected, .. } = runs[i + 1] {
        lemma_history_grows(config, change, runs, events, tx_hash, block, expected, i);
    }
}

/// Nothing is authorized unless what stands allows the change; no call is signed or
/// submitted unless the change was authorized and the chain is the pinned one; and
/// nothing is read back before it is confirmed.
pub proof fn law_changes_keep_their_course(
    config: StableIdentityProvisioningConfigV2,
    change: IdentityChange,
    runs: Seq<Provisioning>,
    events: Seq<ProvisioningEvent>,
    actions: Seq<ProvisioningAction>,
    k: int,
)
    requires
        is_course(config, change, runs, events, actions),
        0 <= k < runs.len(),
    ensures
        course_so_far(config, change, runs, events, k),
    decreases k,
{
    if k > 0 {
        let i = k - 1;
        law_changes_keep_their_course(config, change, runs, events, actions, i);
        match runs[i] {
            Provisioning::Reading { .. }
            | Provisioning::OpeningWallet { .. }
            | Provisioning::Authorizing { .. } => {
                lemma_early_step(config, change, runs, events, actions, i);
            },
            Provisioning::Pinning { .. }
            | Provisioning::Submitting { .. }
            | Provisioning::Confirming { .. } => {
                lemma_middle_step(config, change, runs, events, actions, i);
            },
            _ => {
                lemma_late_step(config, change, runs, events, actions, i);
            },
        }
    }
}

/// A call is signed for the very checkpoint that the chain gave and that fits the
/// pin, and it carries the request that the wallet and the device authorized.
pub proof fn law_calls_are_signed_for_the_pinned_chain(
    config: StableIdentityProvisioningConfigV2,
    change: IdentityChange,
    runs: Seq<Provisioning>,
    events: Seq<ProvisioningEvent>,
    actions: Seq<ProvisioningAction>,
    k: int,
)
    requires
        is_course(config, change, runs, events, actions),
        0 <= k < events.len(),
    ensures
        actions[k] matches ProvisioningAction::Submit { call } ==> {
            &&& events[k] matches ProvisioningEvent::Checkpoint(Ok(observed)) && observed@
                == call.chain_id@
            &&& chain_fits(optional_text(config.chain_id), call.chain_id@)
            &&& call.contract_address@ == config.contract_address@
            &&& call.method@ == contract_method_name(operation_of(change))
            &&& was_allowed(change, events, k)
            &&& runs[k] matches Provisioning::Pinning { expected, request_json, .. }
                && call.args_hex@ == hex_text(encode_utf8(request_json@)) && was_requested(
                change,
                expected,
                request_json@,
                events,
                k,
            )
        },
{
    law_changes_keep_their_course(config, change, runs, events, actions, k);
    assert(is_provisioning_step(config, runs[k], events[k], runs[k + 1], actions[k]));
}

/// A receipt means that the change was allowed and authorized, was made on the
/// pinned chain, was confirmed in the block that it names, and that the registry
/// showed the identity that it holds.
pub proof fn law_receipt_means_done(
    config: StableIdentityProvisioningConfigV2,
    change: IdentityChange,
    runs: Seq<Provisioning>,
    events: Seq<ProvisioningEvent>,
    actions: Seq<ProvisioningAction>,
    k: int,
)
    requires
        is_course(config, change, runs, events, actions),
        0 <= k < events.len(),
    ensures
        actions[k] matches ProvisioningAction::Finish(Ok(receipt)) ==> {
            &&& receipt.operation == operation_of(change)
            &&& was_allowed(change, events, k)
            &&& was_authorized(change, events, k)
            &&& was_pinned(config, events, k)
            &&& was_confirmed(runs, events, receipt.tx_hash, receipt.confirmed_block, k)
            &&& was_shown(runs, events, receipt.identity, k)
        },
{
    law_changes_keep_their_course(config, change, runs, events, actions, k);
    assert(is_provisioning_step(config, runs[k], events[k], runs[k + 1], actions[k]));
}

} // verus!
