//! What holds of every verdict that rests on a registry: who is accepted, who is
//! refused, and what a policy changes about it.

use crate::discovery::{DevicePublicKey, InboundIdentityAssertion, PeerRecord};
use crate::dytallix_identity::{
    DeviceBindingAuthorization, DytallixIdentityRegistry, DytallixPolicyDecision,
    DytallixPolicyStatus, DytallixRegistryLookupConfig, EnrollmentPlan, JsonField, MeshTrustPolicy,
    RegisterNodeRequest, RegistryContractMethod, RegistryDecision, RegistryNodeRecord,
    RegistryNodeStatus, RegistryQueryResponse, WalletAuthorization, address_digits, binding_payload,
    binding_verdict, endpoint_pin, evaluate_dytallix_policy_status, inbound_verdict, lookup_outcome,
    normal_address, normal_pins, plan_enrollment_wallet, select_wallet_name, stable_lookup_outcome,
    submission_tx_hash, texts, validate_registry_submission_response,
    verify_inbound_registry_assertion, verify_peer_record_identity, verify_registry_binding,
    wallet_record_payload, write_record,
};
use crate::dytallix_identity_v2::{
    DeviceAuthorizationV2, RegistryIdentityOperationV2, RegistryIdentityRecordV2,
    RegistryIdentityStatusV2, StableErrorView, StableIdentityV2Result,
    StableRegistryBindingDecisionV2, WalletAuthorizationV2, device_payload, judge_wallet_check,
    record_refusal, require_active_and_unexpired, require_record_device, require_wallet_owner,
    stable_inbound_refusal, stable_refusal, verify_stable_inbound_registry_binding,
    verify_stable_registry_binding, verify_stable_registry_binding_at, wallet_payload,
};
use crate::error::{QlinkError, QlinkErrorView, Result};
use crate::identity_laws::law_digest_is_a_record_hash;
use crate::outside::sha256;
use crate::text::{
    has_prefix, hex_text, is_hex_digit, is_white, law_hex_round_trip, lowered, trimmed, trimmed_end,
    trimmed_start, without_trailing,
};
use vstd::prelude::*;
use vstd::string::*;
use vstd::utf8::*;

verus! {

// ---------------------------------------------------------------------------
// Records of exact peers
// ---------------------------------------------------------------------------

/// An inbound peer with a record is accepted exactly where the record is active
/// and not expired, names the peer, and both its key hashes are the digest of the
/// key that the peer showed. No policy changes that.
pub proof fn law_inbound_peer_needs_a_fitting_active_record(
    assertion: InboundIdentityAssertion,
    r: RegistryNodeRecord,
    policy: MeshTrustPolicy,
    now_unix: u64,
)
    ensures
        ({
            let digest = hex_text(sha256(assertion.device_public_key.json@)@);
            let verdict = inbound_verdict(assertion, Some(r), policy, now_unix);
            &&& verdict is Ok <==> {
                &&& r.status is Active
                &&& (r.expires_at is None || r.expires_at->0 > now_unix)
                &&& r.peer_id@ == assertion.peer_id@
                &&& r.device_public_key_hash_hex@ == digest
                &&& r.node_signing_public_key_hash_hex@ == digest
            }
            &&& verdict matches Ok(decision) ==> decision is Accepted
            &&& r.status is Revoked ==> verdict == Err::<RegistryDecision, QlinkErrorView>(
                QlinkErrorView::Protocol("registry record is revoked"@),
            )
            &&& r.status is Suspended ==> verdict == Err::<RegistryDecision, QlinkErrorView>(
                QlinkErrorView::Protocol("registry record is suspended"@),
            )
            &&& r.status is Active && r.expires_at is Some && r.expires_at->0 <= now_unix
                ==> verdict == Err::<RegistryDecision, QlinkErrorView>(
                QlinkErrorView::Protocol("registry record has expired"@),
            )
            &&& r.status is Active && (r.expires_at is None || r.expires_at->0 > now_unix)
                && r.peer_id@ != assertion.peer_id@ ==> verdict == Err::<
                RegistryDecision,
                QlinkErrorView,
            >(QlinkErrorView::Protocol("peer_id mismatch"@))
        }),
{
    reveal_strlit("registry record is ");
    reveal_strlit("revoked");
    reveal_strlit("suspended");
    reveal_strlit("registry record is revoked");
    reveal_strlit("registry record is suspended");
    reveal_strlit("peer_id");
    reveal_strlit(" mismatch");
    reveal_strlit("peer_id mismatch");
    assert("registry record is "@ + "revoked"@ =~= "registry record is revoked"@);
    assert("registry record is "@ + "suspended"@ =~= "registry record is suspended"@);
    assert("peer_id"@ + " mismatch"@ =~= "peer_id mismatch"@);
}

/// Without a record a public mesh refuses, and the others accept and say under
/// which policy, for peers that dial and for believed peers that are dialled.
pub proof fn law_policy_decides_without_a_record(
    assertion: InboundIdentityAssertion,
    p: PeerRecord,
    now_unix: u64,
)
    ensures
        inbound_verdict(assertion, None, MeshTrustPolicy::PublicRequired, now_unix) == Err::<
            RegistryDecision,
            QlinkErrorView,
        >(QlinkErrorView::Protocol("registry record required by public mesh trust policy"@)),
        inbound_verdict(assertion, None, MeshTrustPolicy::PrivatePreferred, now_unix) == Ok::<
            RegistryDecision,
            QlinkErrorView,
        >(RegistryDecision::AcceptedWithoutRegistryPrivate),
        inbound_verdict(assertion, None, MeshTrustPolicy::DevelopmentOptional, now_unix) == Ok::<
            RegistryDecision,
            QlinkErrorView,
        >(RegistryDecision::AcceptedWithoutRegistryDevelopment),
        p.body.device_public_key.peer_id@ == p.body.peer_id@ && p.body.expires_at_unix > now_unix
            && p.signature_error is None ==> {
            &&& binding_verdict(p, None, MeshTrustPolicy::PublicRequired, now_unix) == Err::<
                RegistryDecision,
                QlinkErrorView,
            >(QlinkErrorView::Protocol("registry record required by public mesh trust policy"@))
            &&& binding_verdict(p, None, MeshTrustPolicy::PrivatePreferred, now_unix) == Ok::<
                RegistryDecision,
                QlinkErrorView,
            >(RegistryDecision::AcceptedWithoutRegistryPrivate)
            &&& binding_verdict(p, None, MeshTrustPolicy::DevelopmentOptional, now_unix) == Ok::<
                RegistryDecision,
                QlinkErrorView,
            >(RegistryDecision::AcceptedWithoutRegistryDevelopment)
        },
{
}

/// A dialled peer with a record is accepted exactly where its own record is
/// believed and the registry's is active, not expired, and fits it by name, by the
/// digests of its key and its certificate, by the hash of the record, and by the
/// digest of the payload that its device binds to the owner.
pub proof fn law_dialled_peer_needs_a_fitting_active_record(
    p: PeerRecord,
    r: RegistryNodeRecord,
    policy: MeshTrustPolicy,
    now_unix: u64,
)
    ensures
        ({
            let key_digest = hex_text(sha256(p.body.device_public_key.json@)@);
            let verdict = binding_verdict(p, Some(r), policy, now_unix);
            &&& verdict is Ok <==> {
                &&& p.body.device_public_key.peer_id@ == p.body.peer_id@
                &&& p.body.expires_at_unix > now_unix
                &&& p.signature_error is None
                &&& r.status is Active
                &&& (r.expires_at is None || r.expires_at->0 > now_unix)
                &&& r.peer_id@ == p.body.peer_id@
                &&& r.device_public_key_hash_hex@ == key_digest
                &&& r.node_signing_public_key_hash_hex@ == key_digest
                &&& r.transport_public_key_hash_hex@ == hex_text(
                    sha256(p.body.device_certificate_der@)@,
                )
                &&& r.latest_peer_record_hash_hex@ == hex_text(p.record_hash@)
                &&& r.pqc_binding_hash_hex@ == hex_text(
                    sha256(encode_utf8(binding_payload(r.owner_daddr@, p)))@,
                )
            }
            &&& verdict matches Ok(decision) ==> decision is Accepted
        }),
{
}

/// A record that is not believed is refused before the registry counts: for a key
/// of another peer, then for its age, then for its signature.
pub proof fn law_unbelieved_peer_record_is_refused(
    p: PeerRecord,
    registry_record: Option<RegistryNodeRecord>,
    policy: MeshTrustPolicy,
    now_unix: u64,
)
    ensures
        p.body.device_public_key.peer_id@ != p.body.peer_id@ ==> binding_verdict(
            p,
            registry_record,
            policy,
            now_unix,
        ) == Err::<RegistryDecision, QlinkErrorView>(
            QlinkErrorView::Protocol("peer_id does not match device public key"@),
        ),
        p.body.device_public_key.peer_id@ == p.body.peer_id@ && p.body.expires_at_unix <= now_unix
            ==> binding_verdict(p, registry_record, policy, now_unix) == Err::<
            RegistryDecision,
            QlinkErrorView,
        >(QlinkErrorView::RecordExpired),
        p.body.device_public_key.peer_id@ == p.body.peer_id@ && p.body.expires_at_unix > now_unix
            ==> (p.signature_error matches Some(why) ==> binding_verdict(
            p,
            registry_record,
            policy,
            now_unix,
        ) == Err::<RegistryDecision, QlinkErrorView>(why@)),
{
}

/// A peer record is believed exactly where its key is the peer's, it has not
/// expired and its signature holds.
pub proof fn law_peer_record_is_believed(peer_record: &PeerRecord, now_unix: u64, r: Result<()>)
    requires
        call_ensures(verify_peer_record_identity, (peer_record, now_unix), r),
    ensures
        r is Ok <==> peer_record.body.device_public_key.peer_id@ == peer_record.body.peer_id@
            && peer_record.body.expires_at_unix > now_unix && peer_record.signature_error is None,
{
}

/// A registry record made of a peer record holds the peer's digests, lives as long
/// as that record and starts without reputation, stake or metadata.
pub proof fn law_registry_record_is_made_of_the_peer_record(
    owner_daddr: &str,
    p: &PeerRecord,
    status: RegistryNodeStatus,
    updated_at: u64,
    made: Result<RegistryNodeRecord>,
)
    requires
        call_ensures(
            RegistryNodeRecord::from_peer_record,
            (owner_daddr, p, status, updated_at),
            made,
        ),
    ensures
        made matches Ok(r) && {
            let key_digest = hex_text(sha256(p.body.device_public_key.json@)@);
            &&& r.peer_id@ == p.body.peer_id@
            &&& r.owner_daddr@ == owner_daddr@
            &&& r.device_public_key_hash_hex@ == key_digest
            &&& r.node_signing_public_key_hash_hex@ == key_digest
            &&& r.transport_public_key_hash_hex@ == hex_text(
                sha256(p.body.device_certificate_der@)@,
            )
            &&& r.latest_peer_record_hash_hex@ == hex_text(p.record_hash@)
            &&& r.pqc_binding_hash_hex@ == hex_text(
                sha256(encode_utf8(binding_payload(owner_daddr@, *p)))@,
            )
            &&& r.status == status
            &&& r.updated_at == updated_at
            &&& r.expires_at == Some(p.body.expires_at_unix)
            &&& r.reputation_score == 0
            &&& r.stake_status is None
            &&& r.metadata_commitment_hex is None
        },
{
}

/// Only an active status passes without more. An unreachable registry is excused,
/// with a warning, where neither a public mesh nor the caller insists; every other
/// status is refused.
pub proof fn law_only_an_unreachable_registry_is_excused(
    policy: MeshTrustPolicy,
    status: DytallixPolicyStatus,
    insists: bool,
    r: Result<DytallixPolicyDecision>,
)
    requires
        call_ensures(evaluate_dytallix_policy_status, (policy, status, insists), r),
    ensures
        r is Ok <==> status is Active || (status is Unavailable && !insists && !(
        policy is PublicRequired)),
        r matches Ok(d) ==> d.accepted && (d.warning is None <==> status is Active),
{
}

// ---------------------------------------------------------------------------
// What is signed
// ---------------------------------------------------------------------------

/// A wallet signs the payload of the very record and method, and its
/// authorization shows the key and the signature in hexadecimal.
pub proof fn law_wallet_signs_the_record<F: Fn(&[u8]) -> Result<Vec<u8>, String>>(
    method: RegistryContractMethod,
    record: &RegistryNodeRecord,
    public_key: &[u8],
    signer: F,
    signature: Seq<u8>,
    r: Result<WalletAuthorization>,
)
    requires
        call_ensures(
            WalletAuthorization::sign_record::<F>,
            (method, record, public_key, signer),
            r,
        ),
        forall|payload: &[u8], s: Result<Vec<u8>, String>|
            payload@ == encode_utf8(wallet_record_payload(method, *record))
                && #[trigger] call_ensures(signer, (payload,), s) ==> (s matches Ok(v) && v@
                == signature),
    ensures
        r matches Ok(auth) && auth.actor_public_key_hex@ == hex_text(public_key@)
            && auth.actor_signature_hex@ == hex_text(signature),
{
}

/// A device signs the payload that binds the peer record to its owner, and only
/// where its key is the one in the record.
pub proof fn law_device_signs_its_own_binding<F: Fn(&[u8]) -> Vec<u8>>(
    owner_daddr: &str,
    peer_record: &PeerRecord,
    public_key: &DevicePublicKey,
    signer: F,
    signature: Seq<u8>,
    r: Result<DeviceBindingAuthorization>,
)
    requires
        call_ensures(
            DeviceBindingAuthorization::sign::<F>,
            (owner_daddr, peer_record, public_key, signer),
            r,
        ),
        forall|payload: &[u8], s: Vec<u8>|
            payload@ == encode_utf8(binding_payload(owner_daddr@, *peer_record))
                && #[trigger] call_ensures(signer, (payload,), s) ==> s@ == signature,
    ensures
        r is Ok <==> public_key.algorithm@ == peer_record.body.device_public_key.algorithm@
            && public_key.bytes@ == peer_record.body.device_public_key.bytes@,
        r matches Ok(auth) ==> auth.device_public_key_algorithm@ == public_key.algorithm@
            && auth.device_public_key_hex@ == hex_text(public_key.bytes@)
            && auth.device_binding_signature_hex@ == hex_text(signature),
{
}

/// What is written into the registry is an active record of the peer under the
/// derived owner; without an owner nothing is written.
pub proof fn law_written_record_is_the_peers<
    F: Fn(&[u8]) -> Result<Vec<u8>, String>,
    G: Fn(&[u8]) -> Vec<u8>,
>(
    method: RegistryContractMethod,
    owner: Result<String, String>,
    wallet_public_key: &[u8],
    wallet_signer: F,
    p: &PeerRecord,
    device_public_key: &DevicePublicKey,
    device_signer: G,
    updated_at: u64,
    r: Result<RegisterNodeRequest>,
)
    requires
        call_ensures(
            write_record::<F, G>,
            (
                method,
                owner,
                wallet_public_key,
                wallet_signer,
                p,
                device_public_key,
                device_signer,
                updated_at,
            ),
            r,
        ),
    ensures
        owner is Err ==> r is Err,
        r matches Ok(request) ==> owner is Ok && request.record.owner_daddr@ == owner->Ok_0@
            && request.record.peer_id@ == p.body.peer_id@ && request.record.status is Active
            && request.record.updated_at == updated_at && request.record.expires_at == Some(
            p.body.expires_at_unix,
        ) && device_public_key.bytes@ == p.body.device_public_key.bytes@
            && request.wallet_authorization.actor_public_key_hex@ == hex_text(wallet_public_key@)
            && request.device_binding_authorization.device_public_key_hex@ == hex_text(
            device_public_key.bytes@,
        ),
{
}

// ---------------------------------------------------------------------------
// Lookups and their settings
// ---------------------------------------------------------------------------

/// Forty hexadecimal digits are a contract address, with their prefix or without.
pub proof fn law_forty_hex_digits_are_an_address(digits: Seq<char>)
    requires
        digits.len() == 40,
        forall|i: int|
            0 <= i < digits.len() ==> ('0' <= #[trigger] digits[i] <= '9' || 'a' <= digits[i]
                <= 'f' || 'A' <= digits[i] <= 'F'),
    ensures
        normal_address("0x"@ + digits) == Ok::<Seq<char>, QlinkErrorView>("0x"@ + digits),
        normal_address(digits) == Ok::<Seq<char>, QlinkErrorView>("0x"@ + digits),
{
    reveal_strlit("0x");
    let full = "0x"@ + digits;
    assert(full[0] == '0');
    assert(full.last() == digits[39]);
    assert(full.subrange(0, 2) =~= "0x"@);
    assert(full.subrange(2, full.len() as int) =~= digits);
    assert(digits[0] != ' ' && digits[1] != 'x');
    assert(!has_prefix(digits, "0x"@)) by {
        if has_prefix(digits, "0x"@) {
            assert(digits.subrange(0, 2)[1] == digits[1]);
        }
    }
    assert(digits.last() == digits[39]);
    assert(trimmed(full) == full);
    assert(trimmed(digits) == digits);
}

/// Whatever passes as a contract address comes out as a prefix and forty
/// hexadecimal digits, which stand at the end of what was given.
pub proof fn law_address_keeps_its_digits(raw: Seq<char>)
    ensures
        normal_address(raw) matches Ok(a) ==> {
            &&& a.len() == 42
            &&& a[0] == '0' && a[1] == 'x'
            &&& forall|i: int|
                2 <= i < 42 ==> ('0' <= #[trigger] a[i] <= '9' || 'a' <= a[i] <= 'f' || 'A' <= a[i]
                    <= 'F')
            &&& trimmed(raw) == a || trimmed(raw) == a.subrange(2, 42)
        },
{
    reveal_strlit("0x");
    if let Ok(a) = normal_address(raw) {
        let t = trimmed(raw);
        let digits = address_digits(raw);
        assert forall|i: int| 2 <= i < 42 implies ('0' <= #[trigger] a[i] <= '9' || 'a' <= a[i]
            <= 'f' || 'A' <= a[i] <= 'F') by {
            assert(a[i] == digits[i - 2]);
            assert(is_hex_digit(digits[i - 2]));
        }
        if has_prefix(t, "0x"@) {
            assert(t =~= "0x"@ + digits) by {
                assert(t.subrange(0, 2) =~= "0x"@);
                assert(t =~= t.subrange(0, 2) + t.subrange(2, t.len() as int));
            }
        } else {
            assert(a.subrange(2, 42) =~= digits);
        }
    }
}

/// A registry is asked only at an endpoint on the list, where there is a list.
pub proof fn law_pinned_endpoints_alone_are_asked(
    config: &DytallixRegistryLookupConfig,
    r: Result<()>,
)
    requires
        call_ensures(DytallixRegistryLookupConfig::validate_endpoint_allowlist, (config,), r),
    ensures
        r is Ok <==> config.allowed_rpc_endpoints@.len() == 0 || exists|i: int|
            0 <= i < config.allowed_rpc_endpoints@.len() && endpoint_pin(
                (#[trigger] config.allowed_rpc_endpoints@[i])@,
            ) == endpoint_pin(config.endpoint@),
{
    let allowed = texts(config.allowed_rpc_endpoints@);
    if exists|i: int|
        0 <= i < config.allowed_rpc_endpoints@.len() && endpoint_pin(
            (#[trigger] config.allowed_rpc_endpoints@[i])@,
        ) == endpoint_pin(config.endpoint@) {
        let i = choose|i: int|
            0 <= i < config.allowed_rpc_endpoints@.len() && endpoint_pin(
                (#[trigger] config.allowed_rpc_endpoints@[i])@,
            ) == endpoint_pin(config.endpoint@);
        assert(endpoint_pin(allowed[i]) == endpoint_pin(config.endpoint@));
    }
    if r is Ok && allowed.len() > 0 {
        let i = choose|i: int|
            0 <= i < allowed.len() && endpoint_pin(#[trigger] allowed[i]) == endpoint_pin(
                config.endpoint@,
            );
        assert(endpoint_pin(config.allowed_rpc_endpoints@[i]@) == endpoint_pin(config.endpoint@));
    }
}

/// Pins compare without regard to case and to a slash at the end.
pub proof fn law_pins_ignore_case_and_a_final_slash(endpoint: Seq<char>, other: Seq<char>)
    requires
        endpoint.len() > 0,
        trimmed(endpoint) == endpoint,
        other.len() == endpoint.len(),
        trimmed(other) == other,
        forall|i: int|
            0 <= i < endpoint.len() ==> (#[trigger] endpoint[i] == other[i] || ('A' <= endpoint[i]
                <= 'Z' && endpoint[i] as int + 32 == other[i] as int)),
    ensures
        endpoint_pin(endpoint) == endpoint_pin(other),
        endpoint_pin(endpoint.push('/')) == endpoint_pin(endpoint),
        endpoint.last() != '/' ==> endpoint_pin(other).len() == other.len(),
{
    lemma_same_but_for_case(endpoint, other);
    let slashed = endpoint.push('/');
    assert(slashed.drop_last() =~= endpoint);
    assert(endpoint[0] == slashed[0]);
    lemma_trimmed_ends(endpoint);
    assert(trimmed(slashed) == slashed);
}

proof fn lemma_trimmed_ends(s: Seq<char>)
    requires
        s.len() > 0,
        trimmed(s) == s,
    ensures
        !is_white(s[0]),
{
    if is_white(s[0]) {
        lemma_trimmed_shrinks(s.drop_first());
    }
}

proof fn lemma_trimmed_shrinks(s: Seq<char>)
    ensures
        trimmed_start(s).len() <= s.len(),
        trimmed(s).len() <= s.len(),
    decreases s.len(),
{
    if s.len() > 0 && is_white(s[0]) {
        lemma_trimmed_shrinks(s.drop_first());
    }
    lemma_trimmed_end_shrinks(trimmed_start(s));
}

proof fn lemma_trimmed_end_shrinks(s: Seq<char>)
    ensures
        trimmed_end(s).len() <= s.len(),
    decreases s.len(),
{
    if s.len() > 0 && is_white(s.last()) {
        lemma_trimmed_end_shrinks(s.drop_last());
    }
}

proof fn lemma_same_but_for_case(a: Seq<char>, b: Seq<char>)
    requires
        a.len() == b.len(),
        forall|i: int|
            0 <= i < a.len() ==> (#[trigger] a[i] == b[i] || ('A' <= a[i] <= 'Z' && a[i] as int
                + 32 == b[i] as int)),
    ensures
        lowered(without_trailing(a, '/')) == lowered(without_trailing(b, '/')),
    decreases a.len(),
{
    if a.len() > 0 && a.last() == '/' {
        assert(b[b.len() - 1] == a[a.len() - 1]);
        assert forall|i: int| 0 <= i < a.drop_last().len() implies (#[trigger] a.drop_last()[i]
            == b.drop_last()[i] || ('A' <= a.drop_last()[i] <= 'Z' && a.drop_last()[i] as int + 32
            == b.drop_last()[i] as int)) by {
            assert(a.drop_last()[i] == a[i]);
        }
        lemma_same_but_for_case(a.drop_last(), b.drop_last());
    } else {
        if a.len() > 0 {
            assert(a[a.len() - 1] == b[b.len() - 1] || b[b.len() - 1] as int >= 97);
        }
        assert(without_trailing(a, '/') == a);
        assert(without_trailing(b, '/') == b);
        assert forall|i: int| 0 <= i < a.len() implies lowered(a)[i] == lowered(b)[i] by {
            assert(a[i] == b[i] || ('A' <= a[i] <= 'Z' && a[i] as int + 32 == b[i] as int));
        }
        assert(lowered(a) =~= lowered(b));
    }
}

/// A registry answers with its record or with none, and a failed answer says why.
pub proof fn law_lookup_hands_on_the_answer(
    response: RegistryQueryResponse,
    r: Result<Option<RegistryNodeRecord>>,
)
    requires
        call_ensures(lookup_outcome, (response,), r),
    ensures
        r is Ok <==> response.ok,
        r matches Ok(node) ==> node == response.node,
        !response.ok ==> (response.error matches Some(text) ==> r->Err_0@
            == QlinkErrorView::Protocol("dytallix registry lookup failed: "@ + text@)),
{
}

/// A submission that answers nothing counts as taken; one that answers counts as
/// taken exactly where the answer can be read and says so.
pub proof fn law_submission_is_taken_unless_the_answer_denies_it(
    has_result: bool,
    has_ok: bool,
    decoded: Result<RegistryQueryResponse>,
    r: Result<()>,
)
    requires
        call_ensures(validate_registry_submission_response, (has_result, has_ok, decoded), r),
    ensures
        r is Ok <==> (!has_result && !has_ok) || (decoded is Ok && decoded->Ok_0.ok),
{
}

/// The hash of a transaction is the text under the first name, and under the second
/// only where there is nothing under the first.
pub proof fn law_tx_hash_goes_by_its_first_name(
    tx_hash: JsonField,
    hash: JsonField,
    r: Option<String>,
)
    requires
        call_ensures(submission_tx_hash, (tx_hash, hash), r),
    ensures
        tx_hash matches JsonField::Text(text) ==> r == Some(text),
        tx_hash is Other ==> r is None,
        tx_hash is Absent && hash is Text ==> r == Some(hash->Text_0),
        tx_hash is Absent && !(hash is Text) ==> r is None,
{
}

/// The configured wallet is taken before the active one.
pub proof fn law_configured_wallet_before_active_one(
    configured: Option<&str>,
    active: Option<&str>,
    r: Result<String>,
)
    requires
        call_ensures(select_wallet_name, (configured, active), r),
    ensures
        r is Ok <==> configured is Some || active is Some,
        configured matches Some(name) ==> r->Ok_0@ == name@,
        configured is None ==> (active matches Some(name) ==> r->Ok_0@ == name@),
{
}

/// A wallet is made only where none of its name exists and the active one was not
/// simply taken over; a name that was configured, or had to be chosen, becomes the
/// active one.
pub proof fn law_wallet_is_made_once(
    configured: Option<&str>,
    existing: &Vec<String>,
    active: Option<&str>,
    plan: EnrollmentPlan,
)
    requires
        call_ensures(plan_enrollment_wallet, (configured, existing, active), plan),
    ensures
        configured matches Some(name) ==> plan.wallet_name@ == name@ && plan.set_active,
        configured is None ==> (active matches Some(name) ==> plan.wallet_name@ == name@
            && !plan.set_active && !plan.create_wallet),
        configured is None && active is None ==> plan.wallet_name@ == "quantumlink"@
            && plan.set_active,
        plan.set_active ==> (plan.create_wallet <==> forall|i: int|
            0 <= i < existing@.len() ==> (#[trigger] existing@[i])@ != plan.wallet_name@),
{
    let names = texts(existing@);
    if names.contains(plan.wallet_name@) {
        let i = choose|i: int| 0 <= i < names.len() && names[i] == plan.wallet_name@;
        assert(existing@[i]@ == plan.wallet_name@);
    }
    assert forall|i: int|
        0 <= i < existing@.len() && (
        #[trigger] existing@[i])@ == plan.wallet_name@ implies names.contains(
        plan.wallet_name@,
    ) by {
        assert(names[i] == plan.wallet_name@);
    }
}

/// A lookup-only registry writes nothing.
pub proof fn law_lookup_only_registry_writes_nothing(
    config: DytallixRegistryLookupConfig,
    r: Result<DytallixIdentityRegistry>,
)
    requires
        call_ensures(DytallixIdentityRegistry::from_lookup_config, (config,), r),
    ensures
        r matches Ok(registry) ==> registry.write_config is None && registry.lookup_config.endpoint
            == config.endpoint && registry.lookup_config.binding_version == config.binding_version
            && registry.lookup_config.network_id == config.network_id
            && registry.lookup_config.chain_id == config.chain_id
            && registry.lookup_config.allowed_rpc_endpoints == config.allowed_rpc_endpoints,
{
}

// ---------------------------------------------------------------------------
// Stable identities
// ---------------------------------------------------------------------------

/// Sixty-four digits of lowercase hexadecimal.
pub open spec fn is_digest_text(s: Seq<char>) -> bool {
    s.len() == 64 && forall|i: int|
        0 <= i < 64 ==> ('0' <= #[trigger] s[i] <= '9' || 'a' <= s[i] <= 'f')
}

/// A stable identity keeps its rules exactly where its version is the second, its
/// peer has a name, its owner's address is good, its hashes are digests, its
/// revision and its expiry are positive and its lifetime for records is from half
/// a minute to a day.
pub proof fn law_stable_identity_keeps_its_rules(
    r: RegistryIdentityRecordV2,
    owner_error: Option<Seq<char>>,
)
    ensures
        record_refusal(r, owner_error) is None <==> {
            &&& r.schema_version == 2
            &&& trimmed(r.peer_id@).len() > 0
            &&& owner_error is None
            &&& is_digest_text(r.device_public_key_hash_hex@)
            &&& is_digest_text(r.node_signing_public_key_hash_hex@)
            &&& r.identity_revision > 0
            &&& r.authorization_expires_at != Some(0u64)
            &&& 30 <= r.max_peer_record_ttl_seconds <= 86400
            &&& (r.mesh_scope_hash_hex is None || is_digest_text(r.mesh_scope_hash_hex->0@))
            &&& (r.metadata_commitment_hex is None || is_digest_text(
                r.metadata_commitment_hex->0@,
            ))
        },
{
}

/// The digest under which an identity names a mesh.
pub open spec fn mesh_digest(mesh_id: Seq<char>) -> Seq<char> {
    hex_text(
        sha256(
            encode_utf8("QuantumLink Dytallix stable identity mesh scope v2"@).push(0)
                + encode_utf8(mesh_id),
        )@,
    )
}

/// A dialled peer is bound to a stable identity exactly where its record is
/// believed and dated, the identity keeps its rules, is active and authorized, is
/// that of the peer's key and mesh, and allows records that live so long.
pub proof fn law_dialled_peer_is_bound_to_its_identity(
    p: PeerRecord,
    r: RegistryIdentityRecordV2,
    time_unix: u64,
    owner_error: Option<Seq<char>>,
)
    ensures
        ({
            let digest = hex_text(sha256(p.body.device_public_key.json@)@);
            stable_refusal(p, Some(r), time_unix, owner_error) is None <==> {
                &&& p.body.expires_at_unix > time_unix
                &&& p.body.device_public_key.peer_id@ == p.body.peer_id@
                &&& p.signature_error is None
                &&& record_refusal(r, owner_error) is None
                &&& r.status is Active
                &&& (r.authorization_expires_at is None || r.authorization_expires_at->0
                    > time_unix)
                &&& p.body.issued_at_unix != 0
                &&& r.peer_id@ == p.body.peer_id@
                &&& r.device_public_key_hash_hex@ == digest
                &&& r.node_signing_public_key_hash_hex@ == digest
                &&& (r.mesh_scope_hash_hex is None || r.mesh_scope_hash_hex->0@ == mesh_digest(
                    p.body.mesh_id@,
                ))
                &&& p.body.issued_at_unix < p.body.expires_at_unix
                &&& p.body.expires_at_unix <= p.body.issued_at_unix
                    + r.max_peer_record_ttl_seconds
            }
        }),
        stable_refusal(p, None, time_unix, owner_error) is Some,
{
}

/// An inbound peer is bound to a stable identity exactly where its assertion
/// holds, the identity keeps its rules, is active and authorized, and is that of
/// the peer's key and mesh.
pub proof fn law_inbound_peer_is_bound_to_its_identity(
    assertion: InboundIdentityAssertion,
    r: RegistryIdentityRecordV2,
    now_unix: u64,
    owner_error: Option<Seq<char>>,
)
    ensures
        ({
            let digest = hex_text(sha256(assertion.device_public_key.json@)@);
            stable_inbound_refusal(assertion, Some(r), now_unix, owner_error) is None <==> {
                &&& assertion.verification_error is None
                &&& record_refusal(r, owner_error) is None
                &&& r.status is Active
                &&& (r.authorization_expires_at is None || r.authorization_expires_at->0
                    > now_unix)
                &&& r.peer_id@ == assertion.peer_id@
                &&& r.device_public_key_hash_hex@ == digest
                &&& r.node_signing_public_key_hash_hex@ == digest
                &&& (r.mesh_scope_hash_hex is None || r.mesh_scope_hash_hex->0@ == mesh_digest(
                    assertion.mesh_id@,
                ))
            }
        }),
        stable_inbound_refusal(assertion, None, now_unix, owner_error) is Some,
{
}

/// Why a stable identity that keeps its rules does not bind a believed and dated
/// record, in this order: it is revoked or suspended, its authorization is over, it
/// is of another device, another signing key or another mesh, the record is dated
/// wrongly or lives too long.
pub proof fn law_stable_refusals_tell_why(
    p: PeerRecord,
    r: RegistryIdentityRecordV2,
    time_unix: u64,
    owner_error: Option<Seq<char>>,
)
    requires
        p.body.expires_at_unix > time_unix,
        p.body.device_public_key.peer_id@ == p.body.peer_id@,
        p.signature_error is None,
        record_refusal(r, owner_error) is None,
    ensures
        ({
            let refusal = stable_refusal(p, Some(r), time_unix, owner_error);
            let digest = hex_text(sha256(p.body.device_public_key.json@)@);
            let expired = r.authorization_expires_at is Some && r.authorization_expires_at->0
                <= time_unix;
            let in_force = r.status is Active && !expired && p.body.issued_at_unix != 0;
            let device = r.peer_id@ == p.body.peer_id@ && r.device_public_key_hash_hex@ == digest;
            let signer = r.node_signing_public_key_hash_hex@ == digest;
            let mesh = r.mesh_scope_hash_hex is None || r.mesh_scope_hash_hex->0@ == mesh_digest(
                p.body.mesh_id@,
            );
            &&& r.status is Revoked ==> refusal == Some(StableErrorView::Revoked)
            &&& r.status is Suspended ==> refusal == Some(StableErrorView::Suspended)
            &&& r.status is Active && expired ==> refusal == Some(
                StableErrorView::AuthorizationExpired {
                    expires_at: r.authorization_expires_at->0,
                },
            )
            &&& r.status is Active && !expired && p.body.issued_at_unix == 0 ==> refusal == Some(
                StableErrorView::MissingSignedIssuedAt,
            )
            &&& in_force && !device ==> refusal == Some(StableErrorView::WrongDevice)
            &&& in_force && device && !signer ==> refusal == Some(
                StableErrorView::WrongNodeSigningKey,
            )
            &&& in_force && device && signer && !mesh ==> refusal == Some(
                StableErrorView::WrongMeshScope,
            )
            &&& in_force && device && signer && mesh && p.body.expires_at_unix
                - p.body.issued_at_unix > r.max_peer_record_ttl_seconds ==> refusal == Some(
                StableErrorView::PeerRecordTtlExceeded {
                    actual_seconds: (p.body.expires_at_unix - p.body.issued_at_unix) as u64,
                    maximum_seconds: r.max_peer_record_ttl_seconds,
                },
            )
        }),
        stable_refusal(p, None, time_unix, owner_error) == Some(StableErrorView::Missing),
{
}

/// A stable identity made of a device key holds that key's digest in both places,
/// and the terms that were asked for; it is made exactly where it keeps its rules.
pub proof fn law_stable_identity_is_made_of_the_key(
    owner_daddr: &str,
    key: &DevicePublicKey,
    status: RegistryIdentityStatusV2,
    identity_revision: u64,
    authorization_expires_at: Option<u64>,
    max_ttl: u64,
    mesh_scope: Option<&str>,
    metadata: Option<String>,
    owner_error: Option<&str>,
    made: StableIdentityV2Result<RegistryIdentityRecordV2>,
)
    requires
        call_ensures(
            RegistryIdentityRecordV2::from_device_public_key,
            (
                owner_daddr,
                key,
                status,
                identity_revision,
                authorization_expires_at,
                max_ttl,
                mesh_scope,
                metadata,
                owner_error,
            ),
            made,
        ),
    ensures
        made is Ok <==> trimmed(key.peer_id@).len() > 0 && owner_error is None
            && identity_revision > 0 && authorization_expires_at != Some(0u64) && 30 <= max_ttl
            <= 86400 && (metadata is None || is_digest_text(metadata->0@)),
        made matches Ok(r) ==> {
            let digest = hex_text(sha256(key.json@)@);
            &&& r.schema_version == 2
            &&& r.peer_id@ == key.peer_id@
            &&& r.owner_daddr@ == owner_daddr@
            &&& r.device_public_key_hash_hex@ == digest
            &&& r.node_signing_public_key_hash_hex@ == digest
            &&& r.status == status
            &&& r.identity_revision == identity_revision
            &&& r.authorization_expires_at == authorization_expires_at
            &&& r.max_peer_record_ttl_seconds == max_ttl
            &&& mesh_scope is None ==> r.mesh_scope_hash_hex is None
            &&& mesh_scope matches Some(scope) ==> (r.mesh_scope_hash_hex matches Some(hash)
                && hash@ == mesh_digest(scope@))
            &&& r.metadata_commitment_hex == metadata
        },
{
    law_digest_is_a_record_hash(key.json@);
    if let Some(scope) = mesh_scope {
        law_digest_is_a_record_hash(
            encode_utf8("QuantumLink Dytallix stable identity mesh scope v2"@).push(0u8)
                + encode_utf8(scope@),
        );
    }
}

/// A wallet authorizes only what its key owns.
pub proof fn law_wallet_owns_what_it_authorizes(
    record: &RegistryIdentityRecordV2,
    derived: &Result<String, String>,
    r: StableIdentityV2Result<()>,
)
    requires
        call_ensures(require_wallet_owner, (record, derived), r),
    ensures
        r is Ok <==> derived is Ok && derived->Ok_0@ == record.owner_daddr@,
{
}

/// A device authorizes only the identity of its own key.
pub proof fn law_device_is_the_identitys(
    record: &RegistryIdentityRecordV2,
    key: &DevicePublicKey,
    r: StableIdentityV2Result<()>,
)
    requires
        call_ensures(require_record_device, (record, key), r),
    ensures
        r is Ok <==> record.peer_id@ == key.peer_id@ && record.device_public_key_hash_hex@
            == hex_text(sha256(key.json@)@),
        r matches Err(e) ==> e@ is WrongDevice,
{
}

/// A checked wallet signature counts exactly where the check says that it is good.
pub proof fn law_wallet_check_is_obeyed(checked: Result<bool, String>, r: StableIdentityV2Result<()>)
    requires
        call_ensures(judge_wallet_check, (checked,), r),
    ensures
        r is Ok <==> checked is Ok && checked->Ok_0,
{
}

/// An authorization that a wallet gave holds for the operation and the record that
/// it gave it for, and for no other payload that the wallet would sign otherwise.
pub proof fn law_wallet_authorization_is_for_what_was_signed<
    F: Fn(&[u8]) -> Result<Vec<u8>, String>,
    D: Fn(&[u8]) -> Result<String, String>,
    C: Fn(&[u8], &[u8], &[u8]) -> Result<bool, String>,
>(
    operation: RegistryIdentityOperationV2,
    record: &RegistryIdentityRecordV2,
    other_operation: RegistryIdentityOperationV2,
    other_record: &RegistryIdentityRecordV2,
    public_key: &[u8],
    owner: &Result<String, String>,
    signer: F,
    derive_owner: D,
    check: C,
    signature_of: spec_fn(Seq<u8>) -> Seq<u8>,
    signed: StableIdentityV2Result<WalletAuthorizationV2>,
    verdict: StableIdentityV2Result<()>,
    other_verdict: StableIdentityV2Result<()>,
)
    requires
        signed is Ok,
        call_ensures(
            WalletAuthorizationV2::sign::<F>,
            (operation, record, public_key, owner, None, signer),
            signed,
        ),
        call_ensures(
            WalletAuthorizationV2::verify::<D, C>,
            (&signed->Ok_0, operation, record, None, derive_owner, check),
            verdict,
        ),
        call_ensures(
            WalletAuthorizationV2::verify::<D, C>,
            (&signed->Ok_0, other_operation, other_record, None, derive_owner, check),
            other_verdict,
        ),
        forall|payload: &[u8], s: Result<Vec<u8>, String>| #[trigger]
            call_ensures(signer, (payload,), s) ==> (s matches Ok(v) ==> v@ == signature_of(
                payload@,
            )),
        forall|key: &[u8], o: Result<String, String>|
            key@ == public_key@ && #[trigger] call_ensures(derive_owner, (key,), o) ==> o
                == *owner,
        forall|key: &[u8], payload: &[u8], s: &[u8], valid: Result<bool, String>|
            key@ == public_key@ && #[trigger] call_ensures(check, (key, payload, s), valid) ==> (
            valid matches Ok(yes) && (yes <==> s@ == signature_of(payload@))),
    ensures
        verdict is Ok,
        signature_of(encode_utf8(wallet_payload(other_operation, *other_record)))
            != signature_of(encode_utf8(wallet_payload(operation, *record)))
            ==> other_verdict is Err,
{
    law_hex_round_trip(public_key@);
    law_hex_round_trip(signature_of(encode_utf8(wallet_payload(operation, *record))));
}

/// An authorization that a device gave holds for the record that it gave it for,
/// and for no other payload that the device would sign otherwise.
pub proof fn law_device_authorization_is_for_what_was_signed<
    F: Fn(&[u8]) -> Vec<u8>,
    K: Fn(&str, &[u8]) -> DevicePublicKey,
    C: Fn(&DevicePublicKey, &[u8], &[u8]) -> bool,
>(
    operation: RegistryIdentityOperationV2,
    record: &RegistryIdentityRecordV2,
    other_record: &RegistryIdentityRecordV2,
    public_key: &DevicePublicKey,
    signer: F,
    key_of: K,
    check: C,
    signature_of: spec_fn(Seq<u8>) -> Seq<u8>,
    signed: StableIdentityV2Result<DeviceAuthorizationV2>,
    verdict: StableIdentityV2Result<()>,
    other_verdict: StableIdentityV2Result<()>,
)
    requires
        signed is Ok,
        call_ensures(
            DeviceAuthorizationV2::sign::<F>,
            (operation, record, public_key, None, signer),
            signed,
        ),
        call_ensures(
            DeviceAuthorizationV2::verify::<K, C>,
            (&signed->Ok_0, operation, record, None, key_of, check),
            verdict,
        ),
        call_ensures(
            DeviceAuthorizationV2::verify::<K, C>,
            (&signed->Ok_0, operation, other_record, None, key_of, check),
            other_verdict,
        ),
        forall|payload: &[u8], s: Vec<u8>| #[trigger]
            call_ensures(signer, (payload,), s) ==> s@ == signature_of(payload@),
        forall|algorithm: &str, bytes: &[u8], key: DevicePublicKey|
            algorithm@ == public_key.algorithm@ && bytes@ == public_key.bytes@
                && #[trigger] call_ensures(key_of, (algorithm, bytes), key) ==> key == *public_key,
        forall|payload: &[u8], s: &[u8], valid: bool| #[trigger]
            call_ensures(check, (public_key, payload, s), valid) ==> (valid <==> s@
                == signature_of(payload@)),
    ensures
        verdict is Ok,
        signature_of(encode_utf8(device_payload(*other_record))) != signature_of(
            encode_utf8(device_payload(*record)),
        ) ==> other_verdict is Err,
{
    law_hex_round_trip(public_key.bytes@);
    law_hex_round_trip(signature_of(encode_utf8(device_payload(*record))));
}

// ---------------------------------------------------------------------------
// The verdicts as they are given
// ---------------------------------------------------------------------------

/// What is said to a peer that dials in and has a record.
pub proof fn law_inbound_assertion_is_judged_by_its_record(
    assertion: &InboundIdentityAssertion,
    record: &RegistryNodeRecord,
    policy: MeshTrustPolicy,
    now_unix: u64,
    r: Result<RegistryDecision>,
)
    requires
        call_ensures(
            verify_inbound_registry_assertion,
            (assertion, Some(record), policy, now_unix),
            r,
        ),
    ensures
        ({
            let digest = hex_text(sha256(assertion.device_public_key.json@)@);
            r is Ok <==> {
                &&& record.status is Active
                &&& (record.expires_at is None || record.expires_at->0 > now_unix)
                &&& record.peer_id@ == assertion.peer_id@
                &&& record.device_public_key_hash_hex@ == digest
                &&& record.node_signing_public_key_hash_hex@ == digest
            }
        }),
        r matches Ok(decision) ==> decision is Accepted,
{
    law_inbound_peer_needs_a_fitting_active_record(*assertion, *record, policy, now_unix);
}

/// What is said to a peer that dials in and has no record.
pub proof fn law_inbound_assertion_without_a_record(
    assertion: &InboundIdentityAssertion,
    policy: MeshTrustPolicy,
    now_unix: u64,
    r: Result<RegistryDecision>,
)
    requires
        call_ensures(verify_inbound_registry_assertion, (assertion, None, policy, now_unix), r),
    ensures
        policy is PublicRequired ==> r is Err,
        policy is PrivatePreferred ==> r == Ok::<RegistryDecision, QlinkError>(
            RegistryDecision::AcceptedWithoutRegistryPrivate,
        ),
        policy is DevelopmentOptional ==> r == Ok::<RegistryDecision, QlinkError>(
            RegistryDecision::AcceptedWithoutRegistryDevelopment,
        ),
{
}

/// What is said of a peer that is dialled and has a record.
pub proof fn law_dialled_peer_is_judged_by_its_record(
    p: &PeerRecord,
    record: &RegistryNodeRecord,
    policy: MeshTrustPolicy,
    now_unix: u64,
    r: Result<RegistryDecision>,
)
    requires
        call_ensures(verify_registry_binding, (p, Some(record), policy, now_unix), r),
    ensures
        ({
            let key_digest = hex_text(sha256(p.body.device_public_key.json@)@);
            r is Ok <==> {
                &&& p.body.device_public_key.peer_id@ == p.body.peer_id@
                &&& p.body.expires_at_unix > now_unix
                &&& p.signature_error is None
                &&& record.status is Active
                &&& (record.expires_at is None || record.expires_at->0 > now_unix)
                &&& record.peer_id@ == p.body.peer_id@
                &&& record.device_public_key_hash_hex@ == key_digest
                &&& record.node_signing_public_key_hash_hex@ == key_digest
                &&& record.transport_public_key_hash_hex@ == hex_text(
                    sha256(p.body.device_certificate_der@)@,
                )
                &&& record.latest_peer_record_hash_hex@ == hex_text(p.record_hash@)
                &&& record.pqc_binding_hash_hex@ == hex_text(
                    sha256(encode_utf8(binding_payload(record.owner_daddr@, *p)))@,
                )
            }
        }),
        r matches Ok(decision) ==> decision is Accepted,
{
    law_dialled_peer_needs_a_fitting_active_record(*p, *record, policy, now_unix);
}

/// What is said of a peer that is dialled and has no record.
pub proof fn law_dialled_peer_without_a_record(
    p: &PeerRecord,
    policy: MeshTrustPolicy,
    now_unix: u64,
    r: Result<RegistryDecision>,
)
    requires
        call_ensures(verify_registry_binding, (p, None, policy, now_unix), r),
    ensures
        r is Ok <==> p.body.device_public_key.peer_id@ == p.body.peer_id@ && p.body.expires_at_unix
            > now_unix && p.signature_error is None && !(policy is PublicRequired),
        r matches Ok(decision) ==> (if policy is PrivatePreferred {
            decision is AcceptedWithoutRegistryPrivate
        } else {
            decision is AcceptedWithoutRegistryDevelopment
        }),
{
}

/// What is said of a dialled peer by its stable identity, at a given time and now.
pub proof fn law_dialled_peer_is_judged_by_its_identity(
    p: &PeerRecord,
    identity: &RegistryIdentityRecordV2,
    time_unix: u64,
    owner_error: Option<&str>,
    at: StableIdentityV2Result<StableRegistryBindingDecisionV2>,
    now: StableIdentityV2Result<StableRegistryBindingDecisionV2>,
    missing: StableIdentityV2Result<StableRegistryBindingDecisionV2>,
)
    requires
        call_ensures(
            verify_stable_registry_binding_at,
            (p, Some(identity), time_unix, owner_error),
            at,
        ),
        call_ensures(
            verify_stable_registry_binding,
            (p, Some(identity), time_unix, owner_error),
            now,
        ),
        call_ensures(verify_stable_registry_binding, (p, None, time_unix, owner_error), missing),
    ensures
        ({
            let digest = hex_text(sha256(p.body.device_public_key.json@)@);
            at is Ok <==> {
                &&& p.body.expires_at_unix > time_unix
                &&& p.body.device_public_key.peer_id@ == p.body.peer_id@
                &&& p.signature_error is None
                &&& record_refusal(
                    *identity,
                    match owner_error {
                        Some(text) => Some(text@),
                        None => None,
                    },
                ) is None
                &&& identity.status is Active
                &&& (identity.authorization_expires_at is None
                    || identity.authorization_expires_at->0 > time_unix)
                &&& p.body.issued_at_unix != 0
                &&& identity.peer_id@ == p.body.peer_id@
                &&& identity.device_public_key_hash_hex@ == digest
                &&& identity.node_signing_public_key_hash_hex@ == digest
                &&& (identity.mesh_scope_hash_hex is None || identity.mesh_scope_hash_hex->0@
                    == mesh_digest(p.body.mesh_id@))
                &&& p.body.issued_at_unix < p.body.expires_at_unix
                &&& p.body.expires_at_unix <= p.body.issued_at_unix
                    + identity.max_peer_record_ttl_seconds
            }
        }),
        now is Ok <==> at is Ok,
        missing is Err,
{
    law_dialled_peer_is_bound_to_its_identity(
        *p,
        *identity,
        time_unix,
        match owner_error {
            Some(text) => Some(text@),
            None => None,
        },
    );
}

/// What is said to an inbound peer by its stable identity.
pub proof fn law_inbound_peer_is_judged_by_its_identity(
    assertion: &InboundIdentityAssertion,
    identity: &RegistryIdentityRecordV2,
    now_unix: u64,
    owner_error: Option<&str>,
    r: StableIdentityV2Result<StableRegistryBindingDecisionV2>,
    missing: StableIdentityV2Result<StableRegistryBindingDecisionV2>,
)
    requires
        call_ensures(
            verify_stable_inbound_registry_binding,
            (assertion, Some(identity), now_unix, owner_error),
            r,
        ),
        call_ensures(
            verify_stable_inbound_registry_binding,
            (assertion, None, now_unix, owner_error),
            missing,
        ),
    ensures
        ({
            let digest = hex_text(sha256(assertion.device_public_key.json@)@);
            r is Ok <==> {
                &&& assertion.verification_error is None
                &&& record_refusal(
                    *identity,
                    match owner_error {
                        Some(text) => Some(text@),
                        None => None,
                    },
                ) is None
                &&& identity.status is Active
                &&& (identity.authorization_expires_at is None
                    || identity.authorization_expires_at->0 > now_unix)
                &&& identity.peer_id@ == assertion.peer_id@
                &&& identity.device_public_key_hash_hex@ == digest
                &&& identity.node_signing_public_key_hash_hex@ == digest
                &&& (identity.mesh_scope_hash_hex is None || identity.mesh_scope_hash_hex->0@
                    == mesh_digest(assertion.mesh_id@))
            }
        }),
        missing is Err,
{
    law_inbound_peer_is_bound_to_its_identity(
        *assertion,
        *identity,
        now_unix,
        match owner_error {
            Some(text) => Some(text@),
            None => None,
        },
    );
}

/// An identity is validated by its rules.
pub proof fn law_identity_is_validated_by_its_rules(
    identity: &RegistryIdentityRecordV2,
    owner_error: Option<&str>,
    r: StableIdentityV2Result<()>,
)
    requires
        call_ensures(RegistryIdentityRecordV2::validate, (identity, owner_error), r),
    ensures
        r is Ok <==> {
            &&& identity.schema_version == 2
            &&& trimmed(identity.peer_id@).len() > 0
            &&& owner_error is None
            &&& is_digest_text(identity.device_public_key_hash_hex@)
            &&& is_digest_text(identity.node_signing_public_key_hash_hex@)
            &&& identity.identity_revision > 0
            &&& identity.authorization_expires_at != Some(0u64)
            &&& 30 <= identity.max_peer_record_ttl_seconds <= 86400
            &&& (identity.mesh_scope_hash_hex is None || is_digest_text(
                identity.mesh_scope_hash_hex->0@,
            ))
            &&& (identity.metadata_commitment_hex is None || is_digest_text(
                identity.metadata_commitment_hex->0@,
            ))
        },
{
}

/// An identity is in force where it is active and its authorization has not run
/// out.
pub proof fn law_identity_in_force(
    identity: &RegistryIdentityRecordV2,
    time_unix: u64,
    r: StableIdentityV2Result<()>,
)
    requires
        call_ensures(require_active_and_unexpired, (identity, time_unix), r),
    ensures
        r is Ok <==> identity.status is Active && (identity.authorization_expires_at is None
            || identity.authorization_expires_at->0 > time_unix),
        identity.status is Revoked ==> r->Err_0@ is Revoked,
        identity.status is Suspended ==> r->Err_0@ is Suspended,
{
}

/// An identity is made of a peer record where the record's key is the peer's.
pub proof fn law_identity_is_made_of_its_own_key(
    owner_daddr: &str,
    p: &PeerRecord,
    status: RegistryIdentityStatusV2,
    revision: u64,
    expires: Option<u64>,
    max_ttl: u64,
    bind_mesh: bool,
    metadata: Option<String>,
    owner_error: Option<&str>,
    made: StableIdentityV2Result<RegistryIdentityRecordV2>,
)
    requires
        call_ensures(
            RegistryIdentityRecordV2::from_peer_record,
            (
                owner_daddr,
                p,
                status,
                revision,
                expires,
                max_ttl,
                bind_mesh,
                metadata,
                owner_error,
            ),
            made,
        ),
    ensures
        p.body.peer_id@ != p.body.device_public_key.peer_id@ ==> made is Err,
        made matches Ok(r) ==> {
            &&& r.peer_id@ == p.body.peer_id@
            &&& r.owner_daddr@ == owner_daddr@
            &&& r.device_public_key_hash_hex@ == hex_text(sha256(p.body.device_public_key.json@)@)
            &&& r.status == status
            &&& r.identity_revision == revision
            &&& r.authorization_expires_at == expires
            &&& r.max_peer_record_ttl_seconds == max_ttl
            &&& r.metadata_commitment_hex == metadata
            &&& r.mesh_scope_hash_hex is Some <==> bind_mesh
            &&& bind_mesh ==> r.mesh_scope_hash_hex->0@ == mesh_digest(p.body.mesh_id@)
        },
{
}

/// Both kinds of lookups hand on what the registry answered.
pub proof fn law_stable_lookup_hands_on_the_answer<T>(
    ok: bool,
    identity: Option<T>,
    error: Option<String>,
    r: Result<Option<T>>,
)
    requires
        call_ensures(stable_lookup_outcome::<T>, (ok, identity, error), r),
    ensures
        r is Ok <==> ok,
        ok ==> r == Ok::<Option<T>, QlinkError>(identity),
{
}

/// Settings for lookups are made where the contract is named well and the endpoint
/// is on the list, where there is one; blank pins are dropped and others trimmed.
pub proof fn law_lookup_settings(
    config: DytallixRegistryLookupConfig,
    network_id: Option<String>,
    chain_id: Option<String>,
    allowed: Vec<String>,
    r: Result<DytallixRegistryLookupConfig>,
)
    requires
        call_ensures(
            DytallixRegistryLookupConfig::with_network_pins,
            (config, network_id, chain_id, allowed),
            r,
        ),
    ensures
        r matches Ok(c) ==> {
            &&& c.endpoint == config.endpoint
            &&& c.contract_address == config.contract_address
            &&& c.binding_version == config.binding_version
            &&& chain_id is None ==> c.chain_id is None
            &&& chain_id is Some && trimmed(chain_id->0@).len() == 0 ==> c.chain_id is None
            &&& chain_id is Some && trimmed(chain_id->0@).len() > 0 ==> c.chain_id is Some
                && c.chain_id->0@ == trimmed(chain_id->0@)
            &&& network_id is None ==> c.network_id is None
            &&& network_id is Some && trimmed(network_id->0@).len() > 0 ==> c.network_id is Some
                && c.network_id->0@ == trimmed(network_id->0@)
        },
        (forall|i: int| 0 <= i < allowed@.len() ==> trimmed((#[trigger] allowed@[i])@).len() == 0)
            ==> r is Ok,
        (exists|i: int|
            0 <= i < allowed@.len() && trimmed((#[trigger] allowed@[i])@) == trimmed(
                config.endpoint@,
            ) && trimmed(config.endpoint@).len() > 0) ==> r is Ok,
{
    let list = texts(allowed@);
    if forall|i: int| 0 <= i < allowed@.len() ==> trimmed((#[trigger] allowed@[i])@).len() == 0 {
        assert forall|i: int| 0 <= i < list.len() implies trimmed(#[trigger] list[i]).len() == 0 by {
            assert(list[i] == allowed@[i]@);
        }
        lemma_blank_pins(list);
    }
    if exists|i: int|
        0 <= i < allowed@.len() && trimmed((#[trigger] allowed@[i])@) == trimmed(config.endpoint@)
            && trimmed(config.endpoint@).len() > 0 {
        let i = choose|i: int|
            0 <= i < allowed@.len() && trimmed((#[trigger] allowed@[i])@) == trimmed(
                config.endpoint@,
            ) && trimmed(config.endpoint@).len() > 0;
        assert(list[i] == allowed@[i]@);
        lemma_kept_pin(list, i);
        let pins = normal_pins(list);
        let k = choose|k: int| 0 <= k < pins.len() && #[trigger] pins[k] == trimmed(list[i]);
        lemma_trimmed_twice(config.endpoint@);
        assert(endpoint_pin(pins[k]) == endpoint_pin(config.endpoint@));
    }
}

proof fn lemma_blank_pins(list: Seq<Seq<char>>)
    requires
        forall|i: int| 0 <= i < list.len() ==> trimmed(#[trigger] list[i]).len() == 0,
    ensures
        normal_pins(list).len() == 0,
    decreases list.len(),
{
    if list.len() > 0 {
        assert(trimmed(list[list.len() - 1]).len() == 0);
        assert forall|i: int| 0 <= i < list.drop_last().len() implies trimmed(
            #[trigger] list.drop_last()[i],
        ).len() == 0 by {
            assert(list.drop_last()[i] == list[i]);
        }
        lemma_blank_pins(list.drop_last());
    }
}

proof fn lemma_kept_pin(list: Seq<Seq<char>>, i: int)
    requires
        0 <= i < list.len(),
        trimmed(list[i]).len() > 0,
    ensures
        exists|k: int|
            0 <= k < normal_pins(list).len() && #[trigger] normal_pins(list)[k] == trimmed(list[i]),
    decreases list.len(),
{
    let front = list.drop_last();
    let before = normal_pins(front);
    let all = normal_pins(list);
    if i < list.len() - 1 {
        lemma_kept_pin(front, i);
        let k = choose|k: int| 0 <= k < before.len() && #[trigger] before[k] == trimmed(front[i]);
        assert(all[k] == before[k]);
    } else {
        assert(all[all.len() - 1] == trimmed(list[i]));
    }
}

proof fn lemma_trimmed_twice(s: Seq<char>)
    ensures
        trimmed(trimmed(s)) == trimmed(s),
{
    lemma_trim_ends(s);
    let t = trimmed(s);
    if t.len() > 0 {
        assert(!is_white(t[0]) && !is_white(t.last()));
    }
}

proof fn lemma_trim_ends(s: Seq<char>)
    ensures
        trimmed(s).len() > 0 ==> !is_white(trimmed(s)[0]) && !is_white(trimmed(s).last()),
{
    lemma_start_is_black(s);
    lemma_end_is_black(trimmed_start(s));
}

proof fn lemma_start_is_black(s: Seq<char>)
    ensures
        trimmed_start(s).len() > 0 ==> !is_white(trimmed_start(s)[0]),
    decreases s.len(),
{
    if s.len() > 0 && is_white(s[0]) {
        lemma_start_is_black(s.drop_first());
    }
}

proof fn lemma_end_is_black(s: Seq<char>)
    ensures
        trimmed_end(s).len() > 0 ==> !is_white(trimmed_end(s).last()) && trimmed_end(s)[0] == s[0],
        trimmed_end(s).len() <= s.len(),
    decreases s.len(),
{
    if s.len() > 0 && is_white(s.last()) {
        lemma_end_is_black(s.drop_last());
    }
}

/// Every judgement by a stable identity gives the reason that there is.
pub proof fn law_stable_judgements_give_their_reason(
    p: &PeerRecord,
    assertion: &InboundIdentityAssertion,
    identity: Option<&RegistryIdentityRecordV2>,
    time_unix: u64,
    owner_error: Option<&str>,
    dialled: StableIdentityV2Result<StableRegistryBindingDecisionV2>,
    inbound: StableIdentityV2Result<StableRegistryBindingDecisionV2>,
)
    requires
        call_ensures(
            verify_stable_registry_binding_at,
            (p, identity, time_unix, owner_error),
            dialled,
        ),
        call_ensures(
            verify_stable_inbound_registry_binding,
            (assertion, identity, time_unix, owner_error),
            inbound,
        ),
    ensures
        ({
            let known = match identity {
                Some(r) => Some(*r),
                None => None,
            };
            let owner = match owner_error {
                Some(text) => Some(text@),
                None => None,
            };
            &&& dialled matches Err(e) ==> stable_refusal(*p, known, time_unix, owner) == Some(e@)
            &&& inbound matches Err(e) ==> stable_inbound_refusal(
                *assertion,
                known,
                time_unix,
                owner,
            ) == Some(e@)
            &&& identity is None && assertion.verification_error is None ==> inbound is Err
                && inbound->Err_0@ is Missing
        }),
{
}

} // verus!
