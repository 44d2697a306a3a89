//! What holds of registry records and stable identities as a whole.

use crate::discovery::{InboundIdentityAssertion, PeerRecord};
use crate::dytallix_identity::{
    MeshTrustPolicy, RegistryDecision, RegistryNodeRecord, RegistryNodeStatus, address_digits,
    binding_hash, binding_payload, binding_verdict, device_key_hash, identity_refusal,
    inbound_verdict, is_record_of, json_raw_field, json_text_field, normal_address,
    normal_identifier, sha256_text, transport_hash,
};
use crate::dytallix_identity_v2::{
    RegistryIdentityOperationV2, RegistryIdentityRecordV2, RegistryIdentityStatusV2, bound_scope,
    device_payload, identity_json, is_identity_of, is_sha256_text, operation_method,
    peer_record_refusal, record_refusal, scope_hash, stable_refusal, wallet_payload,
};
use crate::error::QlinkErrorView;
use crate::outside::sha256;
use crate::text::{
    hex_char, hex_digits, hex_text, is_hex_digit, is_white, json_char, json_chars, trimmed,
};
use vstd::prelude::*;
use vstd::string::*;
use vstd::utf8::*;

verus! {

/// A record that was made from a believed peer record is accepted for it under
/// every policy.
pub proof fn law_made_record_is_accepted(
    p: PeerRecord,
    r: RegistryNodeRecord,
    owner_daddr: Seq<char>,
    updated_at: u64,
    policy: MeshTrustPolicy,
    now_unix: u64,
)
    requires
        identity_refusal(p, now_unix) is None,
        is_record_of(r, owner_daddr, p, RegistryNodeStatus::Active, updated_at),
    ensures
        binding_verdict(p, Some(r), policy, now_unix) == Ok::<RegistryDecision, QlinkErrorView>(
            RegistryDecision::Accepted,
        ),
{
}

/// The registry is told who a peer is and nothing of where it is: endpoints,
/// routes, alias, mesh and path credentials of a peer record change neither the
/// record that is registered nor the payload that is signed, unless they change
/// the hash of the peer record.
pub proof fn law_registry_is_told_no_endpoints(
    a: PeerRecord,
    b: PeerRecord,
    r: RegistryNodeRecord,
    owner_daddr: Seq<char>,
    status: RegistryNodeStatus,
    updated_at: u64,
)
    requires
        a.body.peer_id@ == b.body.peer_id@,
        a.body.device_public_key.json@ == b.body.device_public_key.json@,
        a.body.device_certificate_der@ == b.body.device_certificate_der@,
        a.body.expires_at_unix == b.body.expires_at_unix,
        a.record_hash@ == b.record_hash@,
    ensures
        is_record_of(r, owner_daddr, a, status, updated_at) <==> is_record_of(
            r,
            owner_daddr,
            b,
            status,
            updated_at,
        ),
        binding_payload(owner_daddr, a) == binding_payload(owner_daddr, b),
{
}

/// Acceptance by the registry means that the peer record is believed, and that
/// the registry record is active, unexpired and fits it in every field.
pub proof fn law_acceptance_means_bound(
    p: PeerRecord,
    r: RegistryNodeRecord,
    policy: MeshTrustPolicy,
    now_unix: u64,
)
    ensures
        binding_verdict(p, Some(r), policy, now_unix) is Ok <==> {
            &&& p.body.device_public_key.peer_id@ == p.body.peer_id@
            &&& p.body.expires_at_unix > now_unix
            &&& p.signature_error is None
            &&& r.status == RegistryNodeStatus::Active
            &&& (r.expires_at matches Some(expires_at) ==> expires_at > now_unix)
            &&& r.peer_id@ == p.body.peer_id@
            &&& r.device_public_key_hash_hex@ == device_key_hash(p)
            &&& r.latest_peer_record_hash_hex@ == hex_text(p.record_hash@)
            &&& r.pqc_binding_hash_hex@ == binding_hash(r.owner_daddr@, p)
            &&& r.node_signing_public_key_hash_hex@ == device_key_hash(p)
            &&& r.transport_public_key_hash_hex@ == transport_hash(p)
        },
{
}

/// A public mesh fails closed: whatever is accepted there has a registry record,
/// for peers that are dialled and for peers that dial.
pub proof fn law_public_mesh_fails_closed(
    p: PeerRecord,
    assertion: InboundIdentityAssertion,
    registry_record: Option<RegistryNodeRecord>,
    now_unix: u64,
)
    ensures
        binding_verdict(p, registry_record, MeshTrustPolicy::PublicRequired, now_unix) matches Ok(
            d,
        ) ==> registry_record is Some && d == RegistryDecision::Accepted,
        inbound_verdict(
            assertion,
            registry_record,
            MeshTrustPolicy::PublicRequired,
            now_unix,
        ) matches Ok(d) ==> registry_record is Some && d == RegistryDecision::Accepted,
{
}

/// A policy never overrules the registry: a record that is revoked, suspended,
/// expired or ill fitting is refused under all policies alike.
pub proof fn law_policy_does_not_overrule_a_record(
    p: PeerRecord,
    r: RegistryNodeRecord,
    one: MeshTrustPolicy,
    other: MeshTrustPolicy,
    now_unix: u64,
)
    ensures
        binding_verdict(p, Some(r), one, now_unix) == binding_verdict(p, Some(r), other, now_unix),
{
}

proof fn lemma_no_white_kept(s: Seq<char>)
    requires
        s.len() > 0,
        !is_white(s[0]),
        !is_white(s.last()),
    ensures
        trimmed(s) == s,
{
}

/// A contract address in its normal form is its own normal form.
pub proof fn law_normal_address_is_stable(raw: Seq<char>)
    ensures
        normal_address(raw) matches Ok(a) ==> normal_address(a) == Ok::<Seq<char>, QlinkErrorView>(
            a,
        ) && normal_identifier(a) == Ok::<Seq<char>, QlinkErrorView>(a),
{
    if let Ok(a) = normal_address(raw) {
        reveal_strlit("0x");
        reveal_strlit("quantumlink-node-registry");
        let digits = address_digits(raw);
        assert(a[0] == '0');
        assert(a.last() == digits[39]);
        assert(is_hex_digit(digits[39]));
        lemma_no_white_kept(a);
        assert(a.subrange(0, 2) =~= "0x"@);
        assert(a.subrange(2, a.len() as int) =~= digits);
    }
}

/// A contract for lookups in its normal form is its own normal form.
pub proof fn law_normal_identifier_is_stable(raw: Seq<char>)
    ensures
        normal_identifier(raw) matches Ok(a) ==> normal_identifier(a) == Ok::<
            Seq<char>,
            QlinkErrorView,
        >(a),
{
    if trimmed(raw) == "quantumlink-node-registry"@ {
        reveal_strlit("quantumlink-node-registry");
        lemma_no_white_kept("quantumlink-node-registry"@);
    } else {
        law_normal_address_is_stable(trimmed(raw));
    }
}

// ---------------------------------------------------------------------------
// Payloads say what they are about
// ---------------------------------------------------------------------------

/// No JSON form of a character starts another one.
proof fn lemma_json_char_prefix_free(a: char, b: char, x: Seq<char>, y: Seq<char>)
    requires
        json_char(a) + x == json_char(b) + y,
    ensures
        a == b,
        x == y,
{
    let l = json_char(a) + x;
    let r = json_char(b) + y;
    lemma_hex_digits_two(a as nat);
    lemma_hex_digits_two(b as nat);
    assert(l[0] == r[0]);
    assert(l[0] == json_char(a)[0]);
    assert(r[0] == json_char(b)[0]);
    if json_char(a).len() > 1 && json_char(b).len() > 1 {
        assert(l[1] == json_char(a)[1]);
        assert(r[1] == json_char(b)[1]);
        if json_char(a).len() == 6 && json_char(b).len() == 6 {
            assert(l[4] == json_char(a)[4]);
            assert(r[4] == json_char(b)[4]);
            assert(l[5] == json_char(a)[5]);
            assert(r[5] == json_char(b)[5]);
        }
    }
    assert(a == b);
    let k = json_char(a).len() as int;
    assert(l.subrange(k, l.len() as int) =~= x);
    assert(r.subrange(k, r.len() as int) =~= y);
}

proof fn lemma_hex_digits_two(n: nat)
    ensures
        hex_digits(n, 2).len() == 2,
        hex_digits(n, 2)[0] == hex_char(((n / 16) % 16) as int),
        hex_digits(n, 2)[1] == hex_char((n % 16) as int),
{
    reveal_with_fuel(hex_digits, 3);
}

/// The JSON form of a text starts with that of its first character.
proof fn lemma_json_chars_front(s: Seq<char>)
    requires
        s.len() > 0,
    ensures
        json_chars(s) == json_char(s[0]) + json_chars(s.drop_first()),
    decreases s.len(),
{
    let rest = s.drop_first();
    if s.len() == 1 {
        assert(s.drop_last() =~= Seq::empty());
        assert(rest =~= Seq::empty());
        assert(json_chars(s.drop_last()) =~= Seq::empty());
        assert(json_chars(rest) =~= Seq::empty());
        assert(json_chars(s) =~= json_char(s[0]) + json_chars(rest));
    } else {
        lemma_json_chars_front(s.drop_last());
        assert(s.drop_last().drop_first() =~= rest.drop_last());
        assert(rest.last() == s.last());
        assert(json_chars(s) =~= json_char(s[0]) + json_chars(rest));
    }
}

/// A JSON character is never a bare quote.
proof fn lemma_json_char_no_quote(c: char)
    ensures
        json_char(c).len() > 0,
        json_char(c)[0] != '"',
{
}

/// A JSON string says where it ends: two that start the same text are the same.
pub proof fn lemma_json_quoted_prefix_free(a: Seq<char>, b: Seq<char>, x: Seq<char>, y: Seq<char>)
    requires
        json_chars(a) + seq!['"'] + x == json_chars(b) + seq!['"'] + y,
    ensures
        a == b,
        x == y,
    decreases a.len() + b.len(),
{
    let l = json_chars(a) + seq!['"'] + x;
    let r = json_chars(b) + seq!['"'] + y;
    if a.len() == 0 && b.len() == 0 {
        assert(a =~= b);
        assert(l.subrange(1, l.len() as int) =~= x);
        assert(r.subrange(1, r.len() as int) =~= y);
    } else if a.len() == 0 {
        lemma_json_chars_front(b);
        lemma_json_char_no_quote(b[0]);
        assert(l[0] == '"');
        assert(r[0] == json_char(b[0])[0]);
    } else if b.len() == 0 {
        lemma_json_chars_front(a);
        lemma_json_char_no_quote(a[0]);
        assert(r[0] == '"');
        assert(l[0] == json_char(a[0])[0]);
    } else {
        lemma_json_chars_front(a);
        lemma_json_chars_front(b);
        let la = json_chars(a.drop_first()) + seq!['"'] + x;
        let lb = json_chars(b.drop_first()) + seq!['"'] + y;
        assert(l =~= json_char(a[0]) + la);
        assert(r =~= json_char(b[0]) + lb);
        lemma_json_char_prefix_free(a[0], b[0], la, lb);
        lemma_json_quoted_prefix_free(a.drop_first(), b.drop_first(), x, y);
        assert(a =~= seq![a[0]] + a.drop_first());
        assert(b =~= seq![b[0]] + b.drop_first());
    }
}

/// A text field says what it holds and where it ends.
proof fn lemma_text_field_prefix_free(
    name: Seq<char>,
    a: Seq<char>,
    b: Seq<char>,
    x: Seq<char>,
    y: Seq<char>,
)
    requires
        json_text_field(name, a) + x == json_text_field(name, b) + y,
    ensures
        a == b,
        x == y,
{
    let head = ",\""@ + name + "\":"@ + seq!['"'];
    let l = json_text_field(name, a) + x;
    let r = json_text_field(name, b) + y;
    let la = json_chars(a) + seq!['"'] + x;
    let lb = json_chars(b) + seq!['"'] + y;
    assert(l =~= head + la);
    assert(r =~= head + lb);
    let k = head.len() as int;
    assert(l.subrange(k, l.len() as int) =~= la);
    assert(r.subrange(k, r.len() as int) =~= lb);
    lemma_json_quoted_prefix_free(a, b, x, y);
}

/// Two texts with the same head and the same whole have the same rest.
proof fn lemma_same_head(head: Seq<char>, x: Seq<char>, y: Seq<char>)
    requires
        head + x == head + y,
    ensures
        x == y,
{
    let k = head.len() as int;
    assert((head + x).subrange(k, (head + x).len() as int) =~= x);
    assert((head + y).subrange(k, (head + y).len() as int) =~= y);
}

/// Eight texts in a row, read from the front.
proof fn lemma_regroup(
    a: Seq<char>,
    b: Seq<char>,
    c: Seq<char>,
    d: Seq<char>,
    e: Seq<char>,
    f: Seq<char>,
    g: Seq<char>,
    h: Seq<char>,
)
    ensures
        a + b + c + d + e + f + g + h == a + (b + (c + (d + e + f + g + h))),
{
    assert(a + b + c + d + e + f + g + h =~= a + (b + (c + (d + e + f + g + h))));
}

/// A binding payload as its head, the owner, the peer and the rest.
proof fn lemma_binding_split(owner_daddr: Seq<char>, p: PeerRecord)
    ensures
        binding_payload(owner_daddr, p)
            == "{\"contract\":\"quantumlink-node-registry\",\"version\":1"@ + (json_text_field(
            "owner_daddr"@,
            owner_daddr,
        ) + (json_text_field("peer_id"@, p.body.peer_id@) + binding_tail(p))),
{
    lemma_regroup(
        "{\"contract\":\"quantumlink-node-registry\",\"version\":1"@,
        json_text_field("owner_daddr"@, owner_daddr),
        json_text_field("peer_id"@, p.body.peer_id@),
        json_text_field("device_public_key_hash_hex"@, device_key_hash(p)),
        json_text_field("node_signing_public_key_hash_hex"@, device_key_hash(p)),
        json_text_field("transport_public_key_hash_hex"@, transport_hash(p)),
        json_text_field("latest_peer_record_hash_hex"@, hex_text(p.record_hash@)),
        "}"@,
    );
}

/// A binding payload names its owner and its peer: payloads of different owners
/// or peers differ, in text and in bytes.
pub proof fn law_binding_payload_names_owner_and_peer(
    one: Seq<char>,
    other: Seq<char>,
    p: PeerRecord,
    q: PeerRecord,
)
    requires
        encode_utf8(binding_payload(one, p)) == encode_utf8(binding_payload(other, q)),
    ensures
        one == other,
        p.body.peer_id@ == q.body.peer_id@,
{
    encode_utf8_decode_utf8(binding_payload(one, p));
    encode_utf8_decode_utf8(binding_payload(other, q));
    let head = "{\"contract\":\"quantumlink-node-registry\",\"version\":1"@;
    let tail_p = binding_tail(p);
    let tail_q = binding_tail(q);
    let peer_p = json_text_field("peer_id"@, p.body.peer_id@) + tail_p;
    let peer_q = json_text_field("peer_id"@, q.body.peer_id@) + tail_q;
    let l = binding_payload(one, p);
    let r = binding_payload(other, q);
    lemma_binding_split(one, p);
    lemma_binding_split(other, q);
    lemma_same_head(
        head,
        json_text_field("owner_daddr"@, one) + peer_p,
        json_text_field("owner_daddr"@, other) + peer_q,
    );
    lemma_text_field_prefix_free("owner_daddr"@, one, other, peer_p, peer_q);
    lemma_text_field_prefix_free("peer_id"@, p.body.peer_id@, q.body.peer_id@, tail_p, tail_q);
}

/// What follows the peer in a binding payload.
spec fn binding_tail(p: PeerRecord) -> Seq<char> {
    json_text_field("device_public_key_hash_hex"@, device_key_hash(p)) + json_text_field(
        "node_signing_public_key_hash_hex"@,
        device_key_hash(p),
    ) + json_text_field("transport_public_key_hash_hex"@, transport_hash(p)) + json_text_field(
        "latest_peer_record_hash_hex"@,
        hex_text(p.record_hash@),
    ) + "}"@
}

proof fn lemma_regroup_four(a: Seq<char>, b: Seq<char>, c: Seq<char>, d: Seq<char>)
    ensures
        a + b + c + d == a + (b + (c + d)),
{
    assert(a + b + c + d =~= a + (b + (c + d)));
}

/// A wallet's authorization of a registration is none of an update.
pub proof fn law_wallet_payload_names_operation(r: RegistryIdentityRecordV2)
    ensures
        encode_utf8(wallet_payload(RegistryIdentityOperationV2::Register, r)) != encode_utf8(
            wallet_payload(RegistryIdentityOperationV2::Update, r),
        ),
{
    let one = wallet_payload(RegistryIdentityOperationV2::Register, r);
    let other = wallet_payload(RegistryIdentityOperationV2::Update, r);
    encode_utf8_decode_utf8(one);
    encode_utf8_decode_utf8(other);
    if one == other {
        let head = "{\"contract\":\"quantumlink-node-registry-v2\",\"schema_version\":2"@;
        let tail = json_raw_field("record"@, identity_json(r)) + "}"@;
        let a = operation_method(RegistryIdentityOperationV2::Register);
        let b = operation_method(RegistryIdentityOperationV2::Update);
        let json = json_raw_field("record"@, identity_json(r));
        lemma_regroup_four(head, json_text_field("operation"@, a), json, "}"@);
        lemma_regroup_four(head, json_text_field("operation"@, b), json, "}"@);
        lemma_same_head(
            head,
            json_text_field("operation"@, a) + tail,
            json_text_field("operation"@, b) + tail,
        );
        lemma_text_field_prefix_free("operation"@, a, b, tail, tail);
        reveal_strlit("register_identity");
        reveal_strlit("update_identity");
        assert(a[0] == 'r');
        assert(b[0] == 'u');
    }
}

/// A wallet's payload is never a device's payload.
pub proof fn law_wallet_and_device_payloads_differ(
    operation: RegistryIdentityOperationV2,
    r: RegistryIdentityRecordV2,
    s: RegistryIdentityRecordV2,
)
    ensures
        encode_utf8(wallet_payload(operation, r)) != encode_utf8(device_payload(s)),
{
    let one = wallet_payload(operation, r);
    let other = device_payload(s);
    encode_utf8_decode_utf8(one);
    encode_utf8_decode_utf8(other);
    reveal_strlit(",\"");
    reveal_strlit("operation");
    reveal_strlit("purpose");
    let head = "{\"contract\":\"quantumlink-node-registry-v2\",\"schema_version\":2"@;
    let k = head.len() as int;
    assert(one[k + 2] == 'o');
    assert(other[k + 2] == 'p');
}

// ---------------------------------------------------------------------------
// Stable identities
// ---------------------------------------------------------------------------

/// A digest in hexadecimal passes as one in a record.
pub proof fn law_digest_is_a_record_hash(bytes: Seq<u8>)
    ensures
        is_sha256_text(sha256_text(bytes)),
{
    let d = sha256(bytes)@;
    let s = sha256_text(bytes);
    assert(s.len() == 64);
    assert forall|i: int| 0 <= i < s.len() implies ('0' <= #[trigger] s[i] <= '9' || 'a' <= s[i]
        <= 'f') by {
        let b = d[i / 2] as int;
        assert(0 <= b / 16 < 16 && 0 <= b % 16 < 16);
    }
}

/// An identity that was made for a believed peer record, and that keeps its rules
/// and is in force, binds the record, as long as the record's lifetime is
/// positive and within the identity's maximum.
pub proof fn law_made_identity_is_accepted(
    p: PeerRecord,
    r: RegistryIdentityRecordV2,
    owner_daddr: Seq<char>,
    identity_revision: u64,
    authorization_expires_at: Option<u64>,
    max_ttl: u64,
    bind_mesh_scope: bool,
    metadata_commitment_hex: Option<String>,
    time_unix: u64,
)
    requires
        peer_record_refusal(p, time_unix) is None,
        is_identity_of(
            r,
            owner_daddr,
            p.body.device_public_key,
            RegistryIdentityStatusV2::Active,
            identity_revision,
            authorization_expires_at,
            max_ttl,
            bound_scope(bind_mesh_scope, p.body.mesh_id@),
            metadata_commitment_hex,
        ),
        record_refusal(r, None) is None,
        authorization_expires_at matches Some(expires_at) ==> expires_at > time_unix,
        0 < p.body.issued_at_unix < p.body.expires_at_unix,
        p.body.expires_at_unix - p.body.issued_at_unix <= max_ttl,
    ensures
        stable_refusal(p, Some(r), time_unix, None) is None,
{
}

/// An identity outlives the peer records of its device: made from any of them, it
/// is the same, so its JSON and its payloads are too.
pub proof fn law_identity_is_stable_across_renewals(
    p: PeerRecord,
    q: PeerRecord,
    made_of_p: RegistryIdentityRecordV2,
    made_of_q: RegistryIdentityRecordV2,
    owner_daddr: Seq<char>,
    status: RegistryIdentityStatusV2,
    identity_revision: u64,
    authorization_expires_at: Option<u64>,
    max_ttl: u64,
    bind_mesh_scope: bool,
    metadata_commitment_hex: Option<String>,
    operation: RegistryIdentityOperationV2,
)
    requires
        p.body.device_public_key.peer_id@ == q.body.device_public_key.peer_id@,
        p.body.device_public_key.json@ == q.body.device_public_key.json@,
        p.body.mesh_id@ == q.body.mesh_id@,
        is_identity_of(
            made_of_p,
            owner_daddr,
            p.body.device_public_key,
            status,
            identity_revision,
            authorization_expires_at,
            max_ttl,
            bound_scope(bind_mesh_scope, p.body.mesh_id@),
            metadata_commitment_hex,
        ),
        is_identity_of(
            made_of_q,
            owner_daddr,
            q.body.device_public_key,
            status,
            identity_revision,
            authorization_expires_at,
            max_ttl,
            bound_scope(bind_mesh_scope, q.body.mesh_id@),
            metadata_commitment_hex,
        ),
    ensures
        identity_json(made_of_p) == identity_json(made_of_q),
        wallet_payload(operation, made_of_p) == wallet_payload(operation, made_of_q),
        device_payload(made_of_p) == device_payload(made_of_q),
{
}

/// A revoked, suspended or expired identity, and one of another device or mesh,
/// binds nobody.
pub proof fn law_acceptance_means_stable_binding(
    p: PeerRecord,
    r: Option<RegistryIdentityRecordV2>,
    time_unix: u64,
    owner_error: Option<Seq<char>>,
)
    ensures
        stable_refusal(p, r, time_unix, owner_error) is None ==> {
            &&& r is Some
            &&& r->0.status == RegistryIdentityStatusV2::Active
            &&& (r->0.authorization_expires_at matches Some(expires_at) ==> expires_at > time_unix)
            &&& r->0.peer_id@ == p.body.peer_id@
            &&& r->0.device_public_key_hash_hex@ == sha256_text(p.body.device_public_key.json@)
            &&& r->0.node_signing_public_key_hash_hex@ == sha256_text(
                p.body.device_public_key.json@,
            )
            &&& (r->0.mesh_scope_hash_hex matches Some(hash) ==> hash@ == scope_hash(
                p.body.mesh_id@,
            ))
            &&& p.signature_error is None
            &&& p.body.expires_at_unix > time_unix
            &&& 0 < p.body.expires_at_unix - p.body.issued_at_unix
                <= r->0.max_peer_record_ttl_seconds
        },
{
}

} // verus!
