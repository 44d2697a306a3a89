//! What holds of every check of a path: what is asked, who is answered, and which
//! answers count.

use crate::bytes::{be_bytes, be_value, lemma_be_bytes_len};
use crate::error::{QlinkErrorView, Result};
use crate::flow_laws::{lemma_four_bytes, lemma_two_bytes};
use crate::ice::{
    IceCheckRequest, IceCheckResult, IceCredentials, Located, StunAttributeView, StunClass,
    StunMessageView, accept_ice_response, address_mask, answer_ice_check, attribute_type, body_wire,
    check_message, check_outcome, class_type, decoded, encode_ice_check, encode_xor_mapped_address,
    encoded, fingerprint_of, first_error_code, first_mapped_address, first_tag, first_username,
    framed, header_wire, integrity_tag, last_fingerprint, last_integrity, padding, payload,
    responder_reply, signed_body, walked, xor16, zeros,
};
use crate::net::{IpAddr, SocketAddr};
use crate::outside::{crc32, hmac_sha1};
use crate::text::{before_first, decimal, first_index};
use crate::time::Duration;
use vstd::prelude::*;
use vstd::string::*;
use vstd::utf8::*;

verus! {

pub(crate) proof fn lemma_two_be_bytes(n: nat)
    requires
        n < 0x1_0000,
    ensures
        be_bytes(n, 2) == seq![(n / 256) as u8, (n % 256) as u8],
{
    reveal_with_fuel(be_bytes, 3);
    assert(be_bytes(n, 2) =~= seq![(n / 256 % 256) as u8, (n % 256) as u8]);
}

pub(crate) proof fn lemma_four_be_bytes(n: nat)
    requires
        n < 0x1_0000_0000,
    ensures
        be_bytes(n, 4) == seq![
            (n / 0x100_0000) as u8,
            (n / 0x1_0000 % 256) as u8,
            (n / 0x100 % 256) as u8,
            (n % 256) as u8,
        ],
{
    reveal_with_fuel(be_bytes, 5);
    assert(n / 256 / 256 / 256 == n / 0x100_0000);
    assert(n / 256 / 256 == n / 0x1_0000);
    assert(be_bytes(n, 4) =~= seq![
        (n / 0x100_0000 % 256) as u8,
        (n / 0x1_0000 % 256) as u8,
        (n / 0x100 % 256) as u8,
        (n % 256) as u8,
    ]);
}

/// A message on the wire starts with its type, the length of what follows the
/// header, the cookie and the transaction.
pub proof fn law_message_header_layout(m: StunMessageView, password: Option<Seq<char>>)
    requires
        m.transaction_id.len() == 12,
        encoded(m, password).len() < 0x1_0000,
    ensures
        ({
            let wire = encoded(m, password);
            &&& wire.len() >= 28
            &&& m.class is Request ==> wire[0] == 0 && wire[1] == 0x01
            &&& m.class is Indication ==> wire[0] == 0 && wire[1] == 0x11
            &&& m.class is SuccessResponse ==> wire[0] == 1 && wire[1] == 0x01
            &&& m.class is ErrorResponse ==> wire[0] == 1 && wire[1] == 0x11
            &&& wire[2] as int * 256 + wire[3] as int == wire.len() - 20
            &&& wire[4] == 0x21 && wire[5] == 0x12 && wire[6] == 0xA4 && wire[7] == 0x42
            &&& wire.subrange(8, 20) == m.transaction_id
            &&& wire.subrange(wire.len() - 8, wire.len() - 4) == seq![0x80u8, 0x28u8, 0u8, 4u8]
        }),
{
    let wire = encoded(m, password);
    let signed = signed_body(
        m.class,
        m.transaction_id,
        body_wire(payload(m.attributes), m.transaction_id),
        password,
    );
    let n = signed.len() + 8;
    lemma_two_be_bytes(class_type(m.class) as nat);
    lemma_four_be_bytes(0x2112_A442);
    lemma_be_bytes_len(n, 2);
    let head = header_wire(m.class, n, m.transaction_id);
    assert(head.len() == 20);
    lemma_be_bytes_len(fingerprint_of(m.class, m.transaction_id, signed) as nat, 4);
    lemma_two_be_bytes(0x8028);
    lemma_two_be_bytes(4);
    assert(zeros(padding(4)) =~= Seq::<u8>::empty());
    let value = be_bytes(fingerprint_of(m.class, m.transaction_id, signed) as nat, 4);
    let tail = framed(0x8028u16, value);
    assert(tail =~= seq![0x80u8, 0x28u8, 0u8, 4u8] + value);
    assert(wire.len() == 20 + n);
    lemma_two_be_bytes(n);
    assert(wire[2] == (n / 256) as u8);
    assert(wire[3] == (n % 256) as u8);
    assert(wire.subrange(8, 20) =~= m.transaction_id);
    assert(wire =~= head + signed + tail);
    assert(wire.subrange(wire.len() - 8, wire.len() - 4) =~= seq![0x80u8, 0x28u8, 0u8, 4u8]);
}

/// Attributes are known by their codes.
pub proof fn law_attribute_codes(
    text: Seq<char>,
    bytes: Seq<u8>,
    small: u32,
    big: u64,
    addr: SocketAddr,
    code: u16,
)
    ensures
        attribute_type(StunAttributeView::Username(text)) == 0x0006,
        attribute_type(StunAttributeView::MessageIntegrity(bytes)) == 0x0008,
        attribute_type(StunAttributeView::ErrorCode { code, reason: text }) == 0x0009,
        attribute_type(StunAttributeView::XorMappedAddress(addr)) == 0x0020,
        attribute_type(StunAttributeView::Priority(small)) == 0x0024,
        attribute_type(StunAttributeView::UseCandidate) == 0x0025,
        attribute_type(StunAttributeView::Fingerprint(small)) == 0x8028,
        attribute_type(StunAttributeView::IceControlled(big)) == 0x8029,
        attribute_type(StunAttributeView::IceControlling(big)) == 0x802A,
        attribute_type(StunAttributeView::Unknown { type_code: code, value: bytes }) == code,
{
}

/// A check asks under both names, the other side's first, with the priority and
/// the tiebreaker that were given, and nominates where it is to.
pub proof fn law_check_asks_under_both_names(request: IceCheckRequest, transaction_id: Seq<u8>)
    ensures
        ({
            let m = check_message(request, transaction_id);
            &&& m.class is Request
            &&& m.transaction_id == transaction_id
            &&& m.attributes.contains(
                StunAttributeView::Username(
                    request.remote_credentials.ufrag@ + ":"@ + request.local_ufrag@,
                ),
            )
            &&& m.attributes.contains(StunAttributeView::Priority(request.local_priority))
            &&& m.attributes.contains(
                StunAttributeView::IceControlling(request.controlling_tiebreaker),
            )
            &&& m.attributes.contains(StunAttributeView::UseCandidate) <==> request.use_candidate
        }),
{
    let m = check_message(request, transaction_id);
    assert(m.attributes[0] == StunAttributeView::Username(
        request.remote_credentials.ufrag@ + ":"@ + request.local_ufrag@,
    ));
    assert(m.attributes[1] == StunAttributeView::Priority(request.local_priority));
    assert(m.attributes[2] == StunAttributeView::IceControlling(request.controlling_tiebreaker));
    if request.use_candidate {
        assert(m.attributes[3] == StunAttributeView::UseCandidate);
    }
}

/// An answer counts only where it is authenticated by the other side's password,
/// belongs to the transaction and reports success; then its first mapped address
/// is the result.
pub proof fn law_only_authentic_success_counts(
    datagram: &[u8],
    request: &IceCheckRequest,
    transaction_id: [u8; 12],
    round_trip: Duration,
    r: Result<IceCheckResult>,
)
    requires
        call_ensures(accept_ice_response, (datagram, request, transaction_id, round_trip), r),
    ensures
        ({
            let read = decoded(datagram@, Some(request.remote_credentials.password@));
            &&& r is Ok <==> read is Ok && read->Ok_0.transaction_id == transaction_id@
                && read->Ok_0.class is SuccessResponse
            &&& r matches Ok(found) ==> found.round_trip == round_trip && {
                let attributes = read->Ok_0.attributes;
                ||| {
                    &&& found.mapped_address is None
                    &&& forall|i: int|
                        0 <= i < attributes.len() ==> !(#[trigger] attributes[i] is XorMappedAddress)
                }
                ||| exists|i: int|
                    {
                        &&& 0 <= i < attributes.len()
                        &&& #[trigger] attributes[i] == StunAttributeView::XorMappedAddress(
                            found.mapped_address->0,
                        )
                        &&& found.mapped_address is Some
                        &&& forall|j: int|
                            0 <= j < i ==> !(#[trigger] attributes[j] is XorMappedAddress)
                    }
            }
            &&& read matches Err(why) ==> r->Err_0@ == why
        }),
{
    let read = decoded(datagram@, Some(request.remote_credentials.password@));
    if r is Ok {
        lemma_first_mapped(read->Ok_0.attributes);
    }
}

proof fn lemma_first_mapped(attributes: Seq<StunAttributeView>)
    ensures
        first_mapped_address(attributes) is None ==> forall|i: int|
            0 <= i < attributes.len() ==> !(#[trigger] attributes[i] is XorMappedAddress),
        first_mapped_address(attributes) matches Some(addr) ==> exists|i: int|
            {
                &&& 0 <= i < attributes.len()
                &&& #[trigger] attributes[i] == StunAttributeView::XorMappedAddress(addr)
                &&& forall|j: int| 0 <= j < i ==> !(#[trigger] attributes[j] is XorMappedAddress)
            },
    decreases attributes.len(),
{
    if attributes.len() > 0 && !(attributes[0] is XorMappedAddress) {
        let rest = attributes.drop_first();
        lemma_first_mapped(rest);
        if let Some(addr) = first_mapped_address(rest) {
            let i = choose|i: int|
                {
                    &&& 0 <= i < rest.len()
                    &&& #[trigger] rest[i] == StunAttributeView::XorMappedAddress(addr)
                    &&& forall|j: int| 0 <= j < i ==> !(#[trigger] rest[j] is XorMappedAddress)
                };
            assert(attributes[i + 1] == StunAttributeView::XorMappedAddress(addr));
            assert forall|j: int| 0 <= j < i + 1 implies !(
            #[trigger] attributes[j] is XorMappedAddress) by {
                if j > 0 {
                    assert(rest[j - 1] == attributes[j]);
                }
            }
        } else {
            assert forall|i: int| 0 <= i < attributes.len() implies !(
            #[trigger] attributes[i] is XorMappedAddress) by {
                if i > 0 {
                    assert(rest[i - 1] == attributes[i]);
                }
            }
        }
    } else if attributes.len() > 0 {
        assert(attributes[0] is XorMappedAddress);
    }
}

/// A username is meant for this side where this side's name comes before the
/// first colon, or is all of it.
pub open spec fn is_meant_for(name: Seq<char>, ufrag: Seq<char>) -> bool {
    &&& name.len() >= ufrag.len()
    &&& name.subrange(0, ufrag.len() as int) == ufrag
    &&& forall|i: int| 0 <= i < ufrag.len() ==> #[trigger] ufrag[i] != ':'
    &&& name.len() == ufrag.len() || name[ufrag.len() as int] == ':'
}

proof fn lemma_meant_for(name: Seq<char>, ufrag: Seq<char>)
    ensures
        before_first(name, ':') == ufrag <==> is_meant_for(name, ufrag),
{
    lemma_first_colon(name);
    let k = first_index(name, ':');
    let front = before_first(name, ':');
    if front == ufrag {
        assert(k == ufrag.len());
        assert forall|i: int| 0 <= i < ufrag.len() implies #[trigger] ufrag[i] != ':' by {
            assert(front[i] == name[i]);
        }
    }
    if is_meant_for(name, ufrag) {
        let n = ufrag.len() as int;
        assert forall|i: int| 0 <= i < n implies name[i] != ':' by {
            assert(name.subrange(0, n)[i] == name[i]);
            assert(ufrag[i] != ':');
        }
        if k < n {
            assert(name[k] == ':');
        }
        assert(k == n);
        assert(front =~= ufrag);
    }
}

proof fn lemma_first_colon(s: Seq<char>)
    ensures
        0 <= first_index(s, ':') <= s.len(),
        first_index(s, ':') < s.len() ==> s[first_index(s, ':')] == ':',
        forall|j: int| 0 <= j < first_index(s, ':') ==> s[j] != ':',
    decreases s.len(),
{
    if s.len() > 0 && s[0] != ':' {
        let rest = s.drop_first();
        lemma_first_colon(rest);
        assert forall|j: int| 0 <= j < first_index(s, ':') implies s[j] != ':' by {
            if j > 0 {
                assert(rest[j - 1] == s[j]);
            }
        }
    }
}

/// Requests alone are answered. A request without a name is answered with code
/// 400, one for another name or with the wrong password with code 401, and one
/// that is good with the address that it came from. Every answer belongs to the
/// request's transaction and is authenticated by this side's password.
pub proof fn law_requests_are_answered_by_their_merit(
    datagram: Seq<u8>,
    peer: SocketAddr,
    ufrag: Seq<char>,
    password: Seq<char>,
)
    ensures
        ({
            let read = decoded(datagram, None);
            let reply = responder_reply(datagram, peer, ufrag, password);
            let name = first_username(read->Ok_0.attributes);
            let request = read is Ok && read->Ok_0.class is Request;
            let answered = |class: StunClass, attribute: StunAttributeView|
                reply == Some(
                    encoded(
                        StunMessageView {
                            class,
                            transaction_id: read->Ok_0.transaction_id,
                            attributes: seq![attribute],
                        },
                        Some(password),
                    ),
                );
            &&& reply is Some <==> request
            &&& request && name is None ==> answered(
                StunClass::ErrorResponse,
                StunAttributeView::ErrorCode { code: 400, reason: "no USERNAME"@ },
            )
            &&& request && name is Some && !is_meant_for(name->0, ufrag) ==> answered(
                StunClass::ErrorResponse,
                StunAttributeView::ErrorCode { code: 401, reason: "bad ufrag"@ },
            )
            &&& request && name is Some && is_meant_for(name->0, ufrag) && decoded(
                datagram,
                Some(password),
            ) is Err ==> answered(
                StunClass::ErrorResponse,
                StunAttributeView::ErrorCode {
                    code: 401,
                    reason: "MESSAGE-INTEGRITY verification failed"@,
                },
            )
            &&& request && name is Some && is_meant_for(name->0, ufrag) && decoded(
                datagram,
                Some(password),
            ) is Ok ==> answered(
                StunClass::SuccessResponse,
                StunAttributeView::XorMappedAddress(peer),
            )
        }),
{
    let read = decoded(datagram, None);
    let name = first_username(read->Ok_0.attributes);
    if name is Some {
        lemma_meant_for(name->0, ufrag);
    }
}

/// The name of a request is the first that it carries.
pub proof fn law_first_name_counts(attributes: Seq<StunAttributeView>, k: int, name: Seq<char>)
    requires
        0 <= k < attributes.len(),
        attributes[k] == StunAttributeView::Username(name),
        forall|i: int| 0 <= i < k ==> !(#[trigger] attributes[i] is Username),
    ensures
        first_username(attributes) == Some(name),
    decreases k,
{
    if k > 0 {
        assert(!(attributes[0] is Username));
        let rest = attributes.drop_first();
        assert forall|i: int| 0 <= i < k - 1 implies !(#[trigger] rest[i] is Username) by {
            assert(rest[i] == attributes[i + 1]);
        }
        law_first_name_counts(rest, k - 1, name);
    }
}

/// A message without a name has none.
pub proof fn law_no_name_is_found_where_none_is(attributes: Seq<StunAttributeView>)
    requires
        forall|i: int| 0 <= i < attributes.len() ==> !(#[trigger] attributes[i] is Username),
    ensures
        first_username(attributes) is None,
    decreases attributes.len(),
{
    if attributes.len() > 0 {
        assert(!(attributes[0] is Username));
        let rest = attributes.drop_first();
        assert forall|i: int| 0 <= i < rest.len() implies !(#[trigger] rest[i] is Username) by {
            assert(rest[i] == attributes[i + 1]);
        }
        law_no_name_is_found_where_none_is(rest);
    }
}

/// A check goes out authenticated by the other side's password.
pub proof fn law_check_goes_out_under_the_other_password(
    request: &IceCheckRequest,
    transaction_id: [u8; 12],
    wire: Vec<u8>,
)
    requires
        call_ensures(encode_ice_check, (request, transaction_id), wire),
    ensures
        wire@ == encoded(
            check_message(*request, transaction_id@),
            Some(request.remote_credentials.password@),
        ),
{
}

/// A responder answers by the merit of what it gets.
pub proof fn law_responder_answers_requests(
    datagram: &[u8],
    peer: SocketAddr,
    credentials: &IceCredentials,
    r: Option<Vec<u8>>,
)
    requires
        call_ensures(answer_ice_check, (datagram, peer, credentials), r),
    ensures
        r is Some <==> decoded(datagram@, None) is Ok && decoded(
            datagram@,
            None,
        )->Ok_0.class is Request,
        r matches Some(v) ==> responder_reply(
            datagram@,
            peer,
            credentials.ufrag@,
            credentials.password@,
        ) == Some(v@),
{
    law_requests_are_answered_by_their_merit(
        datagram@,
        peer,
        credentials.ufrag@,
        credentials.password@,
    );
}

/// An address is masked by the cookie, and for a long address by the transaction
/// too.
pub proof fn law_addresses_are_masked(addr: SocketAddr, transaction_id: [u8; 12], value: Vec<u8>)
    requires
        call_ensures(encode_xor_mapped_address, (addr, transaction_id), value),
    ensures
        value@[0] == 0,
        addr.ip is V4 ==> value@[1] == 1 && value@.len() == 8,
        addr.ip is V6 ==> value@[1] == 2 && value@.len() == 20,
        value@[2] as int * 256 + value@[3] as int == (addr.port ^ 0x2112) as int,
        addr.ip matches IpAddr::V4(ip) ==> value@[4] as int * 0x100_0000 + value@[5] as int
            * 0x1_0000 + value@[6] as int * 0x100 + value@[7] as int == (ip ^ 0x2112_A442) as int,
        addr.ip matches IpAddr::V6(ip) ==> forall|i: int|
            0 <= i < 16 ==> #[trigger] value@[4 + i] == be_bytes(ip as nat, 16)[i] ^ (seq![
                0x21u8,
                0x12u8,
                0xA4u8,
                0x42u8,
            ] + transaction_id@)[i],
{
    lemma_two_be_bytes((addr.port ^ 0x2112) as nat);
    let v = value@;
    match addr.ip {
        IpAddr::V4(ip) => {
            lemma_four_be_bytes((ip ^ 0x2112_A442) as nat);
        },
        IpAddr::V6(ip) => {
            lemma_four_be_bytes(0x2112_A442);
            let m = xor16(be_bytes(ip as nat, 16), address_mask(transaction_id@));
            assert forall|i: int| 0 <= i < 16 implies #[trigger] v[4 + i] == be_bytes(
                ip as nat,
                16,
            )[i] ^ (seq![0x21u8, 0x12u8, 0xA4u8, 0x42u8] + transaction_id@)[i] by {
                assert(v[4 + i] == m[i]);
            }
        },
    }
}

/// The first error that an answer carries is the one that is found, and so are the
/// first address and the first name.
pub proof fn law_first_error_counts(
    attributes: Seq<StunAttributeView>,
    k: int,
    code: u16,
    reason: Seq<char>,
)
    requires
        0 <= k < attributes.len(),
        attributes[k] == (StunAttributeView::ErrorCode { code, reason }),
        forall|i: int| 0 <= i < k ==> !(#[trigger] attributes[i] is ErrorCode),
    ensures
        first_error_code(attributes) == Some((code, reason)),
    decreases k,
{
    if k > 0 {
        assert(!(attributes[0] is ErrorCode));
        let rest = attributes.drop_first();
        assert forall|i: int| 0 <= i < k - 1 implies !(#[trigger] rest[i] is ErrorCode) by {
            assert(rest[i] == attributes[i + 1]);
        }
        law_first_error_counts(rest, k - 1, code, reason);
    }
}

/// An answer that reports an error is passed on with its code and reason, and one
/// of another transaction is refused as such.
pub proof fn law_errors_of_the_other_side_are_told(
    datagram: Seq<u8>,
    password: Seq<char>,
    transaction_id: Seq<u8>,
    code: u16,
    reason: Seq<char>,
)
    requires
        decoded(datagram, Some(password)) is Ok,
    ensures
        ({
            let m = decoded(datagram, Some(password))->Ok_0;
            let outcome = check_outcome(datagram, password, transaction_id);
            &&& m.transaction_id != transaction_id ==> outcome == Err::<
                Option<SocketAddr>,
                QlinkErrorView,
            >(QlinkErrorView::Protocol("ICE response transaction id mismatch"@))
            &&& m.transaction_id == transaction_id && m.class is ErrorResponse && m.attributes.len()
                > 0 && m.attributes[0] == (StunAttributeView::ErrorCode { code, reason })
                ==> outcome == Err::<Option<SocketAddr>, QlinkErrorView>(
                QlinkErrorView::Protocol(
                    "ICE error response: "@ + decimal(code as nat) + " "@ + reason,
                ),
            )
            &&& m.transaction_id == transaction_id && (m.class is Request || m.class is Indication)
                ==> outcome is Err
        }),
{
}

/// Every message ends with a fingerprint over all that comes before it.
pub proof fn law_message_ends_with_its_fingerprint(m: StunMessageView, password: Option<Seq<char>>)
    requires
        m.transaction_id.len() == 12,
        encoded(m, password).len() < 0x1_0000,
    ensures
        ({
            let wire = encoded(m, password);
            let n = wire.len() as int;
            let crc = crc32(wire.subrange(0, n - 8)) ^ 0x5354_554E;
            wire.subrange(n - 8, n) == seq![0x80u8, 0x28u8, 0u8, 4u8] + be_bytes(crc as nat, 4)
        }),
{
    let wire = encoded(m, password);
    let n = wire.len() as int;
    let signed = signed_body(
        m.class,
        m.transaction_id,
        body_wire(payload(m.attributes), m.transaction_id),
        password,
    );
    let head = header_wire(m.class, signed.len() + 8, m.transaction_id);
    let crc = fingerprint_of(m.class, m.transaction_id, signed);
    lemma_be_bytes_len(crc as nat, 4);
    lemma_be_bytes_len(class_type(m.class) as nat, 2);
    lemma_be_bytes_len(signed.len() + 8, 2);
    lemma_be_bytes_len(0x2112_A442, 4);
    lemma_two_be_bytes(0x8028);
    lemma_two_be_bytes(4);
    assert(zeros(padding(4)) =~= Seq::<u8>::empty());
    let value = be_bytes(crc as nat, 4);
    let tail = framed(0x8028u16, value);
    assert(tail =~= seq![0x80u8, 0x28u8, 0u8, 4u8] + value);
    assert(wire =~= (head + signed) + tail);
    assert(wire.subrange(0, n - 8) =~= head + signed);
    assert(wire.subrange(n - 8, n) =~= tail);
}

/// A message with a password carries, before its fingerprint, the tag that the
/// password gives of all that comes before the tag, with the length that the
/// message has up to and with it.
pub proof fn law_message_is_tagged_with_its_password(m: StunMessageView, password: Seq<char>)
    requires
        m.transaction_id.len() == 12,
        encoded(m, Some(password)).len() < 0x1_0000,
    ensures
        ({
            let wire = encoded(m, Some(password));
            let n = wire.len() as int;
            let covered = wire.subrange(0, 2) + be_bytes((n - 28) as nat, 2) + wire.subrange(
                4,
                n - 32,
            );
            &&& n >= 52
            &&& wire.subrange(n - 32, n - 8) == seq![0u8, 8u8, 0u8, 20u8] + hmac_sha1(
                encode_utf8(password),
                covered,
            )@
        }),
{
    let wire = encoded(m, Some(password));
    let n = wire.len() as int;
    let body = body_wire(payload(m.attributes), m.transaction_id);
    let tag = integrity_tag(m.class, m.transaction_id, body, password);
    let frame = framed(0x0008u16, tag);
    let signed = body + frame;
    let head = header_wire(m.class, signed.len() + 8, m.transaction_id);
    let short = header_wire(m.class, body.len() + 24, m.transaction_id);
    let crc = fingerprint_of(m.class, m.transaction_id, signed);
    lemma_be_bytes_len(crc as nat, 4);
    lemma_be_bytes_len(class_type(m.class) as nat, 2);
    lemma_be_bytes_len(signed.len() + 8, 2);
    lemma_be_bytes_len(body.len() + 24, 2);
    lemma_be_bytes_len(0x2112_A442, 4);
    lemma_two_be_bytes(0x0008);
    lemma_two_be_bytes(0x8028);
    lemma_two_be_bytes(20);
    lemma_two_be_bytes(4);
    assert(tag.len() == 20);
    assert(zeros(padding(20)) =~= Seq::<u8>::empty());
    assert(zeros(padding(4)) =~= Seq::<u8>::empty());
    assert(frame =~= seq![0u8, 8u8, 0u8, 20u8] + tag);
    let tail = framed(0x8028u16, be_bytes(crc as nat, 4));
    assert(tail.len() == 8);
    assert(wire =~= ((head + body) + frame) + tail);
    assert(n == 20 + body.len() + 24 + 8);
    let covered = wire.subrange(0, 2) + be_bytes((n - 28) as nat, 2) + wire.subrange(4, n - 32);
    assert(covered =~= short + body);
    assert(wire.subrange(n - 32, n - 8) =~= frame);
}

/// Whatever is read, its last fingerprint is that of the bytes before it.
pub proof fn law_read_fingerprint_fits_the_bytes(
    bytes: Seq<u8>,
    password: Option<Seq<char>>,
    items: Seq<Located>,
    k: int,
    crc: u32,
)
    requires
        decoded(bytes, password) is Ok,
        walked(bytes, 20 + be_value(bytes.subrange(2, 4)), 20, bytes.subrange(8, 20)) == Ok::<
            Seq<Located>,
            Seq<char>,
        >(items),
        0 <= k < items.len(),
        items[k].attr == StunAttributeView::Fingerprint(crc),
        forall|i: int| k < i < items.len() ==> !((#[trigger] items[i]).attr is Fingerprint),
    ensures
        crc == crc32(
            bytes.subrange(0, 2) + be_bytes((items[k].at - 12) as nat, 2) + bytes.subrange(
                4,
                items[k].at as int,
            ),
        ) ^ 0x5354_554E,
{
    lemma_last_fingerprint(items, k, crc);
}

proof fn lemma_last_fingerprint(items: Seq<Located>, k: int, crc: u32)
    requires
        0 <= k < items.len(),
        items[k].attr == StunAttributeView::Fingerprint(crc),
        forall|i: int| k < i < items.len() ==> !((#[trigger] items[i]).attr is Fingerprint),
    ensures
        last_fingerprint(items) == Some((items[k].at, crc)),
    decreases items.len(),
{
    if k < items.len() - 1 {
        assert(!(items[items.len() - 1].attr is Fingerprint));
        let front = items.drop_last();
        assert forall|i: int| k < i < front.len() implies !((
        #[trigger] front[i]).attr is Fingerprint) by {
            assert(front[i] == items[i]);
        }
        lemma_last_fingerprint(front, k, crc);
    }
}

/// Whatever is read under a password carries a tag, and the tag is what the
/// password gives of the bytes before it.
pub proof fn law_read_tag_fits_the_password(
    bytes: Seq<u8>,
    password: Seq<char>,
    items: Seq<Located>,
    k: int,
    tag: Seq<u8>,
)
    requires
        decoded(bytes, Some(password)) is Ok,
        walked(bytes, 20 + be_value(bytes.subrange(2, 4)), 20, bytes.subrange(8, 20)) == Ok::<
            Seq<Located>,
            Seq<char>,
        >(items),
        0 <= k < items.len(),
        items[k].attr == StunAttributeView::MessageIntegrity(tag),
        forall|i: int|
            0 <= i < items.len() && i != k ==> !((#[trigger] items[i]).attr is MessageIntegrity),
    ensures
        tag == hmac_sha1(
            encode_utf8(password),
            bytes.subrange(0, 2) + be_bytes((items[k].at + 4) as nat, 2) + bytes.subrange(
                4,
                items[k].at as int,
            ),
        )@,
{
    lemma_only_tag(items, k, tag);
}

proof fn lemma_only_tag(items: Seq<Located>, k: int, tag: Seq<u8>)
    requires
        0 <= k < items.len(),
        items[k].attr == StunAttributeView::MessageIntegrity(tag),
        forall|i: int|
            0 <= i < items.len() && i != k ==> !((#[trigger] items[i]).attr is MessageIntegrity),
    ensures
        last_integrity(items) == Some(items[k].at),
        first_tag(items) == Some(tag),
    decreases items.len(),
{
    let front = items.drop_last();
    if k < items.len() - 1 {
        assert(!(items[items.len() - 1].attr is MessageIntegrity));
        assert forall|i: int| 0 <= i < front.len() && i != k implies !((
        #[trigger] front[i]).attr is MessageIntegrity) by {
            assert(front[i] == items[i]);
        }
        lemma_only_tag(front, k, tag);
    } else {
        assert forall|i: int| 0 <= i < front.len() implies !((
        #[trigger] front[i]).attr is MessageIntegrity) by {
            assert(front[i] == items[i]);
        }
        lemma_no_tag(front);
    }
}

proof fn lemma_no_tag(items: Seq<Located>)
    requires
        forall|i: int| 0 <= i < items.len() ==> !((#[trigger] items[i]).attr is MessageIntegrity),
    ensures
        last_integrity(items) is None,
        first_tag(items) is None,
    decreases items.len(),
{
    if items.len() > 0 {
        assert(!(items[items.len() - 1].attr is MessageIntegrity));
        let front = items.drop_last();
        assert forall|i: int| 0 <= i < front.len() implies !((
        #[trigger] front[i]).attr is MessageIntegrity) by {
            assert(front[i] == items[i]);
        }
        lemma_no_tag(front);
    }
}

/// A message without a tag is not read under a password.
pub proof fn law_untagged_message_is_not_read_under_a_password(
    bytes: Seq<u8>,
    password: Seq<char>,
    items: Seq<Located>,
)
    requires
        walked(bytes, 20 + be_value(bytes.subrange(2, 4)), 20, bytes.subrange(8, 20)) == Ok::<
            Seq<Located>,
            Seq<char>,
        >(items),
        forall|i: int| 0 <= i < items.len() ==> !((#[trigger] items[i]).attr is MessageIntegrity),
    ensures
        decoded(bytes, Some(password)) is Err,
{
    lemma_no_tag(items);
}

/// Whatever is read has the header of a message: a known type, a length within the
/// bytes and the cookie; its transaction and its attributes are those of the bytes.
pub proof fn law_read_message_has_a_header(bytes: Seq<u8>, password: Option<Seq<char>>)
    ensures
        decoded(bytes, password) matches Ok(m) ==> {
            &&& bytes.len() >= 20
            &&& bytes[4] == 0x21 && bytes[5] == 0x12 && bytes[6] == 0xA4 && bytes[7] == 0x42
            &&& m.transaction_id == bytes.subrange(8, 20)
            &&& bytes[2] as int * 256 + bytes[3] as int <= bytes.len() - 20
            &&& m.class is Request <==> bytes[0] == 0 && bytes[1] == 0x01
            &&& m.class is Indication <==> bytes[0] == 0 && bytes[1] == 0x11
            &&& m.class is SuccessResponse <==> bytes[0] == 1 && bytes[1] == 0x01
            &&& m.class is ErrorResponse <==> bytes[0] == 1 && bytes[1] == 0x11
        },
{
    if bytes.len() >= 20 {
        lemma_two_bytes(bytes, 0);
        lemma_two_bytes(bytes, 2);
        lemma_four_bytes(bytes, 4);
    }
}

} // verus!
