//! What holds of the STUN codec and of the connectivity check as a whole.

use crate::bytes::{be_bytes, be_value, lemma_be_bytes_len, lemma_be_round_trip, lemma_byte_ranges};
use crate::error::QlinkErrorView;
use crate::ice::{
    ATTR_ERROR_CODE, ATTR_FINGERPRINT, ATTR_ICE_CONTROLLED, ATTR_ICE_CONTROLLING,
    ATTR_MESSAGE_INTEGRITY, ATTR_PRIORITY, ATTR_USERNAME, ATTR_USE_CANDIDATE,
    ATTR_XOR_MAPPED_ADDRESS, IceCheckRequest, Located, MAGIC_COOKIE, PORT_MASK, StunAttributeView,
    StunClass, StunMessageView, address_mask, after_all, after_first, attribute_type,
    attribute_value, attributes_of, body_wire, check_message, check_outcome, check_username,
    class_of_type, class_type, decoded, encoded, error_message, fingerprint_holds, fingerprint_of,
    first_tag, first_username, framed, header_wire, integrity_refusal, integrity_tag, is_recomputed,
    last_fingerprint, last_integrity, padding, parsed_attribute, parsed_xor_address, payload,
    relengthed, responder_reply, signed_body, success_message, walked, xor16, xor_address_value,
};
use crate::net::{IpAddr, SocketAddr};
use crate::text::{before_first, lemma_first_index_unique};
use vstd::prelude::*;
use vstd::string::*;
use vstd::utf8::*;

verus! {

/// The type codes that the codec reads as something other than `Unknown`.
pub open spec fn is_known_type(type_code: u16) -> bool {
    ||| type_code == ATTR_USERNAME
    ||| type_code == ATTR_MESSAGE_INTEGRITY
    ||| type_code == ATTR_FINGERPRINT
    ||| type_code == ATTR_PRIORITY
    ||| type_code == ATTR_USE_CANDIDATE
    ||| type_code == ATTR_ICE_CONTROLLING
    ||| type_code == ATTR_ICE_CONTROLLED
    ||| type_code == ATTR_XOR_MAPPED_ADDRESS
    ||| type_code == ATTR_ERROR_CODE
}

/// An attribute that the wire format can carry: an error code has three bits of
/// hundreds, an unknown attribute does not wear a known type code.
pub open spec fn is_representable(a: StunAttributeView) -> bool {
    match a {
        StunAttributeView::MessageIntegrity(tag) => tag.len() == 20,
        StunAttributeView::ErrorCode { code, reason } => code < 800,
        StunAttributeView::Unknown { type_code, value } => !is_known_type(type_code),
        _ => true,
    }
}

/// A message whose attributes can be carried and whose body, with the attributes
/// that an encoder adds, fits the 16-bit length field: the integrity tag where
/// there is a password, and the fingerprint.
pub open spec fn is_encodable(m: StunMessageView, password: Option<Seq<char>>) -> bool {
    let body = body_wire(payload(m.attributes), m.transaction_id);
    &&& m.transaction_id.len() == 12
    &&& forall|i: int|
        0 <= i < payload(m.attributes).len() ==> is_representable(
            #[trigger] payload(m.attributes)[i],
        )
    &&& signed_body(m.class, m.transaction_id, body, password).len() + 8 <= 0xffff
}

/// What the decoder makes of an encoded message: the attributes that were
/// written as they stood, then the integrity tag where there was a password,
/// then the fingerprint.
pub open spec fn received(m: StunMessageView, password: Option<Seq<char>>) -> StunMessageView {
    let tx = m.transaction_id;
    let body = body_wire(payload(m.attributes), tx);
    let signed = signed_body(m.class, tx, body, password);
    let fingerprint = StunAttributeView::Fingerprint(fingerprint_of(m.class, tx, signed));
    StunMessageView {
        class: m.class,
        transaction_id: tx,
        attributes: match password {
            None => payload(m.attributes).push(fingerprint),
            Some(p) => payload(m.attributes).push(
                StunAttributeView::MessageIntegrity(integrity_tag(m.class, tx, body, p)),
            ).push(fingerprint),
        },
    }
}

proof fn lemma_xor_undone(port: u16, ip: u32)
    ensures
        (port ^ PORT_MASK) ^ PORT_MASK == port,
        (ip ^ MAGIC_COOKIE) ^ MAGIC_COOKIE == ip,
{
    assert((port ^ 0x2112) ^ 0x2112 == port) by (bit_vector);
    assert((ip ^ 0x2112_A442) ^ 0x2112_A442 == ip) by (bit_vector);
}

proof fn lemma_xor16_undone(a: Seq<u8>, b: Seq<u8>)
    requires
        a.len() == 16,
    ensures
        xor16(xor16(a, b), b) == a,
{
    assert forall|i: int| 0 <= i < 16 implies xor16(xor16(a, b), b)[i] == a[i] by {
        let x = a[i];
        let y = b[i];
        assert((x ^ y) ^ y == x) by (bit_vector);
    }
    assert(xor16(xor16(a, b), b) =~= a);
}

/// Reading a mapped address undoes writing it.
pub proof fn lemma_address_round_trip(addr: SocketAddr, transaction_id: Seq<u8>)
    requires
        transaction_id.len() == 12,
    ensures
        parsed_xor_address(xor_address_value(addr, transaction_id), transaction_id) == Ok::<
            SocketAddr,
            Seq<char>,
        >(addr),
{
    lemma_byte_ranges();
    let value = xor_address_value(addr, transaction_id);
    let port = addr.port ^ PORT_MASK;
    lemma_be_round_trip(port as nat, 2);
    assert(value.subrange(2, 4) =~= be_bytes(port as nat, 2)) by {
        lemma_be_bytes_len(port as nat, 2);
    }
    match addr.ip {
        IpAddr::V4(ip) => {
            let masked = ip ^ MAGIC_COOKIE;
            lemma_be_round_trip(masked as nat, 4);
            assert(value.subrange(4, 8) =~= be_bytes(masked as nat, 4));
            lemma_xor_undone(addr.port, ip);
        },
        IpAddr::V6(ip) => {
            lemma_xor_undone(addr.port, 0);
            lemma_be_round_trip(ip as nat, 16);
            let octets = be_bytes(ip as nat, 16);
            let mask = address_mask(transaction_id);
            assert(value.subrange(4, 20) =~= xor16(octets, mask));
            lemma_xor16_undone(octets, mask);
        },
    }
}

/// Reading an attribute undoes writing it.
pub proof fn lemma_attribute_round_trip(a: StunAttributeView, transaction_id: Seq<u8>)
    requires
        is_representable(a),
        transaction_id.len() == 12,
    ensures
        parsed_attribute(
            attribute_type(a) as nat,
            attribute_value(a, transaction_id),
            transaction_id,
        ) == Ok::<StunAttributeView, Seq<char>>(a),
{
    lemma_byte_ranges();
    let value = attribute_value(a, transaction_id);
    match a {
        StunAttributeView::Username(name) => {
            encode_utf8_valid_utf8(name);
            encode_utf8_decode_utf8(name);
        },
        StunAttributeView::Fingerprint(v) => {
            lemma_be_round_trip(v as nat, 4);
        },
        StunAttributeView::Priority(v) => {
            lemma_be_round_trip(v as nat, 4);
        },
        StunAttributeView::IceControlling(v) => {
            lemma_be_round_trip(v as nat, 8);
        },
        StunAttributeView::IceControlled(v) => {
            lemma_be_round_trip(v as nat, 8);
        },
        StunAttributeView::XorMappedAddress(addr) => {
            lemma_address_round_trip(addr, transaction_id);
        },
        StunAttributeView::ErrorCode { code, reason } => {
            encode_utf8_valid_utf8(reason);
            encode_utf8_decode_utf8(reason);
            assert(value.subrange(4, value.len() as int) =~= encode_utf8(reason));
        },
        _ => {},
    }
}

/// The length of a framed attribute.
proof fn lemma_framed_len(type_code: u16, value: Seq<u8>)
    ensures
        framed(type_code, value).len() == 4 + value.len() + padding(value.len()),
{
    lemma_be_bytes_len(type_code as nat, 2);
    lemma_be_bytes_len(value.len(), 2);
}

/// A walk takes a framed attribute as one step.
proof fn lemma_walk_step(bytes: Seq<u8>, total: nat, at: nat, a: StunAttributeView, tx: Seq<u8>)
    requires
        is_representable(a),
        tx.len() == 12,
        attribute_value(a, tx).len() < 0x1_0000,
        at + framed(attribute_type(a), attribute_value(a, tx)).len() <= total <= bytes.len(),
        bytes.subrange(
            at as int,
            at + framed(attribute_type(a), attribute_value(a, tx)).len() as int,
        ) == framed(attribute_type(a), attribute_value(a, tx)),
    ensures
        walked(bytes, total, at, tx) == after_first(
            Located { at, attr: a },
            walked(
                bytes,
                total,
                at + framed(attribute_type(a), attribute_value(a, tx)).len(),
                tx,
            ),
        ),
{
    let ty = attribute_type(a);
    let value = attribute_value(a, tx);
    let frame = framed(ty, value);
    lemma_framed_len(ty, value);
    lemma_byte_ranges();
    lemma_be_round_trip(ty as nat, 2);
    lemma_be_round_trip(value.len(), 2);
    let start = at as int;
    let whole = bytes.subrange(start, start + frame.len());
    assert(whole == frame);
    assert(bytes.subrange(start, start + 2) =~= be_bytes(ty as nat, 2)) by {
        assert(bytes.subrange(start, start + 2) =~= whole.subrange(0, 2));
        assert(frame.subrange(0, 2) =~= be_bytes(ty as nat, 2));
    }
    assert(bytes.subrange(start + 2, start + 4) =~= be_bytes(value.len(), 2)) by {
        assert(bytes.subrange(start + 2, start + 4) =~= whole.subrange(2, 4));
        assert(frame.subrange(2, 4) =~= be_bytes(value.len(), 2));
    }
    assert(bytes.subrange(start + 4, start + 4 + value.len()) =~= value) by {
        assert(bytes.subrange(start + 4, start + 4 + value.len()) =~= whole.subrange(
            4,
            4 + value.len() as int,
        ));
        assert(frame.subrange(4, 4 + value.len() as int) =~= value);
    }
    lemma_attribute_round_trip(a, tx);
}

/// The attributes of a body with the offsets that they have when the body
/// starts at `at`.
spec fn located(attributes: Seq<StunAttributeView>, at: nat, tx: Seq<u8>) -> Seq<Located>
    decreases attributes.len(),
{
    if attributes.len() == 0 {
        Seq::empty()
    } else {
        located(attributes.drop_last(), at, tx).push(
            Located { at: at + body_wire(attributes.drop_last(), tx).len(), attr: attributes.last() },
        )
    }
}

proof fn lemma_located_attributes(attributes: Seq<StunAttributeView>, at: nat, tx: Seq<u8>)
    ensures
        attributes_of(located(attributes, at, tx)) == attributes,
    decreases attributes.len(),
{
    let items = located(attributes, at, tx);
    if attributes.len() > 0 {
        let shorter = located(attributes.drop_last(), at, tx);
        lemma_located_attributes(attributes.drop_last(), at, tx);
        assert(attributes_of(shorter).len() == shorter.len());
        assert forall|i: int| 0 <= i < attributes.len() implies items[i].attr == attributes[i] by {
            if i < attributes.len() - 1 {
                assert(attributes_of(shorter)[i] == attributes.drop_last()[i]);
            }
        }
    }
    assert(attributes_of(items) =~= attributes);
}

/// A walk over a body finds its attributes and goes on behind them.
proof fn lemma_walk_body(
    bytes: Seq<u8>,
    total: nat,
    at: nat,
    attributes: Seq<StunAttributeView>,
    tx: Seq<u8>,
)
    requires
        tx.len() == 12,
        forall|i: int| 0 <= i < attributes.len() ==> is_representable(#[trigger] attributes[i]),
        body_wire(attributes, tx).len() < 0x1_0000,
        at + body_wire(attributes, tx).len() <= total <= bytes.len(),
        bytes.subrange(at as int, at + body_wire(attributes, tx).len() as int) == body_wire(
            attributes,
            tx,
        ),
    ensures
        walked(bytes, total, at, tx) == after_all(
            located(attributes, at, tx),
            walked(bytes, total, at + body_wire(attributes, tx).len(), tx),
        ),
    decreases attributes.len(),
{
    let body = body_wire(attributes, tx);
    if attributes.len() == 0 {
        let rest = walked(bytes, total, at, tx);
        if let Ok(items) = rest {
            assert(Seq::<Located>::empty() + items =~= items);
        }
    } else {
        let front = attributes.drop_last();
        let last = attributes.last();
        let head = body_wire(front, tx);
        let frame = framed(attribute_type(last), attribute_value(last, tx));
        lemma_framed_len(attribute_type(last), attribute_value(last, tx));
        let start = at as int;
        assert(body == head + frame);
        let whole = bytes.subrange(start, start + body.len());
        assert(bytes.subrange(start, start + head.len()) =~= head) by {
            assert(bytes.subrange(start, start + head.len()) =~= whole.subrange(
                0,
                head.len() as int,
            ));
            assert(body.subrange(0, head.len() as int) =~= head);
        }
        let mid = at + head.len();
        assert(bytes.subrange(mid as int, mid + frame.len() as int) =~= frame) by {
            assert(bytes.subrange(mid as int, mid + frame.len() as int) =~= whole.subrange(
                head.len() as int,
                body.len() as int,
            ));
            assert(body.subrange(head.len() as int, body.len() as int) =~= frame);
        }
        assert forall|i: int| 0 <= i < front.len() implies is_representable(
            #[trigger] front[i],
        ) by {
            assert(front[i] == attributes[i]);
        }
        assert(is_representable(attributes[attributes.len() - 1]));
        lemma_walk_body(bytes, total, at, front, tx);
        lemma_walk_step(bytes, total, mid, last, tx);
        let rest = walked(bytes, total, mid + frame.len(), tx);
        let item = Located { at: mid, attr: last };
        if let Ok(items) = rest {
            assert(located(front, at, tx) + (seq![item] + items) =~= located(front, at, tx).push(
                item,
            ) + items);
        }
    }
}

/// Attributes that are not recomputed hold no tag and no fingerprint.
proof fn lemma_plain_items(items: Seq<Located>)
    requires
        forall|i: int| 0 <= i < items.len() ==> !is_recomputed((#[trigger] items[i]).attr),
    ensures
        last_integrity(items) is None,
        first_tag(items) is None,
        last_fingerprint(items) is None,
    decreases items.len(),
{
    if items.len() > 0 {
        assert(!is_recomputed(items[items.len() - 1].attr));
        assert forall|i: int| 0 <= i < items.drop_last().len() implies !is_recomputed(
            (#[trigger] items.drop_last()[i]).attr,
        ) by {
            assert(items.drop_last()[i] == items[i]);
        }
        lemma_plain_items(items.drop_last());
    }
}

proof fn lemma_payload_plain(attributes: Seq<StunAttributeView>)
    ensures
        forall|i: int|
            0 <= i < payload(attributes).len() ==> !is_recomputed(
                #[trigger] payload(attributes)[i],
            ),
    decreases attributes.len(),
{
    if attributes.len() > 0 {
        lemma_payload_plain(attributes.drop_last());
        let p = payload(attributes.drop_last());
        assert forall|i: int| 0 <= i < payload(attributes).len() implies !is_recomputed(
            #[trigger] payload(attributes)[i],
        ) by {
            if i < p.len() {
                assert(payload(attributes)[i] == p[i]);
            }
        }
    }
}

/// The parts of an encoded message.
proof fn lemma_encoded_parts(m: StunMessageView, password: Option<Seq<char>>)
    requires
        is_encodable(m, password),
    ensures
        ({
            let tx = m.transaction_id;
            let wire = encoded(m, password);
            let body = body_wire(payload(m.attributes), tx);
            let signed = signed_body(m.class, tx, body, password);
            let fp = fingerprint_of(m.class, tx, signed);
            &&& wire.len() == 20 + signed.len() + 8
            &&& body.len() <= signed.len()
            &&& signed.len() + 8 < 0x1_0000
            &&& be_value(wire.subrange(0, 2)) == class_type(m.class)
            &&& be_value(wire.subrange(2, 4)) == signed.len() + 8
            &&& be_value(wire.subrange(4, 8)) == MAGIC_COOKIE
            &&& wire.subrange(8, 20) == tx
            &&& wire.subrange(20, 20 + body.len() as int) == body
            &&& wire.subrange(20 + signed.len() as int, wire.len() as int) == framed(
                ATTR_FINGERPRINT,
                be_bytes(fp as nat, 4),
            )
            &&& relengthed(wire, 20 + signed.len(), signed.len() + 8) == header_wire(
                m.class,
                signed.len() + 8,
                tx,
            ) + signed
        }),
{
    let tx = m.transaction_id;
    let body = body_wire(payload(m.attributes), tx);
    let signed = signed_body(m.class, tx, body, password);
    let wire = encoded(m, password);
    let fp = fingerprint_of(m.class, tx, signed);
    let fp_frame = framed(ATTR_FINGERPRINT, be_bytes(fp as nat, 4));
    let head = header_wire(m.class, signed.len() + 8, tx);
    lemma_byte_ranges();
    lemma_be_bytes_len(fp as nat, 4);
    lemma_framed_len(ATTR_FINGERPRINT, be_bytes(fp as nat, 4));
    if let Some(p) = password {
        lemma_framed_len(ATTR_MESSAGE_INTEGRITY, integrity_tag(m.class, tx, body, p));
    }
    lemma_be_round_trip(class_type(m.class) as nat, 2);
    lemma_be_round_trip(signed.len() + 8, 2);
    lemma_be_round_trip(MAGIC_COOKIE as nat, 4);
    assert(head.len() == 20);
    assert(wire == head + signed + fp_frame);
    assert(wire.subrange(0, 2) =~= be_bytes(class_type(m.class) as nat, 2));
    assert(wire.subrange(2, 4) =~= be_bytes(signed.len() + 8, 2));
    assert(wire.subrange(4, 8) =~= be_bytes(MAGIC_COOKIE as nat, 4));
    assert(wire.subrange(8, 20) =~= tx);
    assert(wire.subrange(20, 20 + body.len() as int) =~= body);
    assert(wire.subrange(20 + signed.len() as int, wire.len() as int) =~= fp_frame);
    assert(relengthed(wire, 20 + signed.len(), signed.len() + 8) =~= head + signed);
}

/// Where the integrity attribute stands in an encoded message.
proof fn lemma_encoded_integrity(m: StunMessageView, p: Seq<char>)
    requires
        is_encodable(m, Some(p)),
    ensures
        ({
            let tx = m.transaction_id;
            let wire = encoded(m, Some(p));
            let body = body_wire(payload(m.attributes), tx);
            let tag = integrity_tag(m.class, tx, body, p);
            &&& wire.len() == 20 + body.len() + 32
            &&& signed_body(m.class, tx, body, Some(p)).len() == body.len() + 24
            &&& framed(ATTR_MESSAGE_INTEGRITY, tag).len() == 24
            &&& wire.subrange(20 + body.len() as int, 44 + body.len() as int) == framed(
                ATTR_MESSAGE_INTEGRITY,
                tag,
            )
            &&& relengthed(wire, 20 + body.len(), body.len() + 24) == header_wire(
                m.class,
                body.len() + 24,
                tx,
            ) + body
        }),
{
    let tx = m.transaction_id;
    let body = body_wire(payload(m.attributes), tx);
    let wire = encoded(m, Some(p));
    let tag = integrity_tag(m.class, tx, body, p);
    let frame = framed(ATTR_MESSAGE_INTEGRITY, tag);
    lemma_encoded_parts(m, Some(p));
    lemma_framed_len(ATTR_MESSAGE_INTEGRITY, tag);
    let signed = signed_body(m.class, tx, body, Some(p));
    assert(signed == body + frame);
    let fp = fingerprint_of(m.class, tx, signed);
    let fp_frame = framed(ATTR_FINGERPRINT, be_bytes(fp as nat, 4));
    let head = header_wire(m.class, signed.len() + 8, tx);
    assert(wire == head + signed + fp_frame);
    let h = header_wire(m.class, body.len() + 24, tx);
    lemma_be_bytes_len(class_type(m.class) as nat, 2);
    lemma_be_bytes_len(body.len() + 24, 2);
    lemma_be_bytes_len(signed.len() + 8, 2);
    lemma_be_bytes_len(MAGIC_COOKIE as nat, 4);
    assert(wire.subrange(20 + body.len() as int, 44 + body.len() as int) =~= frame);
    assert(relengthed(wire, 20 + body.len(), body.len() + 24) =~= h + body);
}

/// The items that a walk over an encoded message finds.
spec fn encoded_items(m: StunMessageView, password: Option<Seq<char>>) -> Seq<Located> {
    let tx = m.transaction_id;
    let body = body_wire(payload(m.attributes), tx);
    let signed = signed_body(m.class, tx, body, password);
    let base = located(payload(m.attributes), 20, tx);
    let fp_item = Located {
        at: 20 + signed.len(),
        attr: StunAttributeView::Fingerprint(fingerprint_of(m.class, tx, signed)),
    };
    match password {
        None => base.push(fp_item),
        Some(p) => base.push(
            Located {
                at: 20 + body.len(),
                attr: StunAttributeView::MessageIntegrity(integrity_tag(m.class, tx, body, p)),
            },
        ).push(fp_item),
    }
}

/// A walk over an encoded message finds its attributes.
proof fn lemma_encoded_walk(m: StunMessageView, password: Option<Seq<char>>)
    requires
        is_encodable(m, password),
    ensures
        walked(encoded(m, password), encoded(m, password).len(), 20, m.transaction_id) == Ok::<
            Seq<Located>,
            Seq<char>,
        >(encoded_items(m, password)),
{
    let tx = m.transaction_id;
    let plain = payload(m.attributes);
    let body = body_wire(plain, tx);
    let signed = signed_body(m.class, tx, body, password);
    let wire = encoded(m, password);
    let fp = fingerprint_of(m.class, tx, signed);
    let fp_attr = StunAttributeView::Fingerprint(fp);
    lemma_encoded_parts(m, password);
    lemma_be_bytes_len(fp as nat, 4);
    lemma_framed_len(ATTR_FINGERPRINT, be_bytes(fp as nat, 4));
    let total = wire.len();
    lemma_walk_body(wire, total, 20, plain, tx);
    let base = located(plain, 20, tx);
    let fp_at = 20 + signed.len();
    lemma_walk_step(wire, total, fp_at, fp_attr, tx);
    let fp_item = Located { at: fp_at, attr: fp_attr };
    let tail = seq![fp_item];
    assert(seq![fp_item] + Seq::<Located>::empty() =~= tail);
    assert(walked(wire, total, fp_at, tx) == Ok::<Seq<Located>, Seq<char>>(tail));
    match password {
        None => {
            assert(base + tail =~= encoded_items(m, password));
        },
        Some(p) => {
            let tag = integrity_tag(m.class, tx, body, p);
            let mi_attr = StunAttributeView::MessageIntegrity(tag);
            let mi_at = 20 + body.len();
            let mi_item = Located { at: mi_at, attr: mi_attr };
            lemma_encoded_integrity(m, p);
            lemma_walk_step(wire, total, mi_at, mi_attr, tx);
            assert(base + (seq![mi_item] + tail) =~= encoded_items(m, password));
        },
    }
}

/// What the checks after the walk read off the items of an encoded message.
proof fn lemma_encoded_items(m: StunMessageView, password: Option<Seq<char>>)
    ensures
        ({
            let tx = m.transaction_id;
            let body = body_wire(payload(m.attributes), tx);
            let signed = signed_body(m.class, tx, body, password);
            let items = encoded_items(m, password);
            &&& attributes_of(items) == received(m, password).attributes
            &&& last_fingerprint(items) == Some(
                (20 + signed.len(), fingerprint_of(m.class, tx, signed)),
            )
            &&& match password {
                None => last_integrity(items) is None,
                Some(p) => {
                    &&& last_integrity(items) == Some(20 + body.len())
                    &&& first_tag(items) == Some(integrity_tag(m.class, tx, body, p))
                },
            }
        }),
{
    let tx = m.transaction_id;
    let plain = payload(m.attributes);
    let body = body_wire(plain, tx);
    let base = located(plain, 20, tx);
    let items = encoded_items(m, password);
    lemma_located_attributes(plain, 20, tx);
    assert(attributes_of(base).len() == base.len());
    lemma_payload_plain(m.attributes);
    assert forall|i: int| 0 <= i < base.len() implies (#[trigger] base[i]).attr == plain[i]
        && !is_recomputed(base[i].attr) by {
        assert(attributes_of(base)[i] == plain[i]);
    }
    lemma_plain_items(base);
    match password {
        None => {
            assert(items.drop_last() =~= base);
            assert(last_integrity(items) == last_integrity(base));
        },
        Some(p) => {
            let with_tag = items.drop_last();
            assert(with_tag.drop_last() =~= base);
            assert(with_tag.last().attr == StunAttributeView::MessageIntegrity(
                integrity_tag(m.class, tx, body, p),
            ));
            assert(first_tag(with_tag) == Some(integrity_tag(m.class, tx, body, p)));
            assert(first_tag(items) == first_tag(with_tag));
            assert(last_integrity(with_tag) == Some(20 + body.len()));
            assert(last_integrity(items) == last_integrity(with_tag));
        },
    }
    assert forall|i: int| 0 <= i < items.len() implies #[trigger] items[i].attr == received(
        m,
        password,
    ).attributes[i] by {
        if i < base.len() {
            assert(items[i] == base[i]);
        }
    }
    assert(attributes_of(items) =~= received(m, password).attributes);
}

/// An encoded message is read back, unless its integrity is refused.
proof fn lemma_encoded_decoded(
    m: StunMessageView,
    sent_with: Option<Seq<char>>,
    read_with: Option<Seq<char>>,
)
    requires
        is_encodable(m, sent_with),
    ensures
        decoded(encoded(m, sent_with), read_with) == match integrity_refusal(
            encoded(m, sent_with),
            encoded_items(m, sent_with),
            read_with,
        ) {
            Some(e) => Err::<StunMessageView, QlinkErrorView>(QlinkErrorView::Protocol(e)),
            None => Ok(received(m, sent_with)),
        },
{
    let wire = encoded(m, sent_with);
    lemma_encoded_parts(m, sent_with);
    lemma_encoded_walk(m, sent_with);
    lemma_encoded_items(m, sent_with);
    assert(20 + be_value(wire.subrange(2, 4)) == wire.len());
    assert(class_of_type(be_value(wire.subrange(0, 2))) == Some(m.class));
    assert(fingerprint_holds(wire, encoded_items(m, sent_with)));
}

/// Every message that the wire format can carry comes back from the decoder as
/// it went into the encoder: with the password it was encoded with, or without
/// asking for authentication.
pub proof fn law_stun_round_trip(
    m: StunMessageView,
    sent_with: Option<Seq<char>>,
    read_with: Option<Seq<char>>,
)
    requires
        is_encodable(m, sent_with),
        read_with is None || read_with == sent_with,
    ensures
        decoded(encoded(m, sent_with), read_with) == Ok::<StunMessageView, QlinkErrorView>(
            received(m, sent_with),
        ),
{
    lemma_encoded_decoded(m, sent_with, read_with);
    lemma_encoded_items(m, sent_with);
    if let Some(p) = sent_with {
        lemma_encoded_integrity(m, p);
    }
}

/// A message that was authenticated with one password is accepted under another
/// exactly when the two give the same tag; else it is refused for its
/// integrity.
pub proof fn law_wrong_password_is_refused(m: StunMessageView, sent_with: Seq<char>, read_with: Seq<
    char,
>)
    requires
        is_encodable(m, Some(sent_with)),
    ensures
        ({
            let body = body_wire(payload(m.attributes), m.transaction_id);
            let same_tag = integrity_tag(m.class, m.transaction_id, body, sent_with)
                == integrity_tag(m.class, m.transaction_id, body, read_with);
            decoded(encoded(m, Some(sent_with)), Some(read_with)) == if same_tag {
                Ok::<StunMessageView, QlinkErrorView>(received(m, Some(sent_with)))
            } else {
                Err(QlinkErrorView::Protocol("STUN MESSAGE-INTEGRITY verification failed"@))
            }
        }),
{
    lemma_encoded_decoded(m, Some(sent_with), Some(read_with));
    lemma_encoded_items(m, Some(sent_with));
    lemma_encoded_integrity(m, sent_with);
}

/// A message without an integrity attribute is never accepted where one is
/// asked for.
pub proof fn law_unauthenticated_is_refused(m: StunMessageView, read_with: Seq<char>)
    requires
        is_encodable(m, None),
    ensures
        decoded(encoded(m, None), Some(read_with)) == Err::<StunMessageView, QlinkErrorView>(
            QlinkErrorView::Protocol(
                "STUN message has no MESSAGE-INTEGRITY attribute but caller required one"@,
            ),
        ),
{
    lemma_encoded_decoded(m, None, Some(read_with));
    lemma_encoded_items(m, None);
}

/// Whatever arrives, a fingerprint that does not match the bytes before it is
/// refused, under every password and without one.
pub proof fn law_bad_fingerprint_is_refused(bytes: Seq<u8>, password: Option<Seq<char>>)
    ensures
        decoded(bytes, password) matches Ok(_) ==> (walked(
            bytes,
            20 + be_value(bytes.subrange(2, 4)),
            20,
            bytes.subrange(8, 20),
        ) matches Ok(items) && fingerprint_holds(bytes, items)),
{
}

/// Attributes that an encoder does not recompute are all written.
proof fn lemma_payload_of_plain(attributes: Seq<StunAttributeView>)
    requires
        forall|i: int| 0 <= i < attributes.len() ==> !is_recomputed(#[trigger] attributes[i]),
    ensures
        payload(attributes) == attributes,
    decreases attributes.len(),
{
    if attributes.len() > 0 {
        let front = attributes.drop_last();
        assert forall|i: int| 0 <= i < front.len() implies !is_recomputed(#[trigger] front[i]) by {
            assert(front[i] == attributes[i]);
        }
        assert(!is_recomputed(attributes[attributes.len() - 1]));
        lemma_payload_of_plain(front);
        assert(front.push(attributes.last()) =~= attributes);
    } else {
        assert(attributes =~= Seq::empty());
    }
}

/// A list of one attribute that can be carried, and is short, makes an
/// encodable message.
proof fn lemma_single_encodable(
    class: StunClass,
    tx: Seq<u8>,
    a: StunAttributeView,
    password: Option<Seq<char>>,
)
    requires
        tx.len() == 12,
        is_representable(a),
        !is_recomputed(a),
        attribute_value(a, tx).len() < 1000,
    ensures
        is_encodable(
            StunMessageView { class, transaction_id: tx, attributes: seq![a] },
            password,
        ),
        payload(seq![a]) == seq![a],
{
    let attributes = seq![a];
    lemma_payload_of_plain(attributes);
    assert(attributes.drop_last() =~= Seq::empty());
    lemma_framed_len(attribute_type(a), attribute_value(a, tx));
    assert(body_wire(attributes.drop_last(), tx).len() == 0);
    if let Some(p) = password {
        let body = body_wire(payload(attributes), tx);
        lemma_framed_len(ATTR_MESSAGE_INTEGRITY, integrity_tag(class, tx, body, p));
    }
}

proof fn lemma_check_username(request: IceCheckRequest)
    requires
        !request.remote_credentials.ufrag@.contains(':'),
    ensures
        before_first(check_username(request), ':') == request.remote_credentials.ufrag@,
{
    reveal_strlit(":");
    let ufrag = request.remote_credentials.ufrag@;
    let name = check_username(request);
    assert forall|i: int| 0 <= i < ufrag.len() implies name[i] != ':' by {
        assert(name[i] == ufrag[i]);
        assert(ufrag.contains(ufrag[i]));
    }
    lemma_first_index_unique(name, ':', ufrag.len() as int);
    assert(name.subrange(0, ufrag.len() as int) =~= ufrag);
}

/// What the responder reads in a check.
proof fn lemma_check_received(request: IceCheckRequest, tx: Seq<u8>, p: Seq<char>)
    ensures
        first_username(received(check_message(request, tx), Some(p)).attributes) == Some(
            check_username(request),
        ),
{
    let m = check_message(request, tx);
    assert forall|i: int| 0 <= i < m.attributes.len() implies !is_recomputed(
        #[trigger] m.attributes[i],
    ) by {}
    lemma_payload_of_plain(m.attributes);
    assert(received(m, Some(p)).attributes[0] == m.attributes[0]);
}

/// What a responder answers to a request that carries a user name.
proof fn lemma_reply(
    datagram: Seq<u8>,
    peer: SocketAddr,
    ufrag: Seq<char>,
    password: Seq<char>,
    m: StunMessageView,
    name: Seq<char>,
)
    requires
        decoded(datagram, None) == Ok::<StunMessageView, QlinkErrorView>(m),
        m.class == StunClass::Request,
        first_username(m.attributes) == Some(name),
    ensures
        responder_reply(datagram, peer, ufrag, password) == Some(
            encoded(
                if before_first(name, ':') != ufrag {
                    error_message(m.transaction_id, 401, "bad ufrag"@)
                } else if decoded(datagram, Some(password)) is Err {
                    error_message(
                        m.transaction_id,
                        401,
                        "MESSAGE-INTEGRITY verification failed"@,
                    )
                } else {
                    success_message(m.transaction_id, peer)
                },
                Some(password),
            ),
        ),
{
}

/// A refusal fails the check that it answers, whatever password it is read
/// with.
proof fn lemma_refusal_fails(
    tx: Seq<u8>,
    code: u16,
    reason: Seq<char>,
    password: Seq<char>,
    used: Seq<char>,
)
    requires
        tx.len() == 12,
        code < 800,
        is_ascii_chars(reason),
        reason.len() < 900,
    ensures
        check_outcome(encoded(error_message(tx, code, reason), Some(password)), used, tx) is Err,
{
    let answer = error_message(tx, code, reason);
    let a = StunAttributeView::ErrorCode { code, reason };
    is_ascii_chars_encode_utf8(reason);
    lemma_single_encodable(StunClass::ErrorResponse, tx, a, Some(password));
    law_wrong_password_is_refused(answer, password, used);
}

/// The reasons of refusals are short and plain.
proof fn lemma_reasons_are_plain()
    ensures
        is_ascii_chars("bad ufrag"@),
        "bad ufrag"@.len() < 900,
        is_ascii_chars("MESSAGE-INTEGRITY verification failed"@),
        "MESSAGE-INTEGRITY verification failed"@.len() < 900,
{
    reveal_strlit("bad ufrag");
    reveal_strlit("MESSAGE-INTEGRITY verification failed");
}

/// The two refusals of an unauthenticated check fail it.
proof fn lemma_refusals_fail(tx: Seq<u8>, password: Seq<char>, used: Seq<char>)
    requires
        tx.len() == 12,
    ensures
        check_outcome(encoded(error_message(tx, 401, "bad ufrag"@), Some(password)), used, tx)
            is Err,
        check_outcome(
            encoded(
                error_message(tx, 401, "MESSAGE-INTEGRITY verification failed"@),
                Some(password),
            ),
            used,
            tx,
        ) is Err,
{
    lemma_reasons_are_plain();
    lemma_refusal_fails(tx, 401, "bad ufrag"@, password, used);
    lemma_refusal_fails(tx, 401, "MESSAGE-INTEGRITY verification failed"@, password, used);
}

/// An answer that tells an address passes as one to the check that it answers.
proof fn lemma_success_passes(tx: Seq<u8>, peer: SocketAddr, password: Seq<char>)
    requires
        tx.len() == 12,
    ensures
        check_outcome(encoded(success_message(tx, peer), Some(password)), password, tx) == Ok::<
            Option<SocketAddr>,
            QlinkErrorView,
        >(Some(peer)),
{
    let answer = success_message(tx, peer);
    let a = StunAttributeView::XorMappedAddress(peer);
    assert(attribute_value(a, tx).len() < 1000) by {
        lemma_be_bytes_len((peer.port ^ PORT_MASK) as nat, 2);
        if let IpAddr::V4(ip) = peer.ip {
            lemma_be_bytes_len((ip ^ MAGIC_COOKIE) as nat, 4);
        }
    }
    lemma_single_encodable(StunClass::SuccessResponse, tx, a, Some(password));
    law_stun_round_trip(answer, Some(password), Some(password));
    let got = received(answer, Some(password));
    assert(got.attributes[0] == a);
}

/// A check that is made for a responder's credentials is answered with the
/// address the check came from, and the answer passes as one to that check.
pub proof fn law_check_is_answered(request: IceCheckRequest, tx: Seq<u8>, peer: SocketAddr)
    requires
        is_encodable(
            check_message(request, tx),
            Some(request.remote_credentials.password@),
        ),
        !request.remote_credentials.ufrag@.contains(':'),
    ensures
        ({
            let ufrag = request.remote_credentials.ufrag@;
            let password = request.remote_credentials.password@;
            let sent = encoded(check_message(request, tx), Some(password));
            let reply = encoded(success_message(tx, peer), Some(password));
            &&& responder_reply(sent, peer, ufrag, password) == Some(reply)
            &&& check_outcome(reply, password, tx) == Ok::<Option<SocketAddr>, QlinkErrorView>(
                Some(peer),
            )
        }),
{
    let ufrag = request.remote_credentials.ufrag@;
    let password = request.remote_credentials.password@;
    let m = check_message(request, tx);
    law_stun_round_trip(m, Some(password), None);
    law_stun_round_trip(m, Some(password), Some(password));
    lemma_check_received(request, tx, password);
    lemma_check_username(request);
    lemma_reply(
        encoded(m, Some(password)),
        peer,
        ufrag,
        password,
        received(m, Some(password)),
        check_username(request),
    );
    lemma_success_passes(tx, peer, password);
}

/// The answer to a check that carries the wrong password is a refusal, and the
/// check fails on it.
pub proof fn law_check_with_wrong_password_fails(
    request: IceCheckRequest,
    tx: Seq<u8>,
    peer: SocketAddr,
    ufrag: Seq<char>,
    password: Seq<char>,
)
    requires
        is_encodable(
            check_message(request, tx),
            Some(request.remote_credentials.password@),
        ),
        ({
            let body = body_wire(payload(check_message(request, tx).attributes), tx);
            integrity_tag(StunClass::Request, tx, body, request.remote_credentials.password@)
                != integrity_tag(StunClass::Request, tx, body, password)
        }),
    ensures
        ({
            let sent = encoded(
                check_message(request, tx),
                Some(request.remote_credentials.password@),
            );
            responder_reply(sent, peer, ufrag, password) matches Some(reply) && check_outcome(
                reply,
                request.remote_credentials.password@,
                tx,
            ) is Err
        }),
{
    let used = request.remote_credentials.password@;
    let m = check_message(request, tx);
    law_stun_round_trip(m, Some(used), None);
    law_wrong_password_is_refused(m, used, password);
    lemma_check_received(request, tx, used);
    lemma_reply(
        encoded(m, Some(used)),
        peer,
        ufrag,
        password,
        received(m, Some(used)),
        check_username(request),
    );
    lemma_refusals_fail(tx, password, used);
}

} // verus!
