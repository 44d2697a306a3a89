//! STUN binding messages with short-term credentials, and the ICE connectivity
//! check built from them.
//!
//! A message is a 20-byte header (type, body length, magic cookie, transaction
//! id) and a list of attributes, each padded to four bytes. An encoded message
//! ends in a FINGERPRINT; with a password a MESSAGE-INTEGRITY stands before it.

use crate::bytes::{
    be_bytes, be_value, lemma_be_bytes_len, lemma_byte_ranges, push_all, push_be, read_be, slice_of,
};
use crate::error::{QlinkError, QlinkErrorView, Result, protocol, result_view};
use crate::net::{IpAddr, SocketAddr};
use crate::outside::{
    base64_url, base64_url_encode, crc32, crc32_of, hmac_sha1, hmac_sha1_tag, random_bytes,
    string_from_utf8,
};
use crate::text::{
    before_first, chars_of, decimal, find_char, hex_digits, join2, join3, push_decimal,
    push_hex_digits, string_of,
};
use crate::time::Duration;
use vstd::prelude::*;
use vstd::string::*;
use vstd::utf8::*;

verus! {

pub const HEADER_LEN: usize = 20;

pub const TRANSACTION_ID_LEN: usize = 12;

pub const MAGIC_COOKIE: u32 = 0x2112_A442;

/// The upper half of the magic cookie, which masks ports.
pub const PORT_MASK: u16 = 0x2112;

pub const FINGERPRINT_XOR: u32 = 0x5354_554E;

pub const ATTR_USERNAME: u16 = 0x0006;

pub const ATTR_MESSAGE_INTEGRITY: u16 = 0x0008;

pub const ATTR_ERROR_CODE: u16 = 0x0009;

pub const ATTR_XOR_MAPPED_ADDRESS: u16 = 0x0020;

pub const ATTR_PRIORITY: u16 = 0x0024;

pub const ATTR_USE_CANDIDATE: u16 = 0x0025;

pub const ATTR_FINGERPRINT: u16 = 0x8028;

pub const ATTR_ICE_CONTROLLED: u16 = 0x8029;

pub const ATTR_ICE_CONTROLLING: u16 = 0x802A;

pub const MESSAGE_INTEGRITY_LEN: usize = 20;

pub const FINGERPRINT_LEN: usize = 4;

/// The short-term credentials of one side of a check.
#[derive(Debug, Clone)]
pub struct IceCredentials {
    pub ufrag: String,
    pub password: String,
}

/// The class of a binding message.
#[derive(Debug, Clone, Copy, PartialEq, Eq, Structural)]
pub enum StunClass {
    Request,
    Indication,
    SuccessResponse,
    ErrorResponse,
}

/// One attribute of a message. An attribute that the codec does not know is
/// kept as `Unknown`, with its type code and value.
#[derive(Debug, Clone)]
pub enum StunAttribute {
    Username(String),
    MessageIntegrity([u8; 20]),
    Fingerprint(u32),
    Priority(u32),
    IceControlling(u64),
    IceControlled(u64),
    UseCandidate,
    XorMappedAddress(SocketAddr),
    ErrorCode { code: u16, reason: String },
    Unknown { type_code: u16, value: Vec<u8> },
}

/// A binding request, indication or response.
#[derive(Debug, Clone)]
pub struct StunMessage {
    pub class: StunClass,
    pub transaction_id: [u8; 12],
    pub attributes: Vec<StunAttribute>,
}

// ---------------------------------------------------------------------------
// The model
// ---------------------------------------------------------------------------

/// The model of a [`StunAttribute`].
pub enum StunAttributeView {
    Username(Seq<char>),
    MessageIntegrity(Seq<u8>),
    Fingerprint(u32),
    Priority(u32),
    IceControlling(u64),
    IceControlled(u64),
    UseCandidate,
    XorMappedAddress(SocketAddr),
    ErrorCode { code: u16, reason: Seq<char> },
    Unknown { type_code: u16, value: Seq<u8> },
}

/// The model of a [`StunMessage`].
pub struct StunMessageView {
    pub class: StunClass,
    pub transaction_id: Seq<u8>,
    pub attributes: Seq<StunAttributeView>,
}

impl View for StunAttribute {
    type V = StunAttributeView;

    open spec fn view(&self) -> StunAttributeView {
        match self {
            StunAttribute::Username(s) => StunAttributeView::Username(s@),
            StunAttribute::MessageIntegrity(d) => StunAttributeView::MessageIntegrity(d@),
            StunAttribute::Fingerprint(v) => StunAttributeView::Fingerprint(*v),
            StunAttribute::Priority(v) => StunAttributeView::Priority(*v),
            StunAttribute::IceControlling(v) => StunAttributeView::IceControlling(*v),
            StunAttribute::IceControlled(v) => StunAttributeView::IceControlled(*v),
            StunAttribute::UseCandidate => StunAttributeView::UseCandidate,
            StunAttribute::XorMappedAddress(a) => StunAttributeView::XorMappedAddress(*a),
            StunAttribute::ErrorCode { code, reason } => StunAttributeView::ErrorCode {
                code: *code,
                reason: reason@,
            },
            StunAttribute::Unknown { type_code, value } => StunAttributeView::Unknown {
                type_code: *type_code,
                value: value@,
            },
        }
    }
}

/// The models of a list of attributes.
pub open spec fn attribute_views(attributes: Seq<StunAttribute>) -> Seq<StunAttributeView> {
    Seq::new(attributes.len(), |i: int| attributes[i]@)
}

impl View for StunMessage {
    type V = StunMessageView;

    open spec fn view(&self) -> StunMessageView {
        StunMessageView {
            class: self.class,
            transaction_id: self.transaction_id@,
            attributes: attribute_views(self.attributes@),
        }
    }
}

// ---------------------------------------------------------------------------
// The wire format
// ---------------------------------------------------------------------------

/// The message type of a class of binding message.
pub open spec fn class_type(class: StunClass) -> u16 {
    match class {
        StunClass::Request => 0x0001,
        StunClass::Indication => 0x0011,
        StunClass::SuccessResponse => 0x0101,
        StunClass::ErrorResponse => 0x0111,
    }
}

/// The class that a message type stands for, if it is one.
pub open spec fn class_of_type(value: nat) -> Option<StunClass> {
    if value == 0x0001 {
        Some(StunClass::Request)
    } else if value == 0x0011 {
        Some(StunClass::Indication)
    } else if value == 0x0101 {
        Some(StunClass::SuccessResponse)
    } else if value == 0x0111 {
        Some(StunClass::ErrorResponse)
    } else {
        None
    }
}

/// How many bytes of padding follow a value.
pub open spec fn padding(value_len: nat) -> nat {
    ((4 - value_len % 4) % 4) as nat
}

/// `len` zero bytes.
pub open spec fn zeros(len: nat) -> Seq<u8> {
    Seq::new(len, |i: int| 0u8)
}

/// What an IPv6 address is masked with.
pub open spec fn address_mask(transaction_id: Seq<u8>) -> Seq<u8> {
    be_bytes(MAGIC_COOKIE as nat, 4) + transaction_id
}

/// Two byte strings of length 16, combined bit by bit with exclusive or.
pub open spec fn xor16(a: Seq<u8>, b: Seq<u8>) -> Seq<u8> {
    Seq::new(16, |i: int| a[i] ^ b[i])
}

/// The value of an XOR-MAPPED-ADDRESS attribute.
pub open spec fn xor_address_value(addr: SocketAddr, transaction_id: Seq<u8>) -> Seq<u8> {
    match addr.ip {
        IpAddr::V4(ip) => seq![0u8, 1u8] + be_bytes((addr.port ^ PORT_MASK) as nat, 2) + be_bytes(
            (ip ^ MAGIC_COOKIE) as nat,
            4,
        ),
        IpAddr::V6(ip) => seq![0u8, 2u8] + be_bytes((addr.port ^ PORT_MASK) as nat, 2) + xor16(
            be_bytes(ip as nat, 16),
            address_mask(transaction_id),
        ),
    }
}

/// The type code of an attribute.
pub open spec fn attribute_type(a: StunAttributeView) -> u16 {
    match a {
        StunAttributeView::Username(_) => ATTR_USERNAME,
        StunAttributeView::MessageIntegrity(_) => ATTR_MESSAGE_INTEGRITY,
        StunAttributeView::Fingerprint(_) => ATTR_FINGERPRINT,
        StunAttributeView::Priority(_) => ATTR_PRIORITY,
        StunAttributeView::IceControlling(_) => ATTR_ICE_CONTROLLING,
        StunAttributeView::IceControlled(_) => ATTR_ICE_CONTROLLED,
        StunAttributeView::UseCandidate => ATTR_USE_CANDIDATE,
        StunAttributeView::XorMappedAddress(_) => ATTR_XOR_MAPPED_ADDRESS,
        StunAttributeView::ErrorCode { code, reason } => ATTR_ERROR_CODE,
        StunAttributeView::Unknown { type_code, value } => type_code,
    }
}

/// The value bytes of an attribute.
pub open spec fn attribute_value(a: StunAttributeView, transaction_id: Seq<u8>) -> Seq<u8> {
    match a {
        StunAttributeView::Username(name) => encode_utf8(name),
        StunAttributeView::MessageIntegrity(digest) => digest,
        StunAttributeView::Fingerprint(crc) => be_bytes(crc as nat, 4),
        StunAttributeView::Priority(value) => be_bytes(value as nat, 4),
        StunAttributeView::IceControlling(value) => be_bytes(value as nat, 8),
        StunAttributeView::IceControlled(value) => be_bytes(value as nat, 8),
        StunAttributeView::UseCandidate => Seq::empty(),
        StunAttributeView::XorMappedAddress(addr) => xor_address_value(addr, transaction_id),
        StunAttributeView::ErrorCode { code, reason } => seq![
            0u8,
            0u8,
            ((code / 100) % 8) as u8,
            (code % 100) as u8,
        ] + encode_utf8(reason),
        StunAttributeView::Unknown { type_code, value } => value,
    }
}

/// A type code, the value's length, the value and its padding.
pub open spec fn framed(type_code: u16, value: Seq<u8>) -> Seq<u8> {
    be_bytes(type_code as nat, 2) + be_bytes(value.len(), 2) + value + zeros(padding(value.len()))
}

/// Attributes that an encoder makes afresh in place of stored ones.
pub open spec fn is_recomputed(a: StunAttributeView) -> bool {
    a is MessageIntegrity || a is Fingerprint
}

/// The attributes that an encoder writes as they stand.
pub open spec fn payload(attributes: Seq<StunAttributeView>) -> Seq<StunAttributeView>
    decreases attributes.len(),
{
    if attributes.len() == 0 {
        Seq::empty()
    } else if is_recomputed(attributes.last()) {
        payload(attributes.drop_last())
    } else {
        payload(attributes.drop_last()).push(attributes.last())
    }
}

/// A list of attributes on the wire.
pub open spec fn body_wire(attributes: Seq<StunAttributeView>, transaction_id: Seq<u8>) -> Seq<u8>
    decreases attributes.len(),
{
    if attributes.len() == 0 {
        Seq::empty()
    } else {
        let a = attributes.last();
        body_wire(attributes.drop_last(), transaction_id) + framed(
            attribute_type(a),
            attribute_value(a, transaction_id),
        )
    }
}

/// A header that announces `body_len` bytes.
pub open spec fn header_wire(class: StunClass, body_len: nat, transaction_id: Seq<u8>) -> Seq<u8> {
    be_bytes(class_type(class) as nat, 2) + be_bytes(body_len, 2) + be_bytes(
        MAGIC_COOKIE as nat,
        4,
    ) + transaction_id
}

/// The integrity tag over a body: keyed by the password, over a header that
/// already counts the tag.
pub open spec fn integrity_tag(
    class: StunClass,
    transaction_id: Seq<u8>,
    body: Seq<u8>,
    password: Seq<char>,
) -> Seq<u8> {
    hmac_sha1(encode_utf8(password), header_wire(class, body.len() + 24, transaction_id) + body)@
}

/// The body with the integrity attribute, where there is a password.
pub open spec fn signed_body(
    class: StunClass,
    transaction_id: Seq<u8>,
    body: Seq<u8>,
    password: Option<Seq<char>>,
) -> Seq<u8> {
    match password {
        None => body,
        Some(p) => body + framed(
            ATTR_MESSAGE_INTEGRITY,
            integrity_tag(class, transaction_id, body, p),
        ),
    }
}

/// The checksum over a body: over a header that already counts the checksum.
pub open spec fn fingerprint_of(class: StunClass, transaction_id: Seq<u8>, body: Seq<u8>) -> u32 {
    crc32(header_wire(class, body.len() + 8, transaction_id) + body) ^ FINGERPRINT_XOR
}

/// A message on the wire.
pub open spec fn encoded(m: StunMessageView, password: Option<Seq<char>>) -> Seq<u8> {
    let signed = signed_body(
        m.class,
        m.transaction_id,
        body_wire(payload(m.attributes), m.transaction_id),
        password,
    );
    header_wire(m.class, signed.len() + 8, m.transaction_id) + signed + framed(
        ATTR_FINGERPRINT,
        be_bytes(fingerprint_of(m.class, m.transaction_id, signed) as nat, 4),
    )
}

/// The view of an optional password.
pub open spec fn password_view(password: Option<&str>) -> Option<Seq<char>> {
    match password {
        Some(p) => Some(p@),
        None => None,
    }
}

// ---------------------------------------------------------------------------
// Encoding
// ---------------------------------------------------------------------------

impl StunClass {
    pub fn message_type(self) -> (t: u16)
        ensures
            t == class_type(self),
    {
        match self {
            StunClass::Request => 0x0001,
            StunClass::Indication => 0x0011,
            StunClass::SuccessResponse => 0x0101,
            StunClass::ErrorResponse => 0x0111,
        }
    }

    pub fn from_message_type(value: u16) -> (r: Result<StunClass>)
        ensures
            match class_of_type(value as nat) {
                Some(class) => r == Ok::<StunClass, QlinkError>(class),
                None => r matches Err(e) && e@ == unsupported_type(value as nat),
            },
    {
        match value {
            0x0001 => Ok(StunClass::Request),
            0x0011 => Ok(StunClass::Indication),
            0x0101 => Ok(StunClass::SuccessResponse),
            0x0111 => Ok(StunClass::ErrorResponse),
            other => {
                let mut text = "unsupported STUN message type 0x".to_owned();
                push_hex_digits(&mut text, other as u64, 4);
                Err(QlinkError::Protocol(text))
            },
        }
    }
}

/// The refusal of a message type.
pub open spec fn unsupported_type(value: nat) -> QlinkErrorView {
    QlinkErrorView::Protocol("unsupported STUN message type 0x"@ + hex_digits(value, 4))
}

/// How many bytes of padding follow a value of the given length.
pub fn padding_len(value_len: usize) -> (n: usize)
    ensures
        n == padding(value_len as nat),
{
    (4 - (value_len % 4)) % 4
}

/// Appends a type code, the value's length, the value and its padding.
pub fn push_attribute(buffer: &mut Vec<u8>, type_code: u16, value: &[u8])
    ensures
        final(buffer)@ == old(buffer)@ + framed(type_code, value@),
{
    push_be(buffer, type_code as u128, 2);
    push_be(buffer, value.len() as u128, 2);
    push_all(buffer, value);
    let pad: usize = padding_len(value.len());
    let ghost start = buffer@;
    let mut i: usize = 0;
    while i < pad
        invariant
            i <= pad,
            buffer@ == start + zeros(i as nat),
        decreases pad - i,
    {
        buffer.push(0);
        i = i + 1;
        assert(buffer@ =~= start + zeros(i as nat));
    }
    assert(buffer@ =~= old(buffer)@ + framed(type_code, value@));
}

/// The mask of IPv6 addresses.
fn mask_of(transaction_id: &[u8; 12]) -> (mask: Vec<u8>)
    ensures
        mask@ == address_mask(transaction_id@),
        mask@.len() == 16,
{
    let mut mask: Vec<u8> = Vec::new();
    push_be(&mut mask, MAGIC_COOKIE as u128, 4);
    proof {
        lemma_be_bytes_len(MAGIC_COOKIE as nat, 4);
    }
    push_all(&mut mask, transaction_id.as_slice());
    assert(mask@ =~= address_mask(transaction_id@));
    mask
}

/// Two byte strings of length 16, combined with exclusive or.
fn xor_bytes16(a: &[u8], b: &[u8]) -> (out: Vec<u8>)
    requires
        a@.len() == 16,
        b@.len() == 16,
    ensures
        out@ == xor16(a@, b@),
{
    let mut out: Vec<u8> = Vec::new();
    let mut i: usize = 0;
    while i < 16
        invariant
            i <= 16,
            a@.len() == 16,
            b@.len() == 16,
            out@.len() == i,
            forall|j: int| 0 <= j < i ==> out@[j] == a@[j] ^ b@[j],
        decreases 16 - i,
    {
        out.push(a[i] ^ b[i]);
        i = i + 1;
    }
    assert(out@ =~= xor16(a@, b@));
    out
}

/// The value of an XOR-MAPPED-ADDRESS attribute.
pub fn encode_xor_mapped_address(addr: SocketAddr, transaction_id: [u8; 12]) -> (value: Vec<u8>)
    ensures
        value@ == xor_address_value(addr, transaction_id@),
{
    let mut value: Vec<u8> = Vec::new();
    value.push(0);
    let port_xor: u16 = addr.port ^ PORT_MASK;
    match addr.ip {
        IpAddr::V4(ip) => {
            value.push(1);
            push_be(&mut value, port_xor as u128, 2);
            push_be(&mut value, (ip ^ MAGIC_COOKIE) as u128, 4);
        },
        IpAddr::V6(ip) => {
            value.push(2);
            push_be(&mut value, port_xor as u128, 2);
            let mut octets: Vec<u8> = Vec::new();
            push_be(&mut octets, ip, 16);
            proof {
                lemma_be_bytes_len(ip as nat, 16);
            }
            assert(octets@ =~= be_bytes(ip as nat, 16));
            let mask = mask_of(&transaction_id);
            let xored = xor_bytes16(octets.as_slice(), mask.as_slice());
            push_all(&mut value, xored.as_slice());
        },
    }
    assert(value@ =~= xor_address_value(addr, transaction_id@));
    value
}

/// Appends an attribute; stored integrity and fingerprint attributes are left
/// out.
pub fn encode_attribute(buffer: &mut Vec<u8>, attr: &StunAttribute, transaction_id: &[u8; 12])
    ensures
        is_recomputed(attr@) ==> final(buffer)@ == old(buffer)@,
        !is_recomputed(attr@) ==> final(buffer)@ == old(buffer)@ + framed(
            attribute_type(attr@),
            attribute_value(attr@, transaction_id@),
        ),
{
    let mut value: Vec<u8> = Vec::new();
    match attr {
        StunAttribute::Username(name) => {
            push_all(&mut value, name.as_str().as_bytes());
            assert(value@ =~= attribute_value(attr@, transaction_id@));
            push_attribute(buffer, ATTR_USERNAME, value.as_slice());
        },
        StunAttribute::Priority(v) => {
            push_be(&mut value, *v as u128, 4);
            assert(value@ =~= attribute_value(attr@, transaction_id@));
            push_attribute(buffer, ATTR_PRIORITY, value.as_slice());
        },
        StunAttribute::IceControlling(v) => {
            push_be(&mut value, *v as u128, 8);
            assert(value@ =~= attribute_value(attr@, transaction_id@));
            push_attribute(buffer, ATTR_ICE_CONTROLLING, value.as_slice());
        },
        StunAttribute::IceControlled(v) => {
            push_be(&mut value, *v as u128, 8);
            assert(value@ =~= attribute_value(attr@, transaction_id@));
            push_attribute(buffer, ATTR_ICE_CONTROLLED, value.as_slice());
        },
        StunAttribute::UseCandidate => {
            assert(value@ =~= attribute_value(attr@, transaction_id@));
            push_attribute(buffer, ATTR_USE_CANDIDATE, value.as_slice());
        },
        StunAttribute::XorMappedAddress(addr) => {
            let encoded_addr = encode_xor_mapped_address(*addr, *transaction_id);
            push_attribute(buffer, ATTR_XOR_MAPPED_ADDRESS, encoded_addr.as_slice());
        },
        StunAttribute::ErrorCode { code, reason } => {
            value.push(0);
            value.push(0);
            value.push(((*code / 100) % 8) as u8);
            value.push((*code % 100) as u8);
            push_all(&mut value, reason.as_str().as_bytes());
            assert(value@ =~= attribute_value(attr@, transaction_id@));
            push_attribute(buffer, ATTR_ERROR_CODE, value.as_slice());
        },
        StunAttribute::Unknown { type_code, value: raw } => {
            push_attribute(buffer, *type_code, raw.as_slice());
        },
        StunAttribute::MessageIntegrity(_) | StunAttribute::Fingerprint(_) => {},
    }
}

/// The integrity tag of a buffer under a password.
pub fn compute_message_integrity(buffer: &[u8], password: &str) -> (tag: [u8; 20])
    ensures
        tag == hmac_sha1(encode_utf8(password@), buffer@),
{
    hmac_sha1_tag(password.as_bytes(), buffer)
}

/// A header that announces `body_len` bytes, followed by a body.
fn with_header(class: StunClass, body_len: u128, transaction_id: &[u8; 12], body: &[u8]) -> (v: Vec<
    u8,
>)
    ensures
        v@ == header_wire(class, body_len as nat, transaction_id@) + body@,
{
    let mut v: Vec<u8> = Vec::new();
    push_be(&mut v, class.message_type() as u128, 2);
    push_be(&mut v, body_len, 2);
    push_be(&mut v, MAGIC_COOKIE as u128, 4);
    push_all(&mut v, transaction_id.as_slice());
    push_all(&mut v, body);
    assert(v@ =~= header_wire(class, body_len as nat, transaction_id@) + body@);
    v
}

impl StunMessage {
    pub fn new_binding_request(transaction_id: [u8; 12]) -> (m: StunMessage)
        ensures
            m.class == StunClass::Request,
            m.transaction_id == transaction_id,
            m.attributes@.len() == 0,
    {
        StunMessage { class: StunClass::Request, transaction_id, attributes: Vec::new() }
    }

    pub fn new_binding_success_response(transaction_id: [u8; 12]) -> (m: StunMessage)
        ensures
            m.class == StunClass::SuccessResponse,
            m.transaction_id == transaction_id,
            m.attributes@.len() == 0,
    {
        StunMessage { class: StunClass::SuccessResponse, transaction_id, attributes: Vec::new() }
    }

    pub fn new_binding_error_response(transaction_id: [u8; 12]) -> (m: StunMessage)
        ensures
            m.class == StunClass::ErrorResponse,
            m.transaction_id == transaction_id,
            m.attributes@.len() == 0,
    {
        StunMessage { class: StunClass::ErrorResponse, transaction_id, attributes: Vec::new() }
    }

    /// Appends an attribute and hands the message back for further calls.
    pub fn add(&mut self, attr: StunAttribute) -> (m: &mut StunMessage)
        ensures
            m.class == old(self).class,
            m.transaction_id == old(self).transaction_id,
            m.attributes@ == old(self).attributes@.push(attr),
            *final(self) == *final(m),
    {
        self.attributes.push(attr);
        self
    }

    /// Encodes the message. With a password an integrity attribute is made; a
    /// fingerprint always ends the message. Stored integrity and fingerprint
    /// attributes are left out.
    pub fn encode(&self, mi_password: Option<&str>) -> (wire: Vec<u8>)
        ensures
            wire@ == encoded(self@, password_view(mi_password)),
    {
        let ghost tx = self.transaction_id@;
        let ghost views = attribute_views(self.attributes@);
        let mut body: Vec<u8> = Vec::new();
        let mut i: usize = 0;
        assert(views.subrange(0, 0) =~= Seq::empty());
        while i < self.attributes.len()
            invariant
                i <= self.attributes.len(),
                tx == self.transaction_id@,
                views == attribute_views(self.attributes@),
                body@ == body_wire(payload(views.subrange(0, i as int)), tx),
            decreases self.attributes.len() - i,
        {
            let ghost before = views.subrange(0, i as int);
            let ghost after = views.subrange(0, i + 1);
            assert(after.drop_last() =~= before);
            assert(after.last() == self.attributes@[i as int]@);
            encode_attribute(&mut body, &self.attributes[i], &self.transaction_id);
            proof {
                if !is_recomputed(after.last()) {
                    let p = payload(after);
                    assert(p.drop_last() =~= payload(before));
                    assert(p.last() == after.last());
                }
            }
            i = i + 1;
        }
        assert(views.subrange(0, i as int) =~= views);
        let ghost plain = body@;
        if let Some(password) = mi_password {
            let hashed = with_header(
                self.class,
                body.len() as u128 + 24,
                &self.transaction_id,
                body.as_slice(),
            );
            let digest = compute_message_integrity(hashed.as_slice(), password);
            push_attribute(&mut body, ATTR_MESSAGE_INTEGRITY, digest.as_slice());
        }
        assert(body@ == signed_body(self.class, tx, plain, password_view(mi_password)));
        let mut wire = with_header(
            self.class,
            body.len() as u128 + 8,
            &self.transaction_id,
            body.as_slice(),
        );
        let crc: u32 = crc32_of(wire.as_slice()) ^ FINGERPRINT_XOR;
        let mut crc_bytes: Vec<u8> = Vec::new();
        push_be(&mut crc_bytes, crc as u128, 4);
        assert(crc_bytes@ =~= be_bytes(crc as nat, 4));
        push_attribute(&mut wire, ATTR_FINGERPRINT, crc_bytes.as_slice());
        wire
    }
}

// ---------------------------------------------------------------------------
// Decoding
// ---------------------------------------------------------------------------

/// The address in the value of an XOR-MAPPED-ADDRESS attribute, or why there is
/// none.
pub open spec fn parsed_xor_address(value: Seq<u8>, transaction_id: Seq<u8>) -> Result<
    SocketAddr,
    Seq<char>,
> {
    if value.len() < 4 || value[0] != 0 {
        Err("invalid XOR-MAPPED-ADDRESS header"@)
    } else {
        let port = (be_value(value.subrange(2, 4)) as u16) ^ PORT_MASK;
        if value[1] == 1 {
            if value.len() < 8 {
                Err("truncated IPv4 XOR-MAPPED-ADDRESS"@)
            } else {
                let ip = (be_value(value.subrange(4, 8)) as u32) ^ MAGIC_COOKIE;
                Ok(SocketAddr { ip: IpAddr::V4(ip), port })
            }
        } else if value[1] == 2 {
            if value.len() < 20 {
                Err("truncated IPv6 XOR-MAPPED-ADDRESS"@)
            } else {
                let octets = xor16(value.subrange(4, 20), address_mask(transaction_id));
                Ok(SocketAddr { ip: IpAddr::V6(be_value(octets) as u128), port })
            }
        } else {
            Err("unsupported XOR-MAPPED-ADDRESS family: "@ + decimal(value[1] as nat))
        }
    }
}

/// The attribute that a type code and a value stand for, or why they stand for
/// none.
pub open spec fn parsed_attribute(
    type_code: nat,
    value: Seq<u8>,
    transaction_id: Seq<u8>,
) -> Result<StunAttributeView, Seq<char>> {
    if type_code == ATTR_USERNAME {
        if valid_utf8(value) {
            Ok(StunAttributeView::Username(decode_utf8(value)))
        } else {
            Err("STUN USERNAME is not UTF-8"@)
        }
    } else if type_code == ATTR_MESSAGE_INTEGRITY {
        if value.len() == 20 {
            Ok(StunAttributeView::MessageIntegrity(value))
        } else {
            Err("MESSAGE-INTEGRITY length must be 20 bytes"@)
        }
    } else if type_code == ATTR_FINGERPRINT {
        if value.len() == 4 {
            Ok(StunAttributeView::Fingerprint(be_value(value) as u32))
        } else {
            Err("FINGERPRINT length must be 4 bytes"@)
        }
    } else if type_code == ATTR_PRIORITY {
        if value.len() == 4 {
            Ok(StunAttributeView::Priority(be_value(value) as u32))
        } else {
            Err("PRIORITY length must be 4 bytes"@)
        }
    } else if type_code == ATTR_USE_CANDIDATE {
        if value.len() == 0 {
            Ok(StunAttributeView::UseCandidate)
        } else {
            Err("USE-CANDIDATE must be empty"@)
        }
    } else if type_code == ATTR_ICE_CONTROLLING || type_code == ATTR_ICE_CONTROLLED {
        if value.len() != 8 {
            Err("ICE-CONTROLLING/CONTROLLED must be 8 bytes"@)
        } else if type_code == ATTR_ICE_CONTROLLING {
            Ok(StunAttributeView::IceControlling(be_value(value) as u64))
        } else {
            Ok(StunAttributeView::IceControlled(be_value(value) as u64))
        }
    } else if type_code == ATTR_XOR_MAPPED_ADDRESS {
        match parsed_xor_address(value, transaction_id) {
            Ok(addr) => Ok(StunAttributeView::XorMappedAddress(addr)),
            Err(e) => Err(e),
        }
    } else if type_code == ATTR_ERROR_CODE {
        if value.len() < 4 {
            Err("ERROR-CODE too short"@)
        } else if !valid_utf8(value.subrange(4, value.len() as int)) {
            Err("ERROR-CODE reason not UTF-8"@)
        } else {
            Ok(
                StunAttributeView::ErrorCode {
                    code: ((value[2] % 8) * 100 + value[3]) as u16,
                    reason: decode_utf8(value.subrange(4, value.len() as int)),
                },
            )
        }
    } else {
        Ok(StunAttributeView::Unknown { type_code: type_code as u16, value })
    }
}

/// An attribute and the offset of its type code in the message.
pub struct Located {
    pub at: nat,
    pub attr: StunAttributeView,
}

/// The attributes that stand in a message from `at` up to `total`, or why they
/// cannot be read.
pub open spec fn walked(bytes: Seq<u8>, total: nat, at: nat, transaction_id: Seq<u8>) -> Result<
    Seq<Located>,
    Seq<char>,
>
    decreases total - at,
{
    if at >= total {
        Ok(Seq::empty())
    } else if at + 4 > total {
        Err("truncated STUN attribute header"@)
    } else {
        let len = be_value(bytes.subrange(at as int + 2, at as int + 4));
        let end = at + 4 + len;
        if end > total {
            Err("truncated STUN attribute value"@)
        } else {
            match parsed_attribute(
                be_value(bytes.subrange(at as int, at as int + 2)),
                bytes.subrange(at as int + 4, end as int),
                transaction_id,
            ) {
                Err(e) => Err(e),
                Ok(attr) => after_first(
                    Located { at, attr },
                    walked(bytes, total, next_offset(end, len, total), transaction_id),
                ),
            }
        }
    }
}

/// Where the next attribute starts: padding may be missing at the very end.
pub open spec fn next_offset(end: nat, len: nat, total: nat) -> nat {
    if end + padding(len) < total {
        end + padding(len)
    } else {
        total
    }
}

pub open spec fn after_first(first: Located, rest: Result<Seq<Located>, Seq<char>>) -> Result<
    Seq<Located>,
    Seq<char>,
> {
    match rest {
        Ok(items) => Ok(seq![first] + items),
        Err(e) => Err(e),
    }
}

pub open spec fn after_all(first: Seq<Located>, rest: Result<Seq<Located>, Seq<char>>) -> Result<
    Seq<Located>,
    Seq<char>,
> {
    match rest {
        Ok(items) => Ok(first + items),
        Err(e) => Err(e),
    }
}

/// The attributes without their offsets.
pub open spec fn attributes_of(items: Seq<Located>) -> Seq<StunAttributeView> {
    Seq::new(items.len(), |i: int| items[i].attr)
}

/// The offset of the last integrity attribute.
pub open spec fn last_integrity(items: Seq<Located>) -> Option<nat>
    decreases items.len(),
{
    if items.len() == 0 {
        None
    } else if items.last().attr is MessageIntegrity {
        Some(items.last().at)
    } else {
        last_integrity(items.drop_last())
    }
}

/// The tag in the first integrity attribute.
pub open spec fn first_tag(items: Seq<Located>) -> Option<Seq<u8>>
    decreases items.len(),
{
    if items.len() == 0 {
        None
    } else {
        match first_tag(items.drop_last()) {
            Some(tag) => Some(tag),
            None => match items.last().attr {
                StunAttributeView::MessageIntegrity(tag) => Some(tag),
                _ => None,
            },
        }
    }
}

/// The offset and value of the last fingerprint attribute.
pub open spec fn last_fingerprint(items: Seq<Located>) -> Option<(nat, u32)>
    decreases items.len(),
{
    if items.len() == 0 {
        None
    } else {
        match items.last().attr {
            StunAttributeView::Fingerprint(crc) => Some((items.last().at, crc)),
            _ => last_fingerprint(items.drop_last()),
        }
    }
}

/// The message up to `end`, with its length field set to `body_len`.
pub open spec fn relengthed(bytes: Seq<u8>, end: nat, body_len: nat) -> Seq<u8> {
    bytes.subrange(0, 2) + be_bytes(body_len, 2) + bytes.subrange(4, end as int)
}

/// The last fingerprint, if there is one, is that of the bytes before it.
pub open spec fn fingerprint_holds(bytes: Seq<u8>, items: Seq<Located>) -> bool {
    match last_fingerprint(items) {
        None => true,
        Some((at, crc)) => crc == crc32(relengthed(bytes, at, (at + 8 - 20) as nat))
            ^ FINGERPRINT_XOR,
    }
}

/// Why the integrity of a message is refused, if it is: the tag that was found
/// first is compared with that of the bytes before the last one.
pub open spec fn integrity_refusal(
    bytes: Seq<u8>,
    items: Seq<Located>,
    password: Option<Seq<char>>,
) -> Option<Seq<char>> {
    match password {
        None => None,
        Some(p) => match last_integrity(items) {
            None => Some(
                "STUN message has no MESSAGE-INTEGRITY attribute but caller required one"@,
            ),
            Some(at) => if first_tag(items) == Some(
                hmac_sha1(encode_utf8(p), relengthed(bytes, at, (at + 24 - 20) as nat))@,
            ) {
                None
            } else {
                Some("STUN MESSAGE-INTEGRITY verification failed"@)
            },
        },
    }
}

/// The message in a datagram, or why there is none. Bytes past the announced
/// length are not looked at.
pub open spec fn decoded(bytes: Seq<u8>, password: Option<Seq<char>>) -> Result<
    StunMessageView,
    QlinkErrorView,
> {
    if bytes.len() < 20 {
        Err(QlinkErrorView::Protocol("STUN message too short"@))
    } else {
        match class_of_type(be_value(bytes.subrange(0, 2))) {
            None => Err(unsupported_type(be_value(bytes.subrange(0, 2)))),
            Some(class) => {
                let body_len = be_value(bytes.subrange(2, 4));
                let tx = bytes.subrange(8, 20);
                if bytes.len() < 20 + body_len {
                    Err(
                        QlinkErrorView::Protocol(
                            "STUN body claims "@ + decimal(body_len) + " bytes but message is "@
                                + decimal((bytes.len() - 20) as nat) + " bytes"@,
                        ),
                    )
                } else if be_value(bytes.subrange(4, 8)) != MAGIC_COOKIE {
                    Err(QlinkErrorView::Protocol("invalid STUN magic cookie"@))
                } else {
                    match walked(bytes, 20 + body_len, 20, tx) {
                        Err(e) => Err(QlinkErrorView::Protocol(e)),
                        Ok(items) => if !fingerprint_holds(bytes, items) {
                            Err(QlinkErrorView::Protocol("STUN FINGERPRINT validation failed"@))
                        } else {
                            match integrity_refusal(bytes, items, password) {
                                Some(e) => Err(QlinkErrorView::Protocol(e)),
                                None => Ok(
                                    StunMessageView {
                                        class,
                                        transaction_id: tx,
                                        attributes: attributes_of(items),
                                    },
                                ),
                            }
                        },
                    }
                }
            },
        }
    }
}

/// The address in the value of an XOR-MAPPED-ADDRESS attribute.
pub fn parse_xor_mapped_address(value: &[u8], transaction_id: [u8; 12]) -> (r: Result<SocketAddr>)
    ensures
        match parsed_xor_address(value@, transaction_id@) {
            Ok(addr) => r == Ok::<SocketAddr, QlinkError>(addr),
            Err(text) => r matches Err(e) && e@ == QlinkErrorView::Protocol(text),
        },
{
    proof {
        lemma_byte_ranges();
    }
    if value.len() < 4 || value[0] != 0 {
        return Err(protocol("invalid XOR-MAPPED-ADDRESS header"));
    }
    let port: u16 = read_be(value, 2, 2) as u16 ^ PORT_MASK;
    if value[1] == 1 {
        if value.len() < 8 {
            return Err(protocol("truncated IPv4 XOR-MAPPED-ADDRESS"));
        }
        let masked: u32 = read_be(value, 4, 4) as u32;
        Ok(SocketAddr { ip: IpAddr::V4(masked ^ MAGIC_COOKIE), port })
    } else if value[1] == 2 {
        if value.len() < 20 {
            return Err(protocol("truncated IPv6 XOR-MAPPED-ADDRESS"));
        }
        let masked = slice_of(value, 4, 20);
        let mask = mask_of(&transaction_id);
        let octets = xor_bytes16(masked.as_slice(), mask.as_slice());
        let ip: u128 = read_be(octets.as_slice(), 0, 16);
        assert(octets@.subrange(0, 16) =~= octets@);
        Ok(SocketAddr { ip: IpAddr::V6(ip), port })
    } else {
        let mut text = "unsupported XOR-MAPPED-ADDRESS family: ".to_owned();
        push_decimal(&mut text, value[1] as u64);
        Err(QlinkError::Protocol(text))
    }
}

/// The attribute that a type code and a value stand for.
fn decode_attribute(type_code: u16, value: &[u8], transaction_id: [u8; 12]) -> (r: Result<
    StunAttribute,
>)
    ensures
        match parsed_attribute(type_code as nat, value@, transaction_id@) {
            Ok(attr) => r matches Ok(a) && a@ == attr,
            Err(text) => r matches Err(e) && e@ == QlinkErrorView::Protocol(text),
        },
{
    proof {
        lemma_byte_ranges();
        assert(value@.subrange(0, value@.len() as int) =~= value@);
    }
    if type_code == ATTR_USERNAME {
        match string_from_utf8(slice_of(value, 0, value.len())) {
            Some(name) => Ok(StunAttribute::Username(name)),
            None => Err(protocol("STUN USERNAME is not UTF-8")),
        }
    } else if type_code == ATTR_MESSAGE_INTEGRITY {
        if value.len() != 20 {
            return Err(protocol("MESSAGE-INTEGRITY length must be 20 bytes"));
        }
        let mut digest: [u8; 20] = [0u8;20];
        let mut i: usize = 0;
        while i < 20
            invariant
                i <= 20,
                value@.len() == 20,
                forall|j: int| 0 <= j < i ==> digest@[j] == value@[j],
            decreases 20 - i,
        {
            digest[i] = value[i];
            i = i + 1;
        }
        assert(digest@ =~= value@);
        Ok(StunAttribute::MessageIntegrity(digest))
    } else if type_code == ATTR_FINGERPRINT {
        if value.len() != 4 {
            return Err(protocol("FINGERPRINT length must be 4 bytes"));
        }
        Ok(StunAttribute::Fingerprint(read_be(value, 0, 4) as u32))
    } else if type_code == ATTR_PRIORITY {
        if value.len() != 4 {
            return Err(protocol("PRIORITY length must be 4 bytes"));
        }
        Ok(StunAttribute::Priority(read_be(value, 0, 4) as u32))
    } else if type_code == ATTR_USE_CANDIDATE {
        if value.len() != 0 {
            return Err(protocol("USE-CANDIDATE must be empty"));
        }
        Ok(StunAttribute::UseCandidate)
    } else if type_code == ATTR_ICE_CONTROLLING || type_code == ATTR_ICE_CONTROLLED {
        if value.len() != 8 {
            return Err(protocol("ICE-CONTROLLING/CONTROLLED must be 8 bytes"));
        }
        let tiebreaker: u64 = read_be(value, 0, 8) as u64;
        if type_code == ATTR_ICE_CONTROLLING {
            Ok(StunAttribute::IceControlling(tiebreaker))
        } else {
            Ok(StunAttribute::IceControlled(tiebreaker))
        }
    } else if type_code == ATTR_XOR_MAPPED_ADDRESS {
        match parse_xor_mapped_address(value, transaction_id) {
            Ok(addr) => Ok(StunAttribute::XorMappedAddress(addr)),
            Err(e) => Err(e),
        }
    } else if type_code == ATTR_ERROR_CODE {
        if value.len() < 4 {
            return Err(protocol("ERROR-CODE too short"));
        }
        let code: u16 = (value[2] % 8) as u16 * 100 + value[3] as u16;
        match string_from_utf8(slice_of(value, 4, value.len())) {
            Some(reason) => Ok(StunAttribute::ErrorCode { code, reason }),
            None => Err(protocol("ERROR-CODE reason not UTF-8")),
        }
    } else {
        Ok(StunAttribute::Unknown { type_code, value: slice_of(value, 0, value.len()) })
    }
}

/// Compares two tags, looking at every byte whatever the outcome.
pub fn constant_time_eq(a: &[u8; 20], b: &[u8; 20]) -> (same: bool)
    ensures
        same == (a@ == b@),
{
    let mut diff: u8 = 0;
    let mut i: usize = 0;
    while i < 20
        invariant
            i <= 20,
            (diff == 0) == (forall|j: int| 0 <= j < i ==> a@[j] == b@[j]),
        decreases 20 - i,
    {
        let x: u8 = a[i];
        let y: u8 = b[i];
        let before: u8 = diff;
        diff = diff | (x ^ y);
        assert((before | (x ^ y) == 0) == (before == 0 && x == y)) by (bit_vector);
        i = i + 1;
    }
    assert((a@ =~= b@) == (forall|j: int| 0 <= j < 20 ==> a@[j] == b@[j]));
    diff == 0
}

/// The message up to `end`, with its length field set to `body_len`.
fn with_length(bytes: &[u8], end: usize, body_len: usize) -> (v: Vec<u8>)
    requires
        4 <= end <= bytes@.len(),
    ensures
        v@ == relengthed(bytes@, end as nat, body_len as nat),
{
    let mut v = slice_of(bytes, 0, 2);
    push_be(&mut v, body_len as u128, 2);
    let rest = slice_of(bytes, 4, end);
    push_all(&mut v, rest.as_slice());
    v
}

/// Pushing one more attribute keeps the account of a walk.
proof fn lemma_after_all_step(
    before: Seq<Located>,
    item: Located,
    rest: Result<Seq<Located>, Seq<char>>,
)
    ensures
        after_all(before, after_first(item, rest)) == after_all(before.push(item), rest),
{
    match rest {
        Ok(items) => {
            assert(before + (seq![item] + items) =~= before.push(item) + items);
        },
        Err(_) => {},
    }
}

impl StunMessage {
    /// Decodes a message. A fingerprint, where there is one, is always
    /// verified; with a password the integrity tag is required and verified.
    pub fn decode(bytes: &[u8], mi_password: Option<&str>) -> (r: Result<StunMessage>)
        ensures
            result_view(r) == decoded(bytes@, password_view(mi_password)),
    {
        proof {
            lemma_byte_ranges();
        }
        if bytes.len() < HEADER_LEN {
            return Err(protocol("STUN message too short"));
        }
        let message_type: u16 = read_be(bytes, 0, 2) as u16;
        let class = match StunClass::from_message_type(message_type) {
            Ok(class) => class,
            Err(e) => {
                return Err(e);
            },
        };
        let body_len: usize = read_be(bytes, 2, 2) as usize;
        let total: usize = HEADER_LEN + body_len;
        if bytes.len() < total {
            let mut text = "STUN body claims ".to_owned();
            push_decimal(&mut text, body_len as u64);
            text.append(" bytes but message is ");
            push_decimal(&mut text, (bytes.len() - HEADER_LEN) as u64);
            text.append(" bytes");
            return Err(QlinkError::Protocol(text));
        }
        if read_be(bytes, 4, 4) != MAGIC_COOKIE as u128 {
            return Err(protocol("invalid STUN magic cookie"));
        }
        let mut transaction_id: [u8; 12] = [0u8;12];
        let mut i: usize = 0;
        while i < TRANSACTION_ID_LEN
            invariant
                i <= 12,
                bytes@.len() >= 20,
                forall|j: int| 0 <= j < i ==> transaction_id@[j] == bytes@[8 + j],
            decreases 12 - i,
        {
            transaction_id[i] = bytes[8 + i];
            i = i + 1;
        }
        let ghost tx = transaction_id@;
        assert(tx =~= bytes@.subrange(8, 20));

        let mut attributes: Vec<StunAttribute> = Vec::new();
        let mut offset: usize = HEADER_LEN;
        let mut integrity_at: Option<usize> = None;
        let mut tag: Option<[u8; 20]> = None;
        let mut fingerprint: Option<(usize, u32)> = None;
        let ghost mut items: Seq<Located> = Seq::empty();
        proof {
            let all = walked(bytes@, total as nat, 20, tx);
            assert(after_all(items, all) == all) by {
                if let Ok(v) = all {
                    assert(items + v =~= v);
                }
            }
            assert(attribute_views(attributes@) =~= attributes_of(items));
        }
        while offset < total
            invariant
                20 <= offset <= total <= bytes@.len(),
                total == 20 + body_len,
                body_len < 65536,
                body_len == be_value(bytes@.subrange(2, 4)),
                class_of_type(be_value(bytes@.subrange(0, 2))) == Some(class),
                be_value(bytes@.subrange(4, 8)) == MAGIC_COOKIE,
                tx == transaction_id@,
                tx == bytes@.subrange(8, 20),
                walked(bytes@, total as nat, 20, tx) == after_all(
                    items,
                    walked(bytes@, total as nat, offset as nat, tx),
                ),
                attribute_views(attributes@) == attributes_of(items),
                match integrity_at {
                    Some(at) => last_integrity(items) == Some(at as nat) && 20 <= at && at + 24
                        <= total,
                    None => last_integrity(items) is None,
                },
                match tag {
                    Some(t) => first_tag(items) == Some(t@),
                    None => first_tag(items) is None,
                },
                match fingerprint {
                    Some(f) => last_fingerprint(items) == Some((f.0 as nat, f.1)) && 20 <= f.0
                        && f.0 + 8 <= total,
                    None => last_fingerprint(items) is None,
                },
                tag is Some <==> integrity_at is Some,
            decreases total - offset,
        {
            proof {
                lemma_byte_ranges();
            }
            if offset + 4 > total {
                return Err(protocol("truncated STUN attribute header"));
            }
            let attr_type: u16 = read_be(bytes, offset, 2) as u16;
            let attr_len: usize = read_be(bytes, offset + 2, 2) as usize;
            let value_start: usize = offset + 4;
            let value_end: usize = value_start + attr_len;
            if value_end > total {
                return Err(protocol("truncated STUN attribute value"));
            }
            let value = slice_of(bytes, value_start, value_end);
            let attr = match decode_attribute(attr_type, value.as_slice(), transaction_id) {
                Ok(attr) => attr,
                Err(e) => {
                    return Err(e);
                },
            };
            let ghost item = Located { at: offset as nat, attr: attr@ };
            let ghost grown = items.push(item);
            proof {
                assert(grown.drop_last() =~= items);
                assert(grown.last() == item);
            }
            match attr {
                StunAttribute::MessageIntegrity(digest) => {
                    integrity_at = Some(offset);
                    if tag.is_none() {
                        tag = Some(digest);
                    }
                },
                StunAttribute::Fingerprint(crc) => {
                    fingerprint = Some((offset, crc));
                },
                _ => {},
            }
            let ghost old_attributes = attributes@;
            attributes.push(attr);
            let padded_end: usize = value_end + padding_len(attr_len);
            proof {
                let next = next_offset(value_end as nat, attr_len as nat, total as nat);
                lemma_after_all_step(items, item, walked(bytes@, total as nat, next, tx));
                assert(attribute_views(old_attributes).len() == items.len());
                assert forall|k: int| 0 <= k < grown.len() implies attributes@[k]@
                    == grown[k].attr by {
                    if k < items.len() {
                        assert(attribute_views(old_attributes)[k] == attributes_of(items)[k]);
                    }
                }
                assert(attribute_views(attributes@) =~= attributes_of(grown));
                items = grown;
            }
            offset =
            if padded_end < total {
                padded_end
            } else {
                total
            };
        }
        proof {
            assert(walked(bytes@, total as nat, offset as nat, tx) == Ok::<
                Seq<Located>,
                Seq<char>,
            >(Seq::empty()));
            assert(items + Seq::<Located>::empty() =~= items);
        }

        if let Some((at, observed)) = fingerprint {
            let hashed = with_length(bytes, at, at + 8 - HEADER_LEN);
            let expected: u32 = crc32_of(hashed.as_slice()) ^ FINGERPRINT_XOR;
            if expected != observed {
                return Err(protocol("STUN FINGERPRINT validation failed"));
            }
        }
        if let Some(password) = mi_password {
            match (integrity_at, tag) {
                (Some(at), Some(observed)) => {
                    let hashed = with_length(bytes, at, at + 24 - HEADER_LEN);
                    let expected = compute_message_integrity(hashed.as_slice(), password);
                    if !constant_time_eq(&expected, &observed) {
                        return Err(protocol("STUN MESSAGE-INTEGRITY verification failed"));
                    }
                },
                _ => {
                    return Err(
                        protocol(
                            "STUN message has no MESSAGE-INTEGRITY attribute but caller required one",
                        ),
                    );
                },
            }
        }
        Ok(StunMessage { class, transaction_id, attributes })
    }
}

// ---------------------------------------------------------------------------
// Looking up attributes
// ---------------------------------------------------------------------------

/// The address in the first XOR-MAPPED-ADDRESS attribute.
pub open spec fn first_mapped_address(attributes: Seq<StunAttributeView>) -> Option<SocketAddr>
    decreases attributes.len(),
{
    if attributes.len() == 0 {
        None
    } else {
        match attributes[0] {
            StunAttributeView::XorMappedAddress(addr) => Some(addr),
            _ => first_mapped_address(attributes.drop_first()),
        }
    }
}

/// The code and reason in the first ERROR-CODE attribute.
pub open spec fn first_error_code(attributes: Seq<StunAttributeView>) -> Option<(u16, Seq<char>)>
    decreases attributes.len(),
{
    if attributes.len() == 0 {
        None
    } else {
        match attributes[0] {
            StunAttributeView::ErrorCode { code, reason } => Some((code, reason)),
            _ => first_error_code(attributes.drop_first()),
        }
    }
}

/// The name in the first USERNAME attribute.
pub open spec fn first_username(attributes: Seq<StunAttributeView>) -> Option<Seq<char>>
    decreases attributes.len(),
{
    if attributes.len() == 0 {
        None
    } else {
        match attributes[0] {
            StunAttributeView::Username(name) => Some(name),
            _ => first_username(attributes.drop_first()),
        }
    }
}

impl StunMessage {
    pub fn find_xor_mapped_address(&self) -> (r: Option<SocketAddr>)
        ensures
            r == first_mapped_address(self@.attributes),
    {
        let ghost views = self@.attributes;
        let mut i: usize = 0;
        assert(views.skip(0) =~= views);
        while i < self.attributes.len()
            invariant
                i <= self.attributes@.len(),
                views == attribute_views(self.attributes@),
                first_mapped_address(views) == first_mapped_address(views.skip(i as int)),
            decreases self.attributes@.len() - i,
        {
            assert(views.skip(i as int)[0] == self.attributes@[i as int]@);
            assert(views.skip(i as int).drop_first() =~= views.skip(i + 1));
            if let StunAttribute::XorMappedAddress(addr) = &self.attributes[i] {
                return Some(*addr);
            }
            i = i + 1;
        }
        None
    }

    pub fn find_error_code(&self) -> (r: Option<(u16, &str)>)
        ensures
            match first_error_code(self@.attributes) {
                Some((code, reason)) => r matches Some(found) && found.0 == code && found.1@
                    == reason,
                None => r is None,
            },
    {
        let ghost views = self@.attributes;
        let mut i: usize = 0;
        assert(views.skip(0) =~= views);
        while i < self.attributes.len()
            invariant
                i <= self.attributes@.len(),
                views == attribute_views(self.attributes@),
                first_error_code(views) == first_error_code(views.skip(i as int)),
            decreases self.attributes@.len() - i,
        {
            assert(views.skip(i as int)[0] == self.attributes@[i as int]@);
            assert(views.skip(i as int).drop_first() =~= views.skip(i + 1));
            if let StunAttribute::ErrorCode { code, reason } = &self.attributes[i] {
                return Some((*code, reason.as_str()));
            }
            i = i + 1;
        }
        None
    }

    pub fn find_username(&self) -> (r: Option<&str>)
        ensures
            match first_username(self@.attributes) {
                Some(name) => r matches Some(found) && found@ == name,
                None => r is None,
            },
    {
        let ghost views = self@.attributes;
        let mut i: usize = 0;
        assert(views.skip(0) =~= views);
        while i < self.attributes.len()
            invariant
                i <= self.attributes@.len(),
                views == attribute_views(self.attributes@),
                first_username(views) == first_username(views.skip(i as int)),
            decreases self.attributes@.len() - i,
        {
            assert(views.skip(i as int)[0] == self.attributes@[i as int]@);
            assert(views.skip(i as int).drop_first() =~= views.skip(i + 1));
            if let StunAttribute::Username(name) = &self.attributes[i] {
                return Some(name.as_str());
            }
            i = i + 1;
        }
        None
    }
}

// ---------------------------------------------------------------------------
// Connectivity checks
// ---------------------------------------------------------------------------

impl IceCredentials {
    /// The credentials that random bytes stand for.
    pub fn from_entropy(ufrag_bytes: &[u8], password_bytes: &[u8]) -> (c: IceCredentials)
        ensures
            c.ufrag@ == base64_url(ufrag_bytes@),
            c.password@ == base64_url(password_bytes@),
    {
        IceCredentials {
            ufrag: base64_url_encode(ufrag_bytes),
            password: base64_url_encode(password_bytes),
        }
    }

    /// Fresh credentials: 64 random bits of ufrag and 192 of password, each in
    /// URL-safe base64. Which bits come, and whether the system has any to
    /// give, is left to the system's generator.
    pub fn generate() -> (r: Result<IceCredentials>)
        ensures
            match r {
                Ok(c) => {
                    &&& exists|b: Seq<u8>| b.len() == 8 && c.ufrag@ == #[trigger] base64_url(b)
                    &&& exists|b: Seq<u8>|
                        b.len() == 24 && c.password@ == #[trigger] base64_url(b)
                    &&& c.ufrag@.len() == 11
                    &&& c.password@.len() == 32
                },
                Err(e) => exists|reason: Seq<char>| #[trigger] entropy_refusal(e@, reason),
            },
    {
        let ufrag_bytes = match random_bytes(8) {
            Ok(b) => b,
            Err(err) => {
                let e = QlinkError::Crypto(
                    join2("ICE ufrag entropy unavailable: ", err.as_str()),
                );
                assert(entropy_refusal(e@, err@));
                return Err(e);
            },
        };
        let password_bytes = match random_bytes(24) {
            Ok(b) => b,
            Err(err) => {
                let e = QlinkError::Crypto(
                    join2("ICE password entropy unavailable: ", err.as_str()),
                );
                assert(entropy_refusal(e@, err@));
                return Err(e);
            },
        };
        Ok(IceCredentials::from_entropy(ufrag_bytes.as_slice(), password_bytes.as_slice()))
    }
}

/// The refusals of a system without random bits, for the reason it gives.
pub open spec fn entropy_refusal(e: QlinkErrorView, reason: Seq<char>) -> bool {
    ||| e == QlinkErrorView::Crypto("ICE ufrag entropy unavailable: "@ + reason)
    ||| e == QlinkErrorView::Crypto("ICE password entropy unavailable: "@ + reason)
}

/// The transaction id that twelve bytes stand for.
pub fn transaction_id_of(bytes: &[u8]) -> (id: [u8; 12])
    requires
        bytes@.len() == 12,
    ensures
        id@ == bytes@,
{
    let mut id: [u8; 12] = [0u8;12];
    let mut i: usize = 0;
    while i < 12
        invariant
            i <= 12,
            bytes@.len() == 12,
            forall|j: int| 0 <= j < i ==> #[trigger] id@[j] == bytes@[j],
        decreases 12 - i,
    {
        id[i] = bytes[i];
        i = i + 1;
    }
    assert(id@ =~= bytes@);
    id
}

/// A fresh transaction id. Which bytes come is left to the system's generator.
pub fn random_transaction_id() -> (r: Result<[u8; 12]>)
    ensures
        r matches Err(e) ==> exists|reason: Seq<char>|
            e@ == QlinkErrorView::Crypto(
                #[trigger] ("ICE transaction id entropy unavailable: "@ + reason),
            ),
{
    match random_bytes(12) {
        Ok(b) => Ok(transaction_id_of(b.as_slice())),
        Err(err) => Err(
            QlinkError::Crypto(join2("ICE transaction id entropy unavailable: ", err.as_str())),
        ),
    }
}

/// What a connectivity check is made of.
#[derive(Debug, Clone)]
pub struct IceCheckRequest {
    pub remote_credentials: IceCredentials,
    pub local_ufrag: String,
    pub local_priority: u32,
    pub controlling_tiebreaker: u64,
    pub use_candidate: bool,
}

/// What a successful connectivity check found out.
#[derive(Debug, Clone)]
pub struct IceCheckResult {
    pub mapped_address: Option<SocketAddr>,
    pub round_trip: Duration,
}

/// The user name of a check: the two ufrags, the remote one first.
pub open spec fn check_username(request: IceCheckRequest) -> Seq<char> {
    request.remote_credentials.ufrag@ + ":"@ + request.local_ufrag@
}

/// The message of a check.
pub open spec fn check_message(request: IceCheckRequest, transaction_id: Seq<u8>) -> StunMessageView {
    let base = seq![
        StunAttributeView::Username(check_username(request)),
        StunAttributeView::Priority(request.local_priority),
        StunAttributeView::IceControlling(request.controlling_tiebreaker),
    ];
    StunMessageView {
        class: StunClass::Request,
        transaction_id,
        attributes: if request.use_candidate {
            base.push(StunAttributeView::UseCandidate)
        } else {
            base
        },
    }
}

/// The datagram of a check: authenticated with the remote side's password.
pub fn encode_ice_check(request: &IceCheckRequest, transaction_id: [u8; 12]) -> (wire: Vec<u8>)
    ensures
        wire@ == encoded(
            check_message(*request, transaction_id@),
            Some(request.remote_credentials.password@),
        ),
{
    let username = join3(
        request.remote_credentials.ufrag.as_str(),
        ":",
        request.local_ufrag.as_str(),
    );
    let mut message = StunMessage::new_binding_request(transaction_id);
    message.attributes.push(StunAttribute::Username(username));
    message.attributes.push(StunAttribute::Priority(request.local_priority));
    message.attributes.push(StunAttribute::IceControlling(request.controlling_tiebreaker));
    if request.use_candidate {
        message.attributes.push(StunAttribute::UseCandidate);
    }
    assert(message@.attributes =~= check_message(*request, transaction_id@).attributes);
    message.encode(Some(request.remote_credentials.password.as_str()))
}

/// The name of a class.
pub open spec fn class_name(class: StunClass) -> Seq<char> {
    match class {
        StunClass::Request => "Request"@,
        StunClass::Indication => "Indication"@,
        StunClass::SuccessResponse => "SuccessResponse"@,
        StunClass::ErrorResponse => "ErrorResponse"@,
    }
}

/// What an answer to a check means: the address that the peer saw, or why the
/// check failed.
pub open spec fn check_outcome(
    datagram: Seq<u8>,
    password: Seq<char>,
    transaction_id: Seq<u8>,
) -> Result<Option<SocketAddr>, QlinkErrorView> {
    match decoded(datagram, Some(password)) {
        Err(e) => Err(e),
        Ok(m) => if m.transaction_id != transaction_id {
            Err(QlinkErrorView::Protocol("ICE response transaction id mismatch"@))
        } else {
            match m.class {
                StunClass::SuccessResponse => Ok(first_mapped_address(m.attributes)),
                StunClass::ErrorResponse => {
                    let (code, reason) = match first_error_code(m.attributes) {
                        Some(found) => found,
                        None => (0u16, "unspecified error"@),
                    };
                    Err(
                        QlinkErrorView::Protocol(
                            "ICE error response: "@ + decimal(code as nat) + " "@ + reason,
                        ),
                    )
                },
                other => Err(
                    QlinkErrorView::Protocol("unexpected ICE response class "@ + class_name(other)),
                ),
            }
        },
    }
}

/// Judges the answer to a check.
pub fn accept_ice_response(
    datagram: &[u8],
    request: &IceCheckRequest,
    transaction_id: [u8; 12],
    round_trip: Duration,
) -> (r: Result<IceCheckResult>)
    ensures
        match check_outcome(datagram@, request.remote_credentials.password@, transaction_id@) {
            Ok(mapped) => r matches Ok(found) && found.mapped_address == mapped && found.round_trip
                == round_trip,
            Err(why) => r matches Err(e) && e@ == why,
        },
{
    let response = match StunMessage::decode(
        datagram,
        Some(request.remote_credentials.password.as_str()),
    ) {
        Ok(m) => m,
        Err(e) => {
            return Err(e);
        },
    };
    let mut same = true;
    let mut i: usize = 0;
    while i < 12
        invariant
            i <= 12,
            same == (forall|j: int| 0 <= j < i ==> response.transaction_id@[j]
                == transaction_id@[j]),
        decreases 12 - i,
    {
        if response.transaction_id[i] != transaction_id[i] {
            same = false;
        }
        i = i + 1;
    }
    assert(same == (response.transaction_id@ =~= transaction_id@));
    if !same {
        return Err(protocol("ICE response transaction id mismatch"));
    }
    match response.class {
        StunClass::SuccessResponse => Ok(
            IceCheckResult { mapped_address: response.find_xor_mapped_address(), round_trip },
        ),
        StunClass::ErrorResponse => {
            let (code, reason) = match response.find_error_code() {
                Some(found) => found,
                None => (0u16, "unspecified error"),
            };
            let mut text = "ICE error response: ".to_owned();
            push_decimal(&mut text, code as u64);
            text.append(" ");
            text.append(reason);
            Err(QlinkError::Protocol(text))
        },
        StunClass::Request => Err(
            QlinkError::Protocol(join2("unexpected ICE response class ", "Request")),
        ),
        StunClass::Indication => Err(
            QlinkError::Protocol(join2("unexpected ICE response class ", "Indication")),
        ),
    }
}

/// The message of a refusal.
pub open spec fn error_message(
    transaction_id: Seq<u8>,
    code: u16,
    reason: Seq<char>,
) -> StunMessageView {
    StunMessageView {
        class: StunClass::ErrorResponse,
        transaction_id,
        attributes: seq![StunAttributeView::ErrorCode { code, reason }],
    }
}

/// The message that tells a peer the address it was seen under.
pub open spec fn success_message(transaction_id: Seq<u8>, peer: SocketAddr) -> StunMessageView {
    StunMessageView {
        class: StunClass::SuccessResponse,
        transaction_id,
        attributes: seq![StunAttributeView::XorMappedAddress(peer)],
    }
}

/// What a responder sends back for a datagram: nothing for what is not a
/// well-formed request, else an answer authenticated with its own password.
pub open spec fn responder_reply(
    datagram: Seq<u8>,
    peer: SocketAddr,
    ufrag: Seq<char>,
    password: Seq<char>,
) -> Option<Seq<u8>> {
    match decoded(datagram, None) {
        Err(_) => None,
        Ok(m) => if m.class != StunClass::Request {
            None
        } else {
            let answer = match first_username(m.attributes) {
                None => error_message(m.transaction_id, 400, "no USERNAME"@),
                Some(name) => if before_first(name, ':') != ufrag {
                    error_message(m.transaction_id, 401, "bad ufrag"@)
                } else if decoded(datagram, Some(password)) is Err {
                    error_message(
                        m.transaction_id,
                        401,
                        "MESSAGE-INTEGRITY verification failed"@,
                    )
                } else {
                    success_message(m.transaction_id, peer)
                },
            };
            Some(encoded(answer, Some(password)))
        },
    }
}

/// The refusal that a responder sends.
fn error_reply(transaction_id: [u8; 12], credentials: &IceCredentials, code: u16, reason: &str) -> (
    wire: Vec<u8>)
    ensures
        wire@ == encoded(
            error_message(transaction_id@, code, reason@),
            Some(credentials.password@),
        ),
{
    let mut response = StunMessage::new_binding_error_response(transaction_id);
    response.attributes.push(StunAttribute::ErrorCode { code, reason: reason.to_owned() });
    assert(response@.attributes =~= error_message(transaction_id@, code, reason@).attributes);
    response.encode(Some(credentials.password.as_str()))
}

/// What a responder with the given credentials sends back for a datagram.
pub fn answer_ice_check(datagram: &[u8], peer: SocketAddr, credentials: &IceCredentials) -> (r:
    Option<Vec<u8>>)
    ensures
        match responder_reply(datagram@, peer, credentials.ufrag@, credentials.password@) {
            Some(wire) => r matches Some(v) && v@ == wire,
            None => r is None,
        },
{
    let request = match StunMessage::decode(datagram, None) {
        Ok(m) => m,
        Err(_) => {
            return None;
        },
    };
    if request.class != StunClass::Request {
        return None;
    }
    let username = match request.find_username() {
        Some(name) => chars_of(name),
        None => {
            return Some(error_reply(request.transaction_id, credentials, 400, "no USERNAME"));
        },
    };
    let colon: usize = find_char(&username, ':');
    let target = string_of(&username, 0, colon);
    if target != credentials.ufrag {
        return Some(error_reply(request.transaction_id, credentials, 401, "bad ufrag"));
    }
    if StunMessage::decode(datagram, Some(credentials.password.as_str())).is_err() {
        return Some(
            error_reply(
                request.transaction_id,
                credentials,
                401,
                "MESSAGE-INTEGRITY verification failed",
            ),
        );
    }
    let mut response = StunMessage::new_binding_success_response(request.transaction_id);
    response.attributes.push(StunAttribute::XorMappedAddress(peer));
    assert(response@.attributes =~= success_message(
        request.transaction_id@,
        peer,
    ).attributes);
    Some(response.encode(Some(credentials.password.as_str())))
}

} // verus!
