//! The native UDP carrier: its datagrams, the fragments that long messages are
//! cut into, and their reassembly.

use crate::bytes::{
    be_bytes, be_value, lemma_be_round_trip, lemma_byte_ranges, push_all, push_be, read_be,
    slice_of,
};
use crate::dytallix_identity::same_bytes;
use crate::error::{QlinkError, QlinkErrorView, Result, protocol, result_view};
use crate::text::{decimal, push_decimal};
use std::collections::VecDeque;
use vstd::prelude::*;
use vstd::string::*;

verus! {

pub const CARRIER_HEADER_LEN: usize = 12;

pub const MAX_UDP_DATAGRAM_LEN: usize = 1_200;

pub const MAX_CARRIER_PAYLOAD_LEN: usize = 1_188;

pub const FRAGMENT_HEADER_LEN: usize = 16;

pub const MAX_FRAGMENT_PAYLOAD_LEN: usize = 1_172;

pub const MAX_REASSEMBLED_MESSAGE_LEN: usize = 1_048_576;

pub const MAX_REASSEMBLY_ENTRIES: usize = 64;

/// How long an unfinished message is kept: 30 seconds.
pub const REASSEMBLY_TTL_NANOS: u128 = 30_000_000_000;

pub const MAX_COMPLETED_FRAGMENT_KEYS: usize = 256;

pub const MAX_PENDING_MESSAGES: usize = 64;

pub const MAX_PENDING_AUTHENTICATED_MESSAGE_LEN: usize = 65_536;

pub const MAX_LISTENER_SESSIONS: usize = 1_024;

pub const LISTENER_SESSION_QUEUE_DEPTH: usize = 256;

pub const LISTENER_ACCEPT_QUEUE_DEPTH: usize = 64;

/// What a message is for.
#[derive(Debug, Clone, Copy, PartialEq, Eq, Structural)]
pub enum MessageKind {
    Frame,
    AuthenticatedMessage,
}

/// What a datagram carries.
#[derive(Debug, Clone, Copy, PartialEq, Eq, Structural)]
pub enum DatagramKind {
    Frame,
    AuthenticatedMessage,
    Close,
    FrameFragment,
    AuthenticatedFragment,
}

/// The kind of datagram that carries a whole message.
pub open spec fn complete_kind(kind: MessageKind) -> DatagramKind {
    match kind {
        MessageKind::Frame => DatagramKind::Frame,
        MessageKind::AuthenticatedMessage => DatagramKind::AuthenticatedMessage,
    }
}

/// The kind of datagram that carries a fragment of a message.
pub open spec fn fragment_kind(kind: MessageKind) -> DatagramKind {
    match kind {
        MessageKind::Frame => DatagramKind::FrameFragment,
        MessageKind::AuthenticatedMessage => DatagramKind::AuthenticatedFragment,
    }
}

impl MessageKind {
    pub fn complete_datagram_kind(self) -> (k: DatagramKind)
        ensures
            k == complete_kind(self),
    {
        match self {
            MessageKind::Frame => DatagramKind::Frame,
            MessageKind::AuthenticatedMessage => DatagramKind::AuthenticatedMessage,
        }
    }

    pub fn fragment_datagram_kind(self) -> (k: DatagramKind)
        ensures
            k == fragment_kind(self),
    {
        match self {
            MessageKind::Frame => DatagramKind::FrameFragment,
            MessageKind::AuthenticatedMessage => DatagramKind::AuthenticatedFragment,
        }
    }
}

/// The byte that stands for a kind of datagram.
pub open spec fn kind_byte(kind: DatagramKind) -> u8 {
    match kind {
        DatagramKind::Frame => 1,
        DatagramKind::AuthenticatedMessage => 2,
        DatagramKind::Close => 3,
        DatagramKind::FrameFragment => 4,
        DatagramKind::AuthenticatedFragment => 5,
    }
}

/// The kind of datagram that a byte stands for, if it is one.
pub open spec fn kind_of_byte(value: u8) -> Option<DatagramKind> {
    if value == 1 {
        Some(DatagramKind::Frame)
    } else if value == 2 {
        Some(DatagramKind::AuthenticatedMessage)
    } else if value == 3 {
        Some(DatagramKind::Close)
    } else if value == 4 {
        Some(DatagramKind::FrameFragment)
    } else if value == 5 {
        Some(DatagramKind::AuthenticatedFragment)
    } else {
        None
    }
}

/// The refusal of a kind of datagram.
pub open spec fn unsupported_kind(value: u8) -> QlinkErrorView {
    QlinkErrorView::Protocol(
        "unsupported native carrier datagram kind "@ + decimal(value as nat),
    )
}

/// The kind of message that a datagram belongs to, if to one.
pub open spec fn message_kind_of(kind: DatagramKind) -> Option<MessageKind> {
    match kind {
        DatagramKind::Frame => Some(MessageKind::Frame),
        DatagramKind::FrameFragment => Some(MessageKind::Frame),
        DatagramKind::AuthenticatedMessage => Some(MessageKind::AuthenticatedMessage),
        DatagramKind::AuthenticatedFragment => Some(MessageKind::AuthenticatedMessage),
        DatagramKind::Close => None,
    }
}

impl DatagramKind {
    pub fn wire_value(self) -> (b: u8)
        ensures
            b == kind_byte(self),
    {
        match self {
            DatagramKind::Frame => 1,
            DatagramKind::AuthenticatedMessage => 2,
            DatagramKind::Close => 3,
            DatagramKind::FrameFragment => 4,
            DatagramKind::AuthenticatedFragment => 5,
        }
    }

    pub fn from_wire(value: u8) -> (r: Result<DatagramKind>)
        ensures
            match kind_of_byte(value) {
                Some(kind) => r == Ok::<DatagramKind, QlinkError>(kind),
                None => r matches Err(e) && e@ == unsupported_kind(value),
            },
    {
        match value {
            1 => Ok(DatagramKind::Frame),
            2 => Ok(DatagramKind::AuthenticatedMessage),
            3 => Ok(DatagramKind::Close),
            4 => Ok(DatagramKind::FrameFragment),
            5 => Ok(DatagramKind::AuthenticatedFragment),
            _ => {
                let mut text = "unsupported native carrier datagram kind ".to_owned();
                push_decimal(&mut text, value as u64);
                Err(QlinkError::Protocol(text))
            },
        }
    }

    pub fn message_kind(self) -> (k: Option<MessageKind>)
        ensures
            k == message_kind_of(self),
    {
        match self {
            DatagramKind::Frame | DatagramKind::FrameFragment => Some(MessageKind::Frame),
            DatagramKind::AuthenticatedMessage | DatagramKind::AuthenticatedFragment => Some(
                MessageKind::AuthenticatedMessage,
            ),
            DatagramKind::Close => None,
        }
    }
}

// ---------------------------------------------------------------------------
// Datagrams
// ---------------------------------------------------------------------------

/// A datagram.
#[derive(Debug, Clone)]
pub struct CarrierDatagram {
    pub kind: DatagramKind,
    pub payload: Vec<u8>,
}

/// The model of a datagram.
pub struct DatagramView {
    pub kind: DatagramKind,
    pub payload: Seq<u8>,
}

impl View for CarrierDatagram {
    type V = DatagramView;

    open spec fn view(&self) -> DatagramView {
        DatagramView { kind: self.kind, payload: self.payload@ }
    }
}

/// The six bytes that every datagram starts with: `QLCAR1`.
pub open spec fn carrier_magic() -> Seq<u8> {
    seq![0x51u8, 0x4cu8, 0x43u8, 0x41u8, 0x52u8, 0x31u8]
}

/// A datagram on the wire: the magic, version one, the kind, the length of the
/// payload in four bytes, and the payload.
pub open spec fn datagram_wire(kind: DatagramKind, payload: Seq<u8>) -> Seq<u8> {
    carrier_magic() + seq![1u8, kind_byte(kind)] + be_bytes(payload.len(), 4) + payload
}

/// What encoding a datagram comes to.
pub open spec fn datagram_encoded(kind: DatagramKind, payload: Seq<u8>) -> Result<
    Seq<u8>,
    QlinkErrorView,
> {
    if payload.len() > u32::MAX {
        Err(QlinkErrorView::Protocol("native UDP carrier payload exceeds u32 length"@))
    } else if payload.len() > MAX_CARRIER_PAYLOAD_LEN {
        Err(
            QlinkErrorView::Protocol(
                "native UDP carrier payload is too large: "@ + decimal(payload.len()) + " bytes"@,
            ),
        )
    } else {
        Ok(datagram_wire(kind, payload))
    }
}

/// The datagram in a byte string, or the first thing that is wrong with it.
pub open spec fn datagram_decoded(input: Seq<u8>) -> Result<DatagramView, QlinkErrorView> {
    if input.len() < CARRIER_HEADER_LEN {
        Err(QlinkErrorView::Protocol("native UDP carrier datagram too short"@))
    } else if input.subrange(0, 6) != carrier_magic() {
        Err(QlinkErrorView::Protocol("invalid native UDP carrier datagram magic"@))
    } else if input[6] != 1 {
        Err(
            QlinkErrorView::Protocol(
                "unsupported native UDP carrier version "@ + decimal(input[6] as nat),
            ),
        )
    } else {
        match kind_of_byte(input[7]) {
            None => Err(unsupported_kind(input[7])),
            Some(kind) => if input.len() != 12 + be_value(input.subrange(8, 12)) {
                Err(QlinkErrorView::Protocol("native UDP carrier datagram length mismatch"@))
            } else {
                Ok(DatagramView { kind, payload: input.subrange(12, input.len() as int) })
            },
        }
    }
}

/// A message with a count of bytes in it.
fn counted(head: &str, n: usize, tail: &str) -> (e: QlinkError)
    ensures
        e@ == QlinkErrorView::Protocol(head@ + decimal(n as nat) + tail@),
{
    let mut text = head.to_owned();
    push_decimal(&mut text, n as u64);
    text.append(tail);
    QlinkError::Protocol(text)
}

pub fn encode_datagram(kind: DatagramKind, payload: &[u8]) -> (r: Result<Vec<u8>>)
    ensures
        result_view(r) == datagram_encoded(kind, payload@),
{
    let len: u64 = payload.len() as u64;
    if len > u32::MAX as u64 {
        return Err(protocol("native UDP carrier payload exceeds u32 length"));
    }
    if payload.len() > MAX_CARRIER_PAYLOAD_LEN {
        return Err(
            counted("native UDP carrier payload is too large: ", payload.len(), " bytes"),
        );
    }
    let mut datagram: Vec<u8> = vec![0x51u8, 0x4cu8, 0x43u8, 0x41u8, 0x52u8, 0x31u8];
    datagram.push(1);
    datagram.push(kind.wire_value());
    push_be(&mut datagram, payload.len() as u128, 4);
    push_all(&mut datagram, payload);
    assert(datagram@ =~= datagram_wire(kind, payload@));
    Ok(datagram)
}

pub fn decode_datagram(input: &[u8]) -> (r: Result<CarrierDatagram>)
    ensures
        result_view(r) == datagram_decoded(input@),
{
    if input.len() < CARRIER_HEADER_LEN {
        return Err(protocol("native UDP carrier datagram too short"));
    }
    let magic = vec![0x51u8, 0x4cu8, 0x43u8, 0x41u8, 0x52u8, 0x31u8];
    assert(magic@ =~= carrier_magic());
    let head = slice_of(input, 0, 6);
    if !same_bytes(head.as_slice(), magic.as_slice()) {
        return Err(protocol("invalid native UDP carrier datagram magic"));
    }
    if input[6] != 1 {
        let mut text = "unsupported native UDP carrier version ".to_owned();
        push_decimal(&mut text, input[6] as u64);
        return Err(QlinkError::Protocol(text));
    }
    let kind = match DatagramKind::from_wire(input[7]) {
        Ok(kind) => kind,
        Err(e) => {
            return Err(e);
        },
    };
    proof {
        lemma_byte_ranges();
    }
    let payload_len: u64 = read_be(input, 8, 4) as u64;
    if (input.len() - CARRIER_HEADER_LEN) as u64 != payload_len {
        return Err(protocol("native UDP carrier datagram length mismatch"));
    }
    Ok(CarrierDatagram { kind, payload: slice_of(input, 12, input.len()) })
}

/// Every datagram that can be encoded comes back as it went in.
pub proof fn law_datagram_round_trip(kind: DatagramKind, payload: Seq<u8>)
    ensures
        datagram_encoded(kind, payload) matches Ok(wire) ==> wire.len() <= MAX_UDP_DATAGRAM_LEN
            && datagram_decoded(wire) == Ok::<DatagramView, QlinkErrorView>(
            DatagramView { kind, payload },
        ),
{
    if let Ok(wire) = datagram_encoded(kind, payload) {
        lemma_byte_ranges();
        lemma_be_round_trip(payload.len(), 4);
        assert(wire.subrange(0, 6) =~= carrier_magic());
        assert(wire[6] == 1);
        assert(wire[7] == kind_byte(kind));
        assert(wire.subrange(8, 12) =~= be_bytes(payload.len(), 4));
        assert(wire.subrange(12, wire.len() as int) =~= payload);
    }
}

// ---------------------------------------------------------------------------
// Fragments
// ---------------------------------------------------------------------------

/// A fragment of a message.
#[derive(Debug, Clone)]
pub struct FragmentPayload {
    pub message_id: u64,
    pub total_len: usize,
    pub chunk_index: u16,
    pub chunk_count: u16,
    pub payload: Vec<u8>,
}

/// The model of a fragment.
pub struct FragmentView {
    pub message_id: nat,
    pub total_len: nat,
    pub chunk_index: nat,
    pub chunk_count: nat,
    pub payload: Seq<u8>,
}

impl View for FragmentPayload {
    type V = FragmentView;

    open spec fn view(&self) -> FragmentView {
        FragmentView {
            message_id: self.message_id as nat,
            total_len: self.total_len as nat,
            chunk_index: self.chunk_index as nat,
            chunk_count: self.chunk_count as nat,
            payload: self.payload@,
        }
    }
}

/// Into how many fragments a message of some length is cut.
pub open spec fn chunk_count_of(total_len: nat) -> nat {
    ((total_len + (MAX_FRAGMENT_PAYLOAD_LEN - 1)) / (MAX_FRAGMENT_PAYLOAD_LEN as int)) as nat
}

/// How many bytes of a message the fragment at some place holds.
pub open spec fn chunk_len_at(total_len: nat, index: nat) -> int {
    if index + 1 == chunk_count_of(total_len) {
        total_len - MAX_FRAGMENT_PAYLOAD_LEN * index
    } else {
        MAX_FRAGMENT_PAYLOAD_LEN as int
    }
}

/// Why a fragment does not fit into the way messages are cut, if it does not.
pub open spec fn shape_refusal(
    total_len: nat,
    chunk_index: nat,
    chunk_count: nat,
    payload_len: nat,
) -> Option<Seq<char>> {
    if total_len <= MAX_CARRIER_PAYLOAD_LEN {
        Some("native UDP carrier fragment total length does not require fragmentation"@)
    } else if total_len > MAX_REASSEMBLED_MESSAGE_LEN {
        Some(
            "native UDP carrier fragmented message is too large: "@ + decimal(total_len)
                + " bytes"@,
        )
    } else if chunk_count != chunk_count_of(total_len) {
        Some("native UDP carrier fragment count does not match total length"@)
    } else if chunk_index >= chunk_count {
        Some("native UDP carrier fragment index out of range"@)
    } else if payload_len != chunk_len_at(total_len, chunk_index) {
        Some("native UDP carrier fragment payload length does not match position"@)
    } else {
        None
    }
}

/// The outcome of a check that is refused or passed.
pub open spec fn passes(r: Result<()>, refusal: Option<Seq<char>>) -> bool {
    match refusal {
        Some(text) => r matches Err(e) && e@ == QlinkErrorView::Protocol(text),
        None => r is Ok,
    }
}

pub fn validate_fragment_shape_parts(
    total_len: usize,
    chunk_index: u16,
    chunk_count: u16,
    payload_len: usize,
) -> (r: Result<()>)
    ensures
        passes(
            r,
            shape_refusal(
                total_len as nat,
                chunk_index as nat,
                chunk_count as nat,
                payload_len as nat,
            ),
        ),
{
    if total_len <= MAX_CARRIER_PAYLOAD_LEN {
        return Err(
            protocol("native UDP carrier fragment total length does not require fragmentation"),
        );
    }
    if total_len > MAX_REASSEMBLED_MESSAGE_LEN {
        return Err(
            counted("native UDP carrier fragmented message is too large: ", total_len, " bytes"),
        );
    }
    let expected_chunks: usize = (total_len + (MAX_FRAGMENT_PAYLOAD_LEN - 1))
        / MAX_FRAGMENT_PAYLOAD_LEN;
    if chunk_count as usize != expected_chunks {
        return Err(
            protocol("native UDP carrier fragment count does not match total length"),
        );
    }
    if chunk_index >= chunk_count {
        return Err(protocol("native UDP carrier fragment index out of range"));
    }
    let index: usize = chunk_index as usize;
    let expected_len: usize = if index + 1 == expected_chunks {
        assert(MAX_FRAGMENT_PAYLOAD_LEN * index <= total_len);
        total_len - MAX_FRAGMENT_PAYLOAD_LEN * index
    } else {
        MAX_FRAGMENT_PAYLOAD_LEN
    };
    if payload_len != expected_len {
        return Err(
            protocol("native UDP carrier fragment payload length does not match position"),
        );
    }
    Ok(())
}

pub fn validate_fragment_shape(fragment: &FragmentPayload) -> (r: Result<()>)
    ensures
        passes(
            r,
            shape_refusal(
                fragment@.total_len,
                fragment@.chunk_index,
                fragment@.chunk_count,
                fragment@.payload.len(),
            ),
        ),
{
    validate_fragment_shape_parts(
        fragment.total_len,
        fragment.chunk_index,
        fragment.chunk_count,
        fragment.payload.len(),
    )
}

/// A fragment on the wire: the message, its length, the place and the count, and
/// the bytes.
pub open spec fn fragment_wire(f: FragmentView) -> Seq<u8> {
    be_bytes(f.message_id, 8) + be_bytes(f.total_len, 4) + be_bytes(f.chunk_index, 2) + be_bytes(
        f.chunk_count,
        2,
    ) + f.payload
}

/// Why a fragment is not encoded, if it is not.
pub open spec fn fragment_refusal(f: FragmentView) -> Option<Seq<char>> {
    if f.chunk_count == 0 {
        Some("native UDP carrier fragment count cannot be zero"@)
    } else {
        shape_refusal(f.total_len, f.chunk_index, f.chunk_count, f.payload.len())
    }
}

/// A fragment in a byte string, or what is wrong with it.
pub open spec fn fragment_decoded(input: Seq<u8>) -> Result<FragmentView, QlinkErrorView> {
    if input.len() < FRAGMENT_HEADER_LEN {
        Err(QlinkErrorView::Protocol("native UDP carrier fragment too short"@))
    } else if be_value(input.subrange(14, 16)) == 0 {
        Err(QlinkErrorView::Protocol("native UDP carrier fragment count cannot be zero"@))
    } else {
        Ok(
            FragmentView {
                message_id: be_value(input.subrange(0, 8)),
                total_len: be_value(input.subrange(8, 12)),
                chunk_index: be_value(input.subrange(12, 14)),
                chunk_count: be_value(input.subrange(14, 16)),
                payload: input.subrange(16, input.len() as int),
            },
        )
    }
}

pub fn encode_fragment_payload(
    message_id: u64,
    total_len: u32,
    chunk_index: u16,
    chunk_count: u16,
    payload: &[u8],
) -> (r: Result<Vec<u8>>)
    ensures
        ({
            let f = FragmentView {
                message_id: message_id as nat,
                total_len: total_len as nat,
                chunk_index: chunk_index as nat,
                chunk_count: chunk_count as nat,
                payload: payload@,
            };
            match fragment_refusal(f) {
                Some(text) => r matches Err(e) && e@ == QlinkErrorView::Protocol(text),
                None => r matches Ok(v) && v@ == fragment_wire(f),
            }
        }),
{
    if chunk_count == 0 {
        return Err(protocol("native UDP carrier fragment count cannot be zero"));
    }
    if let Err(e) = validate_fragment_shape_parts(
        total_len as usize,
        chunk_index,
        chunk_count,
        payload.len(),
    ) {
        return Err(e);
    }
    let mut out: Vec<u8> = Vec::new();
    push_be(&mut out, message_id as u128, 8);
    push_be(&mut out, total_len as u128, 4);
    push_be(&mut out, chunk_index as u128, 2);
    push_be(&mut out, chunk_count as u128, 2);
    push_all(&mut out, payload);
    assert(out@ =~= be_bytes(message_id as nat, 8) + be_bytes(total_len as nat, 4) + be_bytes(
        chunk_index as nat,
        2,
    ) + be_bytes(chunk_count as nat, 2) + payload@);
    Ok(out)
}

pub fn decode_fragment_payload(input: &[u8]) -> (r: Result<FragmentPayload>)
    ensures
        result_view(r) == fragment_decoded(input@),
{
    if input.len() < FRAGMENT_HEADER_LEN {
        return Err(protocol("native UDP carrier fragment too short"));
    }
    proof {
        lemma_byte_ranges();
    }
    let chunk_count: u16 = read_be(input, 14, 2) as u16;
    if chunk_count == 0 {
        return Err(protocol("native UDP carrier fragment count cannot be zero"));
    }
    Ok(
        FragmentPayload {
            message_id: read_be(input, 0, 8) as u64,
            total_len: read_be(input, 8, 4) as usize,
            chunk_index: read_be(input, 12, 2) as u16,
            chunk_count,
            payload: slice_of(input, 16, input.len()),
        },
    )
}

/// Every fragment that can be encoded comes back as it went in.
pub proof fn law_fragment_round_trip(f: FragmentView)
    requires
        fragment_refusal(f) is None,
        f.message_id <= u64::MAX,
    ensures
        fragment_decoded(fragment_wire(f)) == Ok::<FragmentView, QlinkErrorView>(f),
        fragment_wire(f).len() == FRAGMENT_HEADER_LEN + f.payload.len(),
        fragment_wire(f).len() <= MAX_CARRIER_PAYLOAD_LEN,
{
    lemma_byte_ranges();
    assert(chunk_count_of(f.total_len) < 0x1_0000);
    lemma_be_round_trip(f.message_id, 8);
    lemma_be_round_trip(f.total_len, 4);
    lemma_be_round_trip(f.chunk_index, 2);
    lemma_be_round_trip(f.chunk_count, 2);
    let wire = fragment_wire(f);
    assert(wire.subrange(0, 8) =~= be_bytes(f.message_id, 8));
    assert(wire.subrange(8, 12) =~= be_bytes(f.total_len, 4));
    assert(wire.subrange(12, 14) =~= be_bytes(f.chunk_index, 2));
    assert(wire.subrange(14, 16) =~= be_bytes(f.chunk_count, 2));
    assert(wire.subrange(16, wire.len() as int) =~= f.payload);
    lemma_chunk_len(f.total_len, f.chunk_index);
}

/// A fragment of a message that needs cutting is never empty and never too long.
pub proof fn lemma_chunk_len(total_len: nat, index: nat)
    requires
        total_len > MAX_CARRIER_PAYLOAD_LEN,
        index < chunk_count_of(total_len),
    ensures
        0 < chunk_len_at(total_len, index) <= MAX_FRAGMENT_PAYLOAD_LEN,
        MAX_FRAGMENT_PAYLOAD_LEN * index + chunk_len_at(total_len, index) <= total_len,
        index + 1 == chunk_count_of(total_len) <==> MAX_FRAGMENT_PAYLOAD_LEN * index
            + chunk_len_at(total_len, index) == total_len,
{
}

} // verus!
