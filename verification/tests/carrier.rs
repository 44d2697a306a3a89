use qlink_core::carrier_transport::{
    decode_datagram, decode_fragment_payload, encode_datagram, encode_fragment_payload,
    validate_fragment_shape_parts, CarrierDatagram, DatagramKind, FragmentPayload, MessageKind,
    MAX_CARRIER_PAYLOAD_LEN, MAX_COMPLETED_FRAGMENT_KEYS, MAX_FRAGMENT_PAYLOAD_LEN,
    MAX_PENDING_MESSAGES, MAX_REASSEMBLED_MESSAGE_LEN, MAX_REASSEMBLY_ENTRIES, REASSEMBLY_TTL_NANOS,
};
use qlink_core::error::QlinkError;
use qlink_core::reassembly::{
    close_datagram, dispatch_datagram, listener_datagram_kind, validate_received_size,
    CarrierState, CompletedFragmentKeys, FragmentBuffer, FragmentKey, ListenerAction,
    ReceiveLimits,
};
use qlink_core::time::Instant;

const START: Instant = Instant { nanos: 1_000_000_000_000 };

// Hands the datagrams of one side to the other until a message comes out.
fn receive(
    session: &mut CarrierState,
    wire: &[Vec<u8>],
    wanted: MessageKind,
    max_size: usize,
) -> Result<Option<Vec<u8>>, QlinkError> {
    if let Some(waiting) = session.take_pending(wanted, max_size) {
        return waiting.map(Some);
    }
    for datagram in wire {
        if let Some(message) = session.receive_datagram(wanted, max_size, datagram, START)? {
            return Ok(Some(message));
        }
    }
    Ok(None)
}

fn fragment(
    kind: DatagramKind,
    message_id: u64,
    total_len: usize,
    index: u16,
    count: u16,
    chunk: &[u8],
) -> CarrierDatagram {
    CarrierDatagram {
        kind,
        payload: encode_fragment_payload(message_id, total_len as u32, index, count, chunk)
            .unwrap(),
    }
}

#[test]
fn native_udp_session_round_trips_frames_and_authenticated_messages() {
    let mut left = CarrierState::new();
    let mut right = CarrierState::new();

    let wire = left.send_message(MessageKind::AuthenticatedMessage, b"identity").unwrap();
    assert_eq!(
        receive(&mut right, &wire, MessageKind::AuthenticatedMessage, 64).unwrap().unwrap(),
        b"identity"
    );

    let wire = right.send_message(MessageKind::Frame, b"protected-frame").unwrap();
    assert_eq!(
        receive(&mut left, &wire, MessageKind::Frame, usize::MAX).unwrap().unwrap(),
        b"protected-frame"
    );
}

#[test]
fn native_udp_session_rejects_oversized_authenticated_messages() {
    let mut left = CarrierState::new();
    let mut right = CarrierState::new();

    let wire = left.send_message(MessageKind::AuthenticatedMessage, &[0x42; 32]).unwrap();
    let error = receive(&mut right, &wire, MessageKind::AuthenticatedMessage, 8).unwrap_err();
    assert!(error.to_string().contains("authenticated message"));
}

#[test]
fn native_udp_session_reassembles_large_authenticated_messages() {
    let mut left = CarrierState::new();
    let mut right = CarrierState::new();
    let message = vec![0x7a; 90_000];

    let wire = left.send_message(MessageKind::AuthenticatedMessage, &message).unwrap();

    assert_eq!(
        receive(&mut right, &wire, MessageKind::AuthenticatedMessage, message.len() + 1)
            .unwrap()
            .unwrap(),
        message
    );
}

#[test]
fn native_udp_session_reassembles_large_frames() {
    let mut left = CarrierState::new();
    let mut right = CarrierState::new();
    let frame = vec![0x55; 4_096];

    let wire = left.send_message(MessageKind::Frame, &frame).unwrap();
    assert_eq!(wire.len(), 4);

    assert_eq!(
        receive(&mut right, &wire, MessageKind::Frame, usize::MAX).unwrap().unwrap(),
        frame
    );
}

#[test]
fn native_udp_session_preserves_interleaved_authenticated_message_for_later_receive() {
    let mut left = CarrierState::new();
    let mut right = CarrierState::new();

    let mut wire =
        left.send_message(MessageKind::AuthenticatedMessage, b"auth-before-frame").unwrap();
    wire.extend(left.send_message(MessageKind::Frame, b"frame").unwrap());

    assert_eq!(
        receive(&mut right, &wire, MessageKind::Frame, usize::MAX).unwrap().unwrap(),
        b"frame"
    );
    assert_eq!(
        receive(&mut right, &[], MessageKind::AuthenticatedMessage, 64).unwrap().unwrap(),
        b"auth-before-frame"
    );
}

#[test]
fn native_udp_session_reassembles_authenticated_fragments_out_of_order() {
    let mut right = CarrierState::new();
    let message = vec![0x31; MAX_FRAGMENT_PAYLOAD_LEN + 17];
    let first = encode_fragment_payload(
        7,
        message.len() as u32,
        0,
        2,
        &message[..MAX_FRAGMENT_PAYLOAD_LEN],
    )
    .unwrap();
    let second = encode_fragment_payload(
        7,
        message.len() as u32,
        1,
        2,
        &message[MAX_FRAGMENT_PAYLOAD_LEN..],
    )
    .unwrap();
    let wire = vec![
        encode_datagram(DatagramKind::AuthenticatedFragment, &second).unwrap(),
        encode_datagram(DatagramKind::AuthenticatedFragment, &first).unwrap(),
    ];

    assert_eq!(
        receive(&mut right, &wire, MessageKind::AuthenticatedMessage, message.len() + 1)
            .unwrap()
            .unwrap(),
        message
    );
}

#[test]
fn native_udp_session_bounds_in_flight_reassembly_entries() {
    let mut session = CarrierState::new();
    let limits = ReceiveLimits::new(MAX_REASSEMBLED_MESSAGE_LEN);
    let payload = vec![0x44; MAX_FRAGMENT_PAYLOAD_LEN];
    let total_len = MAX_FRAGMENT_PAYLOAD_LEN + 17;

    for message_id in 0..MAX_REASSEMBLY_ENTRIES {
        let datagram =
            fragment(DatagramKind::FrameFragment, message_id as u64, total_len, 0, 2, &payload);
        assert!(session
            .accept_datagram(datagram, limits, START)
            .unwrap()
            .is_none());
    }

    let datagram = fragment(DatagramKind::FrameFragment, 999, total_len, 0, 2, &payload);
    let error = session.accept_datagram(datagram, limits, START).unwrap_err();

    assert!(error.to_string().contains("too many in-flight"));
}

#[test]
fn native_udp_session_ignores_duplicate_completed_fragment_sets() {
    let mut session = CarrierState::new();
    let limits = ReceiveLimits::new(MAX_REASSEMBLED_MESSAGE_LEN);
    let message = vec![0x51; MAX_FRAGMENT_PAYLOAD_LEN + 17];
    let kind = DatagramKind::AuthenticatedFragment;
    let first = fragment(kind, 77, message.len(), 0, 2, &message[..MAX_FRAGMENT_PAYLOAD_LEN]);
    let second = fragment(kind, 77, message.len(), 1, 2, &message[MAX_FRAGMENT_PAYLOAD_LEN..]);

    assert!(session
        .accept_datagram(first.clone(), limits, START)
        .unwrap()
        .is_none());
    assert_eq!(
        session.accept_datagram(second.clone(), limits, START).unwrap(),
        Some((MessageKind::AuthenticatedMessage, message))
    );
    assert!(session.accept_datagram(first, limits, START).unwrap().is_none());
    assert!(session.accept_datagram(second, limits, START).unwrap().is_none());
}

#[test]
fn native_udp_session_reclaims_stale_reassembly_entries() {
    let mut session = CarrierState::new();
    let limits = ReceiveLimits::new(MAX_REASSEMBLED_MESSAGE_LEN);
    let payload = vec![0x44; MAX_FRAGMENT_PAYLOAD_LEN];
    let total_len = MAX_FRAGMENT_PAYLOAD_LEN + 17;

    for message_id in 0..MAX_REASSEMBLY_ENTRIES {
        let datagram =
            fragment(DatagramKind::FrameFragment, message_id as u64, total_len, 0, 2, &payload);
        assert!(session
            .accept_datagram(datagram, limits, START)
            .unwrap()
            .is_none());
    }
    let later = Instant { nanos: START.nanos + REASSEMBLY_TTL_NANOS + 1_000_000_000 };

    let datagram = fragment(DatagramKind::FrameFragment, 999, total_len, 0, 2, &payload);

    assert!(session
        .accept_datagram(datagram, limits, later)
        .unwrap()
        .is_none());
    assert_eq!(session.in_flight(), 1);
}

#[test]
fn native_udp_session_rejects_fragmented_authenticated_messages_over_receive_limit() {
    let mut session = CarrierState::new();
    let message = vec![0x61; MAX_FRAGMENT_PAYLOAD_LEN + 17];
    let datagram = fragment(
        DatagramKind::AuthenticatedFragment,
        88,
        message.len(),
        0,
        2,
        &message[..MAX_FRAGMENT_PAYLOAD_LEN],
    );

    let error = session
        .accept_datagram(datagram, ReceiveLimits::new(64), START)
        .unwrap_err();

    assert!(error.to_string().contains("authenticated message"));
    assert_eq!(session.in_flight(), 0);
}

#[test]
fn native_udp_session_drops_poisoned_fragment_entry_for_later_valid_message() {
    let mut session = CarrierState::new();
    let limits = ReceiveLimits::new(MAX_REASSEMBLED_MESSAGE_LEN);
    let kind = DatagramKind::FrameFragment;
    let poison = fragment(
        kind,
        99,
        MAX_FRAGMENT_PAYLOAD_LEN + 17,
        0,
        2,
        &vec![0x22; MAX_FRAGMENT_PAYLOAD_LEN],
    );
    assert!(session.accept_datagram(poison, limits, START).unwrap().is_none());

    let message = vec![0x33; (MAX_FRAGMENT_PAYLOAD_LEN * 2) + 17];
    let valid_first =
        fragment(kind, 99, message.len(), 0, 3, &message[..MAX_FRAGMENT_PAYLOAD_LEN]);
    let error = session
        .accept_datagram(valid_first.clone(), limits, START)
        .unwrap_err();
    assert!(error.to_string().contains("changed"));

    assert!(session
        .accept_datagram(valid_first, limits, START)
        .unwrap()
        .is_none());
    let valid_second = fragment(
        kind,
        99,
        message.len(),
        1,
        3,
        &message[MAX_FRAGMENT_PAYLOAD_LEN..MAX_FRAGMENT_PAYLOAD_LEN * 2],
    );
    let valid_third =
        fragment(kind, 99, message.len(), 2, 3, &message[MAX_FRAGMENT_PAYLOAD_LEN * 2..]);

    assert!(session
        .accept_datagram(valid_second, limits, START)
        .unwrap()
        .is_none());
    assert_eq!(
        session.accept_datagram(valid_third, limits, START).unwrap(),
        Some((MessageKind::Frame, message))
    );
}

#[test]
fn native_udp_session_rejects_oversized_udp_datagrams() {
    let mut right = CarrierState::new();
    let mut oversized =
        encode_datagram(DatagramKind::Frame, &vec![0x99; MAX_CARRIER_PAYLOAD_LEN]).unwrap();
    oversized.push(0xaa);

    let error = receive(&mut right, &[oversized], MessageKind::Frame, usize::MAX).unwrap_err();

    assert!(error.to_string().contains("datagram exceeds"));
}

#[test]
fn native_udp_listener_accepts_successive_sessions() {
    for index in 0..2_u8 {
        let mut client = CarrierState::new();
        let wire = client.send_message(MessageKind::AuthenticatedMessage, &[index]).unwrap();
        let kind = listener_datagram_kind(&wire[0]).unwrap();
        assert_eq!(dispatch_datagram(kind, None, index as usize), ListenerAction::Open);

        let mut server = CarrierState::new();
        assert_eq!(
            receive(&mut server, &wire, MessageKind::AuthenticatedMessage, 1).unwrap().unwrap(),
            vec![index]
        );
        let wire = server.send_message(MessageKind::Frame, &[index + 1]).unwrap();
        assert_eq!(
            receive(&mut client, &wire, MessageKind::Frame, usize::MAX).unwrap().unwrap(),
            vec![index + 1]
        );
        let close = close_datagram(b"rotate").unwrap();
        let kind = listener_datagram_kind(&close).unwrap();
        assert_eq!(dispatch_datagram(kind, Some(true), 1), ListenerAction::DeliveredAndForget);
    }
}

#[test]
fn datagrams_have_their_known_bytes() {
    let wire = encode_datagram(DatagramKind::Frame, b"hi").unwrap();
    assert_eq!(wire.len(), 14);
    assert_eq!(&wire[12..], b"hi");
    let back = decode_datagram(&wire).unwrap();
    assert_eq!((back.kind, back.payload), (DatagramKind::Frame, b"hi".to_vec()));
    for at in 0..12 {
        let mut damaged = wire.clone();
        damaged[at] ^= 0x80;
        assert!(decode_datagram(&damaged).is_err(), "byte {at}");
    }
    assert!(decode_datagram(&wire[..13]).is_err());
    assert!(encode_datagram(DatagramKind::Frame, &vec![0; MAX_CARRIER_PAYLOAD_LEN + 1]).is_err());
    assert!(DatagramKind::from_wire(0).is_err());
    assert_eq!(
        DatagramKind::from_wire(DatagramKind::Close.wire_value()).unwrap(),
        DatagramKind::Close
    );
}

#[test]
fn fragments_round_trip_and_are_held_to_their_shape() {
    let wire = encode_fragment_payload(5, 1_200, 1, 2, &[9; 28]).unwrap();
    let back = decode_fragment_payload(&wire).unwrap();
    assert_eq!(back.message_id, 5);
    assert_eq!(back.total_len, 1_200);
    assert_eq!((back.chunk_index, back.chunk_count), (1, 2));
    assert_eq!(back.payload, vec![9; 28]);
    assert!(decode_fragment_payload(&wire[..15]).is_err());
    assert!(validate_fragment_shape_parts(1_200, 2, 2, 28).is_err());
    assert!(validate_fragment_shape_parts(1_200, 1, 2, 29).is_err());
    assert!(validate_fragment_shape_parts(0, 0, 1, 0).is_err());
    assert!(validate_fragment_shape_parts(MAX_REASSEMBLED_MESSAGE_LEN + 1, 0, 900, 1_172).is_err());
}

#[test]
fn closed_sessions_refuse_to_receive() {
    let mut session = CarrierState::new();
    let close = close_datagram(b"bye").unwrap();
    let error = receive(&mut session, &[close], MessageKind::Frame, usize::MAX).unwrap_err();
    assert!(error.to_string().contains("closed"));
}

#[test]
fn waiting_messages_are_bounded() {
    let mut session = CarrierState::new();
    for _ in 0..MAX_PENDING_MESSAGES {
        session.push_pending(MessageKind::Frame, vec![1]).unwrap();
    }
    assert!(session.push_pending(MessageKind::Frame, vec![1]).is_err());
    assert_eq!(session.pop_pending(MessageKind::Frame), Some(vec![1]));
    assert!(session.push_pending(MessageKind::Frame, vec![2]).is_ok());
    assert_eq!(session.pop_pending(MessageKind::AuthenticatedMessage), None);
    assert!(validate_received_size(MessageKind::AuthenticatedMessage, vec![0; 9], 8).is_err());
}

#[test]
fn completed_messages_are_remembered_for_a_while() {
    let mut completed = CompletedFragmentKeys::new();
    for message_id in 0..257 {
        completed.insert(FragmentKey { kind: MessageKind::Frame, message_id });
    }
    assert!(!completed.contains(&FragmentKey { kind: MessageKind::Frame, message_id: 0 }));
    assert!(completed.contains(&FragmentKey { kind: MessageKind::Frame, message_id: 256 }));
}

#[test]
fn listeners_sort_datagrams() {
    assert_eq!(
        dispatch_datagram(DatagramKind::Frame, Some(true), 3),
        ListenerAction::Delivered
    );
    assert_eq!(dispatch_datagram(DatagramKind::Close, None, 0), ListenerAction::Drop);
    assert_eq!(dispatch_datagram(DatagramKind::Frame, None, 1_024), ListenerAction::Drop);
    assert_eq!(
        dispatch_datagram(DatagramKind::Frame, Some(false), 3),
        ListenerAction::ForgetAndOpen
    );
    assert_eq!(
        dispatch_datagram(DatagramKind::Close, Some(false), 3),
        ListenerAction::ForgetAndDrop
    );
    assert!(listener_datagram_kind(b"junk").is_none());
}

#[test]
fn fragments_reassemble_over_time_and_between_others() {
    let mut session = CarrierState::new();
    let limits = ReceiveLimits::new(MAX_REASSEMBLED_MESSAGE_LEN);
    let kind = DatagramKind::FrameFragment;
    let len = 2 * MAX_FRAGMENT_PAYLOAD_LEN + 5;
    let message = |byte: u8| vec![byte; len];
    let part = |id: u64, byte: u8, index: u16| {
        let size = if index == 2 { 5 } else { MAX_FRAGMENT_PAYLOAD_LEN };
        fragment(kind, id, len, index, 3, &vec![byte; size])
    };
    let at = |tenths: u128| Instant { nanos: START.nanos + tenths * (REASSEMBLY_TTL_NANOS / 10) };
    let whole = CarrierDatagram { kind: DatagramKind::Frame, payload: b"short".to_vec() };
    let broken = CarrierDatagram { kind, payload: vec![1, 2, 3] };

    assert!(session.accept_datagram(part(1, 0x11, 2), limits, at(0)).unwrap().is_none());
    assert!(session.accept_datagram(part(2, 0x22, 0), limits, at(2)).unwrap().is_none());
    assert_eq!(
        session.accept_datagram(whole, limits, at(3)).unwrap(),
        Some((MessageKind::Frame, b"short".to_vec()))
    );
    assert!(session.accept_datagram(part(1, 0x11, 0), limits, at(4)).unwrap().is_none());
    assert!(session.accept_datagram(broken, limits, at(5)).is_err());
    assert!(session.accept_datagram(part(1, 0x11, 0), limits, at(6)).unwrap().is_none());
    assert!(session.accept_datagram(part(2, 0x22, 1), limits, at(7)).unwrap().is_none());
    assert_eq!(
        session.accept_datagram(part(1, 0x11, 1), limits, at(10)).unwrap(),
        Some((MessageKind::Frame, message(0x11)))
    );
    assert_eq!(
        session.accept_datagram(part(2, 0x22, 2), limits, at(11)).unwrap(),
        Some((MessageKind::Frame, message(0x22)))
    );
    assert!(session.accept_datagram(part(1, 0x11, 2), limits, at(12)).unwrap().is_none());
    assert_eq!(session.in_flight(), 0);
}

fn part(total_len: usize, chunk_index: u16, chunk_count: u16, payload: &[u8]) -> FragmentPayload {
    FragmentPayload { message_id: 1, total_len, chunk_index, chunk_count, payload: payload.to_vec() }
}

#[test]
fn a_finished_buffer_has_given_its_chunks_away() {
    let mut buffer = FragmentBuffer::new(5, 2, START);
    assert_eq!(buffer.insert(part(5, 1, 2, b"lo")).unwrap(), None);
    assert_eq!(buffer.insert(part(5, 1, 2, b"lo")).unwrap(), None);
    assert_eq!(buffer.insert(part(5, 0, 2, b"hel")).unwrap(), Some(b"hello".to_vec()));
    assert_eq!(buffer.chunks, vec![None, None]);
    assert_eq!(buffer.received_len, 5);
    let error = buffer.insert(part(5, 0, 2, b"hel")).unwrap_err();
    assert!(error.to_string().contains("fragments exceed declared length"));
}

#[test]
fn a_fragment_that_is_too_long_is_counted() {
    let mut buffer = FragmentBuffer::new(5, 2, START);
    let error = buffer.insert(part(5, 0, 2, b"too long")).unwrap_err();
    assert!(error.to_string().contains("fragments exceed declared length"));
    assert_eq!(buffer.received_len, 8);
    assert_eq!(buffer.chunks, vec![None, None]);
    assert!(buffer.insert(part(5, 0, 2, b"hel")).is_err());
    assert_eq!(buffer.received_len, 11);
}

#[test]
fn a_buffer_refuses_what_does_not_fit() {
    let mut buffer = FragmentBuffer::new(5, 2, START);
    let mut refusal = |fragment| buffer.insert(fragment).unwrap_err().to_string();
    assert!(refusal(part(6, 0, 2, b"hel")).contains("total length changed"));
    assert!(refusal(part(5, 0, 3, b"hel")).contains("fragment count changed"));
    assert!(refusal(part(5, 2, 2, b"hel")).contains("index out of range"));
    assert_eq!(buffer.received_len, 0);
    assert_eq!(buffer.insert(part(5, 0, 2, b"h")).unwrap(), None);
    let error = buffer.insert(part(5, 1, 2, b"e")).unwrap_err();
    assert!(error.to_string().contains("reassembled length mismatch"));
    assert_eq!(buffer.chunks, vec![None, None]);
    assert_eq!(buffer.received_len, 2);
}

#[test]
fn a_finished_message_is_passed_over_until_enough_others_are_finished() {
    let mut session = CarrierState::new();
    let limits = ReceiveLimits::new(MAX_REASSEMBLED_MESSAGE_LEN);
    let message = vec![0x61; MAX_FRAGMENT_PAYLOAD_LEN + 17];
    let piece = |id: u64, index: u16| {
        let bytes = match index {
            0 => &message[..MAX_FRAGMENT_PAYLOAD_LEN],
            _ => &message[MAX_FRAGMENT_PAYLOAD_LEN..],
        };
        fragment(DatagramKind::FrameFragment, id, message.len(), index, 2, bytes)
    };
    let far = Instant { nanos: START.nanos + 100 * REASSEMBLY_TTL_NANOS };
    let short = CarrierDatagram { kind: DatagramKind::Frame, payload: b"short".to_vec() };

    session.accept_datagram(piece(0, 0), limits, START).unwrap();
    assert!(session.accept_datagram(piece(0, 1), limits, START).unwrap().is_some());
    for id in 1..MAX_COMPLETED_FRAGMENT_KEYS as u64 {
        session.accept_datagram(piece(id, 0), limits, far).unwrap();
        session.accept_datagram(short.clone(), limits, far).unwrap();
        assert!(session.accept_datagram(piece(id, 1), limits, far).unwrap().is_some());
    }
    assert!(session.accept_datagram(piece(0, 0), limits, far).unwrap().is_none());
    assert!(session.accept_datagram(piece(0, 1), limits, far).unwrap().is_none());
    assert_eq!(session.in_flight(), 0);

    session.accept_datagram(piece(900, 0), limits, far).unwrap();
    assert!(session.accept_datagram(piece(900, 1), limits, far).unwrap().is_some());
    assert!(session.accept_datagram(piece(0, 0), limits, far).unwrap().is_none());
    assert_eq!(session.in_flight(), 1);
}
