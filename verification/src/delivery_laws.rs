//! What holds of every message on its way through a carrier: it reaches the
//! reader of its kind, in the order of arrival, and nothing is lost that fits.

use crate::bytes::{be_bytes, be_value, lemma_be_value_round_trip};
use crate::carrier_transport::{
    CarrierDatagram, DatagramKind, DatagramView, FragmentPayload, FragmentView, MessageKind,
    chunk_count_of, chunk_len_at, datagram_decoded, datagram_encoded, datagram_wire,
    decode_datagram, decode_fragment_payload, encode_datagram, encode_fragment_payload,
    fragment_wire, kind_byte, law_datagram_round_trip, law_fragment_round_trip, shape_refusal,
};
use crate::error::{QlinkErrorView, Result};
use crate::path_check_laws::{lemma_four_be_bytes, lemma_two_be_bytes};
use crate::reassembly::{
    AcceptView, BufferView, CarrierState, CarrierView, FragmentBuffer, FragmentKey, ListenerAction,
    ReceiveLimits, close_datagram, completed_by, datagram_accepted, datagram_received,
    dispatch_datagram, empty_buffer, fragment_accepted, fragment_stored, insert_refusal, inserted,
    is_complete, joined, limit_refusal, listener_datagram_kind, pruned, queue_view, remembered,
    send_refusal, wanted_limit, with_chunk,
};
use crate::time::Instant;
use vstd::prelude::*;

verus! {

// ---------------------------------------------------------------------------
// The wire
// ---------------------------------------------------------------------------

/// A datagram on the wire is a magic of six bytes, the version, the kind, the
/// length of the payload in four bytes, and the payload.
pub proof fn law_datagram_layout(kind: DatagramKind, payload: Seq<u8>)
    requires
        payload.len() <= 1188,
    ensures
        ({
            let wire = datagram_wire(kind, payload);
            &&& wire.len() == 12 + payload.len()
            &&& wire.subrange(0, 6) == seq![0x51u8, 0x4cu8, 0x43u8, 0x41u8, 0x52u8, 0x31u8]
            &&& wire[6] == 1
            &&& kind is Frame ==> wire[7] == 1
            &&& kind is AuthenticatedMessage ==> wire[7] == 2
            &&& kind is Close ==> wire[7] == 3
            &&& kind is FrameFragment ==> wire[7] == 4
            &&& kind is AuthenticatedFragment ==> wire[7] == 5
            &&& wire[8] as int * 0x100_0000 + wire[9] as int * 0x1_0000 + wire[10] as int * 0x100
                + wire[11] as int == payload.len()
            &&& wire.subrange(12, wire.len() as int) == payload
            &&& datagram_encoded(kind, payload) == Ok::<Seq<u8>, QlinkErrorView>(wire)
            &&& datagram_decoded(wire) == Ok::<DatagramView, QlinkErrorView>(
                DatagramView { kind, payload },
            )
        }),
{
    let wire = datagram_wire(kind, payload);
    let n = payload.len();
    law_datagram_round_trip(kind, payload);
    reveal_with_fuel(be_bytes, 5);
    assert(be_bytes(n, 4) =~= seq![
        (n / 256 / 256 / 256 % 256) as u8,
        (n / 256 / 256 % 256) as u8,
        (n / 256 % 256) as u8,
        (n % 256) as u8,
    ]);
    assert(wire.subrange(0, 6) =~= seq![0x51u8, 0x4cu8, 0x43u8, 0x41u8, 0x52u8, 0x31u8]);
    assert(wire.subrange(12, wire.len() as int) =~= payload);
    assert(wire[8] == be_bytes(n, 4)[0]);
    assert(wire[9] == be_bytes(n, 4)[1]);
    assert(wire[10] == be_bytes(n, 4)[2]);
    assert(wire[11] == be_bytes(n, 4)[3]);
    assert(n / 256 / 256 / 256 == 0 && n / 256 / 256 == 0);
}

/// A payload above the limit is not sent.
pub proof fn law_datagram_payload_is_limited(kind: DatagramKind, payload: Seq<u8>)
    ensures
        datagram_encoded(kind, payload) is Ok <==> payload.len() <= 1188,
{
}

/// Whatever decodes is the encoding of what comes out, byte for byte.
pub proof fn law_decoded_datagram_is_its_encoding(input: Seq<u8>)
    ensures
        datagram_decoded(input) matches Ok(d) ==> input == datagram_wire(d.kind, d.payload),
{
    if let Ok(d) = datagram_decoded(input) {
        lemma_be_value_round_trip(input.subrange(8, 12));
        assert(input.subrange(8, 12).len() == 4);
        assert(be_bytes(be_value(input.subrange(8, 12)), 4) =~= input.subrange(8, 12));
        assert(d.payload.len() == be_value(input.subrange(8, 12)));
        let wire = datagram_wire(d.kind, d.payload);
        assert(kind_byte(d.kind) == input[7]);
        assert(wire.len() == input.len());
        assert forall|i: int| 0 <= i < input.len() implies wire[i] == input[i] by {
            if i < 6 {
                assert(input.subrange(0, 6)[i] == input[i]);
            } else if 8 <= i < 12 {
                assert(input.subrange(8, 12)[i - 8] == input[i]);
            } else if i >= 12 {
                assert(d.payload[i - 12] == input[i]);
            }
        }
        assert(wire =~= input);
    }
}

/// A message is cut into as few pieces as hold it, all full but the last, which
/// is not empty.
pub proof fn law_message_is_cut_into_full_pieces(total_len: nat, index: nat)
    requires
        0 < total_len,
        index < chunk_count_of(total_len),
    ensures
        (chunk_count_of(total_len) - 1) * 1172 < total_len <= chunk_count_of(total_len) * 1172,
        index + 1 < chunk_count_of(total_len) ==> chunk_len_at(total_len, index) == 1172,
        index + 1 == chunk_count_of(total_len) ==> 0 < chunk_len_at(total_len, index) <= 1172
            && 1172 * index + chunk_len_at(total_len, index) == total_len,
{
}

/// A fragment is in shape exactly where its message needs cutting and is not too
/// long, its pieces are as many as that takes, and it is one of them of the right
/// length.
pub proof fn law_fragment_shape(
    total_len: nat,
    chunk_index: nat,
    chunk_count: nat,
    payload_len: nat,
)
    ensures
        shape_refusal(total_len, chunk_index, chunk_count, payload_len) is None <==> {
            &&& 1188 < total_len <= 1_048_576
            &&& (chunk_count - 1) * 1172 < total_len <= chunk_count * 1172
            &&& chunk_index < chunk_count
            &&& payload_len == if chunk_index + 1 == chunk_count {
                total_len - 1172 * chunk_index
            } else {
                1172
            }
        },
{
}

/// Messages up to a megabyte are sent, and no longer ones.
pub proof fn law_messages_up_to_a_megabyte_are_sent(len: nat)
    ensures
        send_refusal(len) is None <==> len <= 1_048_576,
{
}

/// Frames are never too long to be received; authenticated messages are exactly
/// above the limit.
pub proof fn law_limit_is_for_authenticated_messages(len: nat, max: nat)
    ensures
        limit_refusal(MessageKind::Frame, len, max) is None,
        limit_refusal(MessageKind::AuthenticatedMessage, len, max) is None <==> len <= max,
        wanted_limit(MessageKind::AuthenticatedMessage, max) == max,
        wanted_limit(MessageKind::Frame, max) == 65_536,
{
}

/// Sending gives one datagram for a message that fits one, and otherwise one for
/// each piece; only cut messages use up a number.
pub proof fn law_sending_numbers_cut_messages(
    state: &mut CarrierState,
    kind: MessageKind,
    payload: &[u8],
    r: Result<Vec<Vec<u8>>>,
)
    requires
        call_ensures(CarrierState::send_message, (state, kind, payload), r),
    ensures
        r is Ok <==> payload@.len() <= 1_048_576,
        payload@.len() <= 1188 ==> final(state)@ == old(state)@ && r->Ok_0@.len() == 1 && (
        r->Ok_0@[0])@ == datagram_wire(
            match kind {
                MessageKind::Frame => DatagramKind::Frame,
                MessageKind::AuthenticatedMessage => DatagramKind::AuthenticatedMessage,
            },
            payload@,
        ),
        payload@.len() > 1_048_576 ==> final(state)@ == old(state)@,
        1188 < payload@.len() <= 1_048_576 ==> {
            &&& (r->Ok_0@.len() - 1) * 1172 < payload@.len() <= r->Ok_0@.len() * 1172
            &&& old(state)@.next_message_id < u64::MAX ==> final(state)@.next_message_id == old(
                state,
            )@.next_message_id + 1
            &&& old(state)@.next_message_id == u64::MAX ==> final(state)@.next_message_id == 0
            &&& final(state)@.pending_frames == old(state)@.pending_frames
            &&& final(state)@.pending_authenticated == old(state)@.pending_authenticated
            &&& final(state)@.reassembly == old(state)@.reassembly
            &&& final(state)@.completed == old(state)@.completed
        },
{
    if let Ok(wire) = r {
        assert(queue_view(wire@).len() == wire@.len());
        if payload@.len() <= 1188 {
            assert(queue_view(wire@)[0] == wire@[0]@);
        }
    }
}

// ---------------------------------------------------------------------------
// Receiving
// ---------------------------------------------------------------------------

/// A frame that is waited for is handed out at once; while an authenticated
/// message is waited for it becomes the last of the waiting frames. Only a full
/// queue turns it away, and then nothing else changes.
pub proof fn law_frame_reaches_its_reader(
    s: CarrierView,
    max_size: nat,
    frame: Seq<u8>,
    now: Instant,
)
    requires
        frame.len() <= 1188,
    ensures
        ({
            let wire = datagram_wire(DatagramKind::Frame, frame);
            let wanted = datagram_received(s, MessageKind::Frame, max_size, wire, now);
            let other = datagram_received(
                s,
                MessageKind::AuthenticatedMessage,
                max_size,
                wire,
                now,
            );
            &&& wanted.0 == s
            &&& wanted.1 == Ok::<Option<Seq<u8>>, QlinkErrorView>(Some(frame))
            &&& s.pending_frames.len() < 64 ==> {
                &&& other.1 == Ok::<Option<Seq<u8>>, QlinkErrorView>(None)
                &&& other.0.pending_frames == s.pending_frames.push(frame)
                &&& other.0.pending_authenticated == s.pending_authenticated
                &&& other.0.reassembly == s.reassembly
                &&& other.0.completed == s.completed
                &&& other.0.next_message_id == s.next_message_id
            }
            &&& s.pending_frames.len() >= 64 ==> other.0 == s && other.1 == Err::<
                Option<Seq<u8>>,
                QlinkErrorView,
            >(QlinkErrorView::Protocol("native UDP carrier pending frame queue is full"@))
        }),
{
    law_datagram_layout(DatagramKind::Frame, frame);
}

/// An authenticated message that is waited for is handed out at once where it is
/// within the reader's limit. While a frame is waited for it becomes the last of
/// the waiting authenticated messages.
pub proof fn law_authenticated_message_reaches_its_reader(
    s: CarrierView,
    max_size: nat,
    message: Seq<u8>,
    now: Instant,
)
    requires
        message.len() <= 1188,
    ensures
        ({
            let wire = datagram_wire(DatagramKind::AuthenticatedMessage, message);
            let wanted = datagram_received(
                s,
                MessageKind::AuthenticatedMessage,
                max_size,
                wire,
                now,
            );
            let other = datagram_received(s, MessageKind::Frame, max_size, wire, now);
            &&& wanted.0 == s
            &&& message.len() <= max_size ==> wanted.1 == Ok::<Option<Seq<u8>>, QlinkErrorView>(
                Some(message),
            )
            &&& message.len() > max_size ==> wanted.1 is Err
            &&& s.pending_authenticated.len() < 64 ==> {
                &&& other.1 == Ok::<Option<Seq<u8>>, QlinkErrorView>(None)
                &&& other.0.pending_authenticated == s.pending_authenticated.push(message)
                &&& other.0.pending_frames == s.pending_frames
                &&& other.0.reassembly == s.reassembly
                &&& other.0.completed == s.completed
                &&& other.0.next_message_id == s.next_message_id
            }
            &&& s.pending_authenticated.len() >= 64 ==> other.0 == s && other.1 == Err::<
                Option<Seq<u8>>,
                QlinkErrorView,
            >(QlinkErrorView::Protocol("native UDP carrier pending authenticated queue is full"@))
        }),
{
    law_datagram_layout(DatagramKind::AuthenticatedMessage, message);
}

/// A message that the last of its pieces completes goes the same ways as one that
/// came whole. What does not complete a message, or is refused, moves no queue.
pub proof fn law_completed_message_reaches_its_reader(
    s: CarrierView,
    wanted: MessageKind,
    max_size: nat,
    d: DatagramView,
    now: Instant,
)
    requires
        d.payload.len() <= 1188,
    ensures
        ({
            let limit = if wanted is Frame {
                65_536
            } else {
                max_size
            };
            let a = datagram_accepted(s, d, limit, now);
            let r = datagram_received(s, wanted, max_size, datagram_wire(d.kind, d.payload), now);
            &&& a.outcome matches Err(e) ==> r.0 == a.state && r.1 == Err::<
                Option<Seq<u8>>,
                QlinkErrorView,
            >(e)
            &&& a.outcome == Ok::<Option<(MessageKind, Seq<u8>)>, QlinkErrorView>(None) ==> r.0
                == a.state && r.1 == Ok::<Option<Seq<u8>>, QlinkErrorView>(None)
            &&& a.outcome matches Ok(Some(m)) ==> {
                &&& m.0 == wanted && (wanted is Frame || m.1.len() <= max_size) ==> r.0 == a.state
                    && r.1 == Ok::<Option<Seq<u8>>, QlinkErrorView>(Some(m.1))
                &&& m.0 is Frame && !(wanted is Frame) && s.pending_frames.len() < 64 ==> r.1 == Ok::<
                    Option<Seq<u8>>,
                    QlinkErrorView,
                >(None) && r.0.pending_frames == s.pending_frames.push(m.1)
                    && r.0.pending_authenticated == s.pending_authenticated && r.0.reassembly
                    == a.state.reassembly && r.0.completed == a.state.completed
                &&& m.0 is AuthenticatedMessage && wanted is Frame
                    && s.pending_authenticated.len() < 64 ==> r.1 == Ok::<
                    Option<Seq<u8>>,
                    QlinkErrorView,
                >(None) && r.0.pending_authenticated == s.pending_authenticated.push(m.1)
                    && r.0.pending_frames == s.pending_frames && r.0.reassembly
                    == a.state.reassembly && r.0.completed == a.state.completed
            }
            &&& a.state.pending_frames == s.pending_frames
            &&& a.state.pending_authenticated == s.pending_authenticated
            &&& a.state.next_message_id == s.next_message_id
        }),
{
    law_datagram_layout(d.kind, d.payload);
}

/// A carrier after frames came in one by one while an authenticated message was
/// waited for.
pub open spec fn after_frames(
    s: CarrierView,
    frames: Seq<Seq<u8>>,
    max_size: nat,
    now: Instant,
) -> CarrierView
    decreases frames.len(),
{
    if frames.len() == 0 {
        s
    } else {
        datagram_received(
            after_frames(s, frames.drop_last(), max_size, now),
            MessageKind::AuthenticatedMessage,
            max_size,
            datagram_wire(DatagramKind::Frame, frames.last()),
            now,
        ).0
    }
}

/// Frames that come while an authenticated message is waited for all wait for
/// their own reader, in the order in which they came, as long as there is room.
pub proof fn law_waiting_frames_keep_their_order(
    s: CarrierView,
    frames: Seq<Seq<u8>>,
    max_size: nat,
    now: Instant,
)
    requires
        s.pending_frames.len() + frames.len() <= 64,
        forall|i: int| 0 <= i < frames.len() ==> (#[trigger] frames[i]).len() <= 1188,
    ensures
        after_frames(s, frames, max_size, now).pending_frames == s.pending_frames + frames,
        after_frames(s, frames, max_size, now).pending_authenticated == s.pending_authenticated,
    decreases frames.len(),
{
    if frames.len() == 0 {
        assert(s.pending_frames + frames =~= s.pending_frames);
    } else {
        let front = frames.drop_last();
        assert forall|i: int| 0 <= i < front.len() implies (#[trigger] front[i]).len() <= 1188 by {
            assert(front[i] == frames[i]);
        }
        law_waiting_frames_keep_their_order(s, front, max_size, now);
        assert(frames[frames.len() - 1].len() <= 1188);
        law_frame_reaches_its_reader(
            after_frames(s, front, max_size, now),
            max_size,
            frames.last(),
            now,
        );
        assert((s.pending_frames + front).push(frames.last()) =~= s.pending_frames + frames);
    }
}

/// The reader of a kind gets the message of that kind that waits longest, and the
/// others stay in their order.
pub proof fn law_longest_waiting_message_is_read_first(
    state: &mut CarrierState,
    wanted: MessageKind,
    max_size: usize,
    r: Option<Result<Vec<u8>>>,
)
    requires
        call_ensures(CarrierState::take_pending, (state, wanted, max_size), r),
    ensures
        final(state)@.reassembly == old(state)@.reassembly,
        final(state)@.completed == old(state)@.completed,
        final(state)@.next_message_id == old(state)@.next_message_id,
        wanted is Frame ==> {
            &&& final(state)@.pending_authenticated == old(state)@.pending_authenticated
            &&& r is None <==> old(state)@.pending_frames.len() == 0
            &&& old(state)@.pending_frames.len() == 0 ==> final(state)@ == old(state)@
            &&& old(state)@.pending_frames.len() > 0 ==> (r matches Some(Ok(v)) && seq![v@]
                + final(state)@.pending_frames == old(state)@.pending_frames)
        },
        wanted is AuthenticatedMessage ==> {
            let waiting = old(state)@.pending_authenticated;
            &&& final(state)@.pending_frames == old(state)@.pending_frames
            &&& r is None <==> waiting.len() == 0
            &&& waiting.len() == 0 ==> final(state)@ == old(state)@
            &&& waiting.len() > 0 ==> final(state)@.pending_authenticated == waiting.subrange(
                1,
                waiting.len() as int,
            )
            &&& waiting.len() > 0 && waiting[0].len() <= max_size ==> (r matches Some(Ok(v)) && v@
                == waiting[0])
            &&& waiting.len() > 0 && waiting[0].len() > max_size ==> (r matches Some(Err(_)))
        },
{
    if wanted is Frame && old(state)@.pending_frames.len() > 0 {
        let waiting = old(state)@.pending_frames;
        assert(seq![waiting[0]] + waiting.drop_first() =~= waiting);
    }
}

/// Taking a waiting message without a limit gives the one that waits longest.
pub proof fn law_popping_takes_the_longest_waiting(
    state: &mut CarrierState,
    kind: MessageKind,
    r: Option<Vec<u8>>,
)
    requires
        call_ensures(CarrierState::pop_pending, (state, kind), r),
    ensures
        ({
            let before = if kind is Frame {
                old(state)@.pending_frames
            } else {
                old(state)@.pending_authenticated
            };
            let after = if kind is Frame {
                final(state)@.pending_frames
            } else {
                final(state)@.pending_authenticated
            };
            &&& r is None <==> before.len() == 0
            &&& before.len() == 0 ==> final(state)@ == old(state)@
            &&& before.len() > 0 ==> seq![r->0@] + after == before
            &&& kind is Frame ==> final(state)@.pending_authenticated == old(
                state,
            )@.pending_authenticated
            &&& !(kind is Frame) ==> final(state)@.pending_frames == old(state)@.pending_frames
        }),
{
    let before = if kind is Frame {
        old(state)@.pending_frames
    } else {
        old(state)@.pending_authenticated
    };
    if before.len() > 0 {
        assert(seq![before[0]] + before.drop_first() =~= before);
    }
}

/// A message that is put away waits behind the others of its kind; a full queue
/// takes no more.
pub proof fn law_pushing_waits_behind_the_others(
    state: &mut CarrierState,
    kind: MessageKind,
    payload: Vec<u8>,
    r: Result<()>,
)
    requires
        call_ensures(CarrierState::push_pending, (state, kind, payload), r),
    ensures
        kind is Frame && old(state)@.pending_frames.len() < 64 ==> r is Ok
            && final(state)@.pending_frames == old(state)@.pending_frames.push(payload@)
            && final(state)@.pending_authenticated == old(state)@.pending_authenticated,
        kind is Frame && old(state)@.pending_frames.len() >= 64 ==> r is Err && final(state)@
            == old(state)@,
        !(kind is Frame) && old(state)@.pending_authenticated.len() < 64 ==> r is Ok
            && final(state)@.pending_authenticated == old(state)@.pending_authenticated.push(
            payload@,
        ) && final(state)@.pending_frames == old(state)@.pending_frames,
        !(kind is Frame) && old(state)@.pending_authenticated.len() >= 64 ==> r is Err
            && final(state)@ == old(state)@,
{
}

/// A closing datagram ends the reading and changes nothing; so does one that is
/// too long or does not decode.
pub proof fn law_unreadable_datagrams_change_nothing(
    s: CarrierView,
    wanted: MessageKind,
    max_size: nat,
    reason: Seq<u8>,
    bytes: Seq<u8>,
    now: Instant,
)
    requires
        reason.len() <= 1188,
    ensures
        datagram_received(
            s,
            wanted,
            max_size,
            datagram_wire(DatagramKind::Close, reason),
            now,
        ) == (
            s,
            Err::<Option<Seq<u8>>, QlinkErrorView>(
                QlinkErrorView::Protocol("native UDP carrier closed"@),
            ),
        ),
        bytes.len() > 1200 ==> datagram_received(s, wanted, max_size, bytes, now).0 == s
            && datagram_received(s, wanted, max_size, bytes, now).1 is Err,
        datagram_decoded(bytes) is Err ==> datagram_received(s, wanted, max_size, bytes, now).0 == s
            && datagram_received(s, wanted, max_size, bytes, now).1 is Err,
{
    law_datagram_layout(DatagramKind::Close, reason);
}

// ---------------------------------------------------------------------------
// Unfinished messages
// ---------------------------------------------------------------------------

/// Unfinished messages are kept for half a minute after their first piece, and
/// only those.
pub proof fn law_unfinished_messages_live_half_a_minute(
    table: Map<FragmentKey, BufferView>,
    now: Instant,
    key: FragmentKey,
)
    ensures
        pruned(table, now).dom().contains(key) <==> table.dom().contains(key) && now.nanos
            <= table[key].created_at.nanos + 30_000_000_000,
        pruned(table, now).dom().contains(key) ==> pruned(table, now)[key] == table[key],
{
}

/// A finished message is remembered as the latest; of more than two hundred and
/// fifty-six the oldest is forgotten, and one that is known already changes
/// nothing.
pub proof fn law_latest_finished_messages_are_remembered(keys: Seq<FragmentKey>, key: FragmentKey)
    requires
        keys.len() <= 256,
    ensures
        remembered(keys, key).contains(key),
        remembered(keys, key).len() <= 256,
        keys.contains(key) ==> remembered(keys, key) == keys,
        !keys.contains(key) && keys.len() < 256 ==> remembered(keys, key) == keys.push(key),
        !keys.contains(key) && keys.len() == 256 ==> remembered(keys, key) == keys.subrange(
            1,
            256,
        ).push(key),
{
    let r = remembered(keys, key);
    if !keys.contains(key) {
        if keys.len() == 256 {
            assert(r =~= keys.subrange(1, 256).push(key));
        }
        assert(r[r.len() - 1] == key);
    }
}

/// A piece of a message that is finished already is passed over.
pub proof fn law_pieces_of_finished_messages_are_passed_over(
    s: CarrierView,
    kind: MessageKind,
    f: FragmentView,
    max: nat,
    now: Instant,
)
    requires
        s.completed.contains(FragmentKey { kind, message_id: f.message_id as u64 }),
    ensures
        fragment_accepted(s, kind, f, max, now) == (AcceptView { state: s, outcome: Ok(None) }),
{
}

/// The first piece of a message opens it only where fewer than sixty-four others
/// are unfinished.
pub proof fn law_unfinished_messages_are_limited(
    s: CarrierView,
    key: FragmentKey,
    f: FragmentView,
    now: Instant,
)
    requires
        !pruned(s.reassembly, now).dom().contains(key),
        f.payload.len() <= f.total_len <= 1_048_576,
        f.chunk_index < f.chunk_count,
        f.chunk_count > 1,
    ensures
        pruned(s.reassembly, now).dom().len() >= 64 ==> fragment_stored(
            s,
            key,
            f,
            now,
        ).outcome is Err && fragment_stored(s, key, f, now).state.reassembly == pruned(
            s.reassembly,
            now,
        ),
        pruned(s.reassembly, now).dom().len() < 64 ==> {
            let a = fragment_stored(s, key, f, now);
            &&& a.outcome == Ok::<Option<(MessageKind, Seq<u8>)>, QlinkErrorView>(None)
            &&& a.state.reassembly.dom() == pruned(s.reassembly, now).dom().insert(key)
            &&& a.state.reassembly[key].created_at == now
            &&& a.state.reassembly[key].total_len == f.total_len
            &&& a.state.reassembly[key].received_len == f.payload.len()
            &&& a.state.reassembly[key].chunks.len() == f.chunk_count
            &&& a.state.reassembly[key].chunks[f.chunk_index as int] == Some(f.payload)
        },
{
    let b = empty_buffer(f.total_len, f.chunk_count, now);
    let next = with_chunk(b, f);
    let j: int = if f.chunk_index == 0 {
        1
    } else {
        0
    };
    assert(next.chunks[j] is None);
    assert(!is_complete(next.chunks));
}

/// A piece that comes twice is counted once.
pub proof fn law_repeated_piece_changes_nothing(b: BufferView, f: FragmentView)
    requires
        f.chunk_index < b.chunks.len(),
        b.chunks[f.chunk_index as int] is Some,
    ensures
        inserted(b, f) == b,
        completed_by(b, f) is None,
        f.total_len == b.total_len && f.chunk_count == b.chunks.len() && f.total_len <= 1_048_576
            ==> insert_refusal(b, f) is None,
{
}

/// A piece of another length or number of pieces than the message was announced
/// with is refused and not kept.
pub proof fn law_changed_terms_are_refused(b: BufferView, f: FragmentView)
    requires
        f.total_len != b.total_len || f.chunk_count != b.chunks.len() || f.chunk_index
            >= b.chunks.len(),
    ensures
        insert_refusal(b, f) is Some,
        inserted(b, f) == b,
        completed_by(b, f) is None,
{
}

// ---------------------------------------------------------------------------
// The listener
// ---------------------------------------------------------------------------

/// A listener opens a session exactly for a datagram that does not close, whose
/// sender has no session that takes it, while there is room; a session that is
/// gone, or closes, is forgotten.
pub proof fn law_listener_opens_and_forgets(
    kind: DatagramKind,
    delivery: Option<bool>,
    sessions: usize,
    a: ListenerAction,
)
    requires
        call_ensures(dispatch_datagram, (kind, delivery, sessions), a),
    ensures
        delivery == Some(true) ==> (if kind is Close {
            a is DeliveredAndForget
        } else {
            a is Delivered
        }),
        a is Open || a is ForgetAndOpen <==> !(kind is Close) && ((delivery is None && sessions
            < 1024) || (delivery == Some(false) && sessions <= 1024)),
        a is ForgetAndOpen || a is ForgetAndDrop <==> delivery == Some(false),
        delivery is None ==> a is Open || a is Drop,
{
}

/// A listener looks only at datagrams that decode and are not too long.
pub proof fn law_listener_reads_whole_datagrams(bytes: &[u8], r: Option<DatagramKind>)
    requires
        call_ensures(listener_datagram_kind, (bytes,), r),
    ensures
        r is Some <==> datagram_decoded(bytes@) is Ok && bytes@.len() <= 1200,
        r matches Some(kind) ==> kind == datagram_decoded(bytes@)->Ok_0.kind,
{
}

// ---------------------------------------------------------------------------
// The carrier itself
// ---------------------------------------------------------------------------

/// What a carrier does with a frame that comes whole: it hands it out, or keeps it
/// as the last for its own reader.
pub proof fn law_carrier_keeps_every_frame(
    state: &mut CarrierState,
    wanted: MessageKind,
    max_size: usize,
    bytes: &[u8],
    now: Instant,
    frame: Seq<u8>,
    r: Result<Option<Vec<u8>>>,
)
    requires
        call_ensures(CarrierState::receive_datagram, (state, wanted, max_size, bytes, now), r),
        frame.len() <= 1188,
        bytes@ == datagram_wire(DatagramKind::Frame, frame),
    ensures
        wanted is Frame ==> (r matches Ok(Some(v)) && v@ == frame) && final(state)@ == old(state)@,
        wanted is AuthenticatedMessage && old(state)@.pending_frames.len() < 64 ==> (r matches Ok(
            None,
        )) && final(state)@.pending_frames == old(state)@.pending_frames.push(frame)
            && final(state)@.pending_authenticated == old(state)@.pending_authenticated,
        wanted is AuthenticatedMessage && old(state)@.pending_frames.len() >= 64 ==> r is Err
            && final(state)@ == old(state)@,
{
    law_frame_reaches_its_reader(old(state)@, max_size as nat, frame, now);
}

/// What a carrier does with an authenticated message that comes whole.
pub proof fn law_carrier_keeps_every_authenticated_message(
    state: &mut CarrierState,
    wanted: MessageKind,
    max_size: usize,
    bytes: &[u8],
    now: Instant,
    message: Seq<u8>,
    r: Result<Option<Vec<u8>>>,
)
    requires
        call_ensures(CarrierState::receive_datagram, (state, wanted, max_size, bytes, now), r),
        message.len() <= 1188,
        bytes@ == datagram_wire(DatagramKind::AuthenticatedMessage, message),
    ensures
        wanted is AuthenticatedMessage && message.len() <= max_size ==> (r matches Ok(Some(v)) && v@
            == message) && final(state)@ == old(state)@,
        wanted is AuthenticatedMessage && message.len() > max_size ==> r is Err,
        wanted is Frame && old(state)@.pending_authenticated.len() < 64 ==> (r matches Ok(None))
            && final(state)@.pending_authenticated == old(state)@.pending_authenticated.push(
            message,
        ) && final(state)@.pending_frames == old(state)@.pending_frames,
        wanted is Frame && old(state)@.pending_authenticated.len() >= 64 ==> r is Err
            && final(state)@ == old(state)@,
{
    law_authenticated_message_reaches_its_reader(old(state)@, max_size as nat, message, now);
}

/// Accepting a datagram hands out what it brings or completes, and follows the
/// reassembly in everything else.
pub proof fn law_carrier_accepts_datagrams(
    state: &mut CarrierState,
    datagram: CarrierDatagram,
    limits: ReceiveLimits,
    now: Instant,
    r: Result<Option<(MessageKind, Vec<u8>)>>,
)
    requires
        call_ensures(CarrierState::accept_datagram, (state, datagram, limits, now), r),
    ensures
        datagram@.kind is Frame ==> (r matches Ok(Some(m)) && m.0 is Frame && m.1@
            == datagram@.payload) && final(state)@ == old(state)@,
        datagram@.kind is AuthenticatedMessage && datagram@.payload.len()
            <= limits.authenticated_message_max ==> (r matches Ok(Some(m))
            && m.0 is AuthenticatedMessage && m.1@ == datagram@.payload) && final(state)@ == old(
            state,
        )@,
        datagram@.kind is AuthenticatedMessage && datagram@.payload.len()
            > limits.authenticated_message_max ==> r is Err && final(state)@ == old(state)@,
        datagram@.kind is Close ==> r is Err && final(state)@ == old(state)@,
        final(state)@.pending_frames == old(state)@.pending_frames,
        final(state)@.pending_authenticated == old(state)@.pending_authenticated,
        final(state)@.next_message_id == old(state)@.next_message_id,
        final(state)@ == datagram_accepted(
            old(state)@,
            datagram@,
            limits.authenticated_message_max as nat,
            now,
        ).state,
{
}

/// A new carrier holds nothing and numbers its messages from one.
pub proof fn law_new_carrier_is_empty(state: CarrierState)
    requires
        call_ensures(CarrierState::new, (), state),
    ensures
        state@.pending_frames.len() == 0,
        state@.pending_authenticated.len() == 0,
        state@.reassembly == Map::<FragmentKey, BufferView>::empty(),
        state@.completed.len() == 0,
        state@.next_message_id == 1,
{
}

/// Closing sends the reason, where it fits one datagram.
pub proof fn law_closing_sends_the_reason(reason: &[u8], r: Option<Vec<u8>>)
    requires
        call_ensures(close_datagram, (reason,), r),
    ensures
        r is Some <==> reason@.len() <= 1188,
        r matches Some(v) ==> datagram_decoded(v@) == Ok::<DatagramView, QlinkErrorView>(
            DatagramView { kind: DatagramKind::Close, payload: reason@ },
        ),
{
    if reason@.len() <= 1188 {
        law_datagram_layout(DatagramKind::Close, reason@);
    }
}

/// What is encoded is decoded again, for datagrams and for fragments.
pub proof fn law_encoded_is_decoded(
    kind: DatagramKind,
    payload: &[u8],
    wire: Result<Vec<u8>>,
    input: &[u8],
    back: Result<CarrierDatagram>,
)
    requires
        call_ensures(encode_datagram, (kind, payload), wire),
        wire is Ok,
        input@ == wire->Ok_0@,
        call_ensures(decode_datagram, (input,), back),
    ensures
        back matches Ok(d) && d@.kind == kind && d@.payload == payload@,
{
    law_datagram_layout(kind, payload@);
}

/// A fragment that is encoded is decoded again, field by field.
pub proof fn law_encoded_fragment_is_decoded(
    message_id: u64,
    total_len: u32,
    chunk_index: u16,
    chunk_count: u16,
    payload: &[u8],
    wire: Result<Vec<u8>>,
    input: &[u8],
    back: Result<FragmentPayload>,
)
    requires
        call_ensures(
            encode_fragment_payload,
            (message_id, total_len, chunk_index, chunk_count, payload),
            wire,
        ),
        wire is Ok,
        input@ == wire->Ok_0@,
        call_ensures(decode_fragment_payload, (input,), back),
    ensures
        back matches Ok(f) && f@.message_id == message_id && f@.total_len == total_len
            && f@.chunk_index == chunk_index && f@.chunk_count == chunk_count && f@.payload
            == payload@,
        input@.len() == 16 + payload@.len(),
{
    law_fragment_round_trip(
        FragmentView {
            message_id: message_id as nat,
            total_len: total_len as nat,
            chunk_index: chunk_index as nat,
            chunk_count: chunk_count as nat,
            payload: payload@,
        },
    );
}

/// A fragment is encoded exactly where it is in shape.
pub proof fn law_only_shapely_fragments_are_encoded(
    message_id: u64,
    total_len: u32,
    chunk_index: u16,
    chunk_count: u16,
    payload: &[u8],
    wire: Result<Vec<u8>>,
)
    requires
        call_ensures(
            encode_fragment_payload,
            (message_id, total_len, chunk_index, chunk_count, payload),
            wire,
        ),
    ensures
        wire is Ok <==> {
            &&& 1188 < total_len <= 1_048_576
            &&& (chunk_count - 1) * 1172 < total_len <= chunk_count * 1172
            &&& chunk_index < chunk_count
            &&& payload@.len() == if chunk_index + 1 == chunk_count {
                total_len - 1172 * chunk_index
            } else {
                1172
            }
        },
{
    law_fragment_shape(
        total_len as nat,
        chunk_index as nat,
        chunk_count as nat,
        payload@.len(),
    );
}

/// A piece goes into its message's buffer: refused where it does not fit, counted
/// once, and handing out the message where it was the last that was missing.
pub proof fn law_buffer_takes_its_pieces(
    buffer: &mut FragmentBuffer,
    fragment: FragmentPayload,
    r: Result<Option<Vec<u8>>>,
)
    requires
        call_ensures(FragmentBuffer::insert, (buffer, fragment), r),
    ensures
        ({
            let b = old(buffer)@;
            let t = final(buffer)@;
            let f = fragment@;
            let i = f.chunk_index as int;
            let fits = f.total_len == b.total_len && f.total_len <= 1_048_576 && f.chunk_count
                == b.chunks.len() && f.chunk_index < b.chunks.len();
            let filled = b.chunks.update(i, Some(f.payload));
            let missing = exists|k: int|
                0 <= k < b.chunks.len() && k != i && #[trigger] b.chunks[k] is None;
            &&& !fits ==> r is Err && t == b
            &&& fits && b.chunks[i] is Some ==> (r matches Ok(None)) && t == b
            &&& fits && b.chunks[i] is None && b.received_len + f.payload.len() > b.total_len
                ==> r is Err
            &&& fits && b.chunks[i] is None && b.received_len + f.payload.len() <= b.total_len
                && missing ==> (r matches Ok(None)) && t.chunks == filled && t.received_len
                == b.received_len + f.payload.len() && t.total_len == b.total_len && t.created_at
                == b.created_at
            &&& fits && b.chunks[i] is None && b.received_len + f.payload.len() <= b.total_len
                && !missing ==> (r matches Ok(Some(v)) ==> v@ == joined(filled) && v@.len()
                == b.total_len) && !(r matches Ok(None))
        }),
{
    let b = old(buffer)@;
    let f = fragment@;
    let i = f.chunk_index as int;
    if f.chunk_index < b.chunks.len() {
        let filled = b.chunks.update(i, Some(f.payload));
        if exists|k: int| 0 <= k < b.chunks.len() && k != i && #[trigger] b.chunks[k] is None {
            let k = choose|k: int|
                0 <= k < b.chunks.len() && k != i && #[trigger] b.chunks[k] is None;
            assert(filled[k] is None);
            assert(!is_complete(filled));
        } else {
            assert forall|k: int| 0 <= k < filled.len() implies (#[trigger] filled[k]) is Some by {
                if k != i {
                    assert(b.chunks[k] is Some);
                }
            }
            assert(is_complete(filled));
        }
    }
}

/// Joined pieces stand one after the other.
pub proof fn law_joined_pieces_stand_in_order(chunks: Seq<Option<Seq<u8>>>, bytes: Seq<u8>)
    ensures
        joined(chunks.push(Some(bytes))) == joined(chunks) + bytes,
        joined(chunks.push(None)) == joined(chunks),
        joined(Seq::<Option<Seq<u8>>>::empty()) == Seq::<u8>::empty(),
{
    assert(chunks.push(Some(bytes)).drop_last() =~= chunks);
    assert(chunks.push(None::<Seq<u8>>).drop_last() =~= chunks);
}

/// A fragment is its message's number in eight bytes, the message's length in
/// four, its place and the number of pieces in two each, and the piece.
pub proof fn law_fragment_layout(f: FragmentView)
    requires
        f.message_id < 0x1_0000_0000,
        f.total_len < 0x1_0000_0000,
        f.chunk_index < 0x1_0000,
        f.chunk_count < 0x1_0000,
    ensures
        ({
            let wire = fragment_wire(f);
            &&& wire.len() == 16 + f.payload.len()
            &&& wire.subrange(0, 4) == seq![0u8, 0u8, 0u8, 0u8]
            &&& wire[4] as int * 0x100_0000 + wire[5] as int * 0x1_0000 + wire[6] as int * 0x100
                + wire[7] as int == f.message_id
            &&& wire[8] as int * 0x100_0000 + wire[9] as int * 0x1_0000 + wire[10] as int * 0x100
                + wire[11] as int == f.total_len
            &&& wire[12] as int * 256 + wire[13] as int == f.chunk_index
            &&& wire[14] as int * 256 + wire[15] as int == f.chunk_count
            &&& wire.subrange(16, wire.len() as int) == f.payload
        }),
{
    let wire = fragment_wire(f);
    lemma_eight_be_bytes(f.message_id);
    lemma_four_be_bytes(f.message_id);
    lemma_four_be_bytes(f.total_len);
    let id = be_bytes(f.message_id, 8);
    assert(id.len() == 8);
    lemma_two_be_bytes(f.chunk_index);
    lemma_two_be_bytes(f.chunk_count);
    assert(wire.len() == 16 + f.payload.len());
    assert forall|i: int| 0 <= i < 8 implies wire[i] == id[i] by {}
    assert(wire.subrange(0, 4) =~= seq![0u8, 0u8, 0u8, 0u8]);
    assert(wire.subrange(16, wire.len() as int) =~= f.payload);
    let total = be_bytes(f.total_len, 4);
    assert(wire[8] == total[0] && wire[9] == total[1] && wire[10] == total[2] && wire[11]
        == total[3]);
    lemma_four_digits_back(f.message_id as int);
    lemma_four_digits_back(f.total_len as int);
}

proof fn lemma_four_digits_back(n: int)
    requires
        0 <= n < 0x1_0000_0000,
    ensures
        n / 0x100_0000 * 0x100_0000 + n / 0x1_0000 % 256 * 0x1_0000 + n / 0x100 % 256 * 0x100 + n
            % 256 == n,
        0 <= n / 0x100_0000 < 256,
{
    assert(n / 0x100 / 0x100 == n / 0x1_0000);
    assert(n / 0x1_0000 / 0x100 == n / 0x100_0000);
}

proof fn lemma_eight_be_bytes(n: nat)
    requires
        n < 0x1_0000_0000,
    ensures
        be_bytes(n, 8) == seq![0u8, 0u8, 0u8, 0u8] + be_bytes(n, 4),
{
    lemma_four_be_bytes(n);
    reveal_with_fuel(be_bytes, 9);
    assert(n / 256 / 256 / 256 / 256 == 0);
    assert(be_bytes(n, 8) =~= be_bytes(0, 4).push((n / 256 / 256 / 256 % 256) as u8).push(
        (n / 256 / 256 % 256) as u8,
    ).push((n / 256 % 256) as u8).push((n % 256) as u8));
    assert(be_bytes(0, 4) =~= seq![0u8, 0u8, 0u8, 0u8]);
    assert(n / 256 / 256 / 256 == n / 0x100_0000);
    assert(n / 256 / 256 == n / 0x1_0000);
}

} // verus!
