//! What holds of messages that are cut, carried and put together again.

use crate::carrier_transport::{
    DatagramKind, DatagramView, FragmentView, MAX_CARRIER_PAYLOAD_LEN, MAX_COMPLETED_FRAGMENT_KEYS,
    MAX_FRAGMENT_PAYLOAD_LEN, MAX_REASSEMBLED_MESSAGE_LEN, MAX_REASSEMBLY_ENTRIES,
    MAX_UDP_DATAGRAM_LEN, MessageKind, REASSEMBLY_TTL_NANOS, chunk_count_of, chunk_len_at,
    complete_kind, datagram_decoded, fragment_decoded, fragment_kind, fragment_refusal,
    law_datagram_round_trip, law_fragment_round_trip, lemma_chunk_len, message_kind_of,
    shape_refusal,
};
use crate::error::{QlinkErrorView, Result};
use crate::reassembly::{
    AcceptView, BufferView, CarrierView, FragmentKey, buffer_for, chunk_of, completed_by,
    datagram_accepted, fragment_at, fragment_datagram, fragment_stored, insert_refusal, inserted,
    is_bounded, is_complete, is_live, joined, lemma_received_none, lemma_received_update,
    limit_refusal, message_wire, pruned, received_size, remembered, send_refusal, with_chunk,
};
use crate::time::{Instant, elapsed};
use vstd::map::*;
use vstd::prelude::*;

verus! {

/// A message that is cut into fragments.
pub open spec fn is_cut(message: Seq<u8>) -> bool {
    MAX_CARRIER_PAYLOAD_LEN < message.len() <= MAX_REASSEMBLED_MESSAGE_LEN
}

/// How long the first `n` chunks of a message are together.
spec fn prefix_len(message: Seq<u8>, n: nat) -> int {
    if n >= chunk_count_of(message.len()) {
        message.len() as int
    } else {
        MAX_FRAGMENT_PAYLOAD_LEN * n
    }
}

/// A message of which exactly the chunks of a set have come.
pub open spec fn is_partial(b: BufferView, message: Seq<u8>, got: Set<nat>) -> bool {
    &&& b.total_len == message.len()
    &&& b.received_len == received_size(b.chunks)
    &&& b.chunks.len() == chunk_count_of(message.len())
    &&& forall|i: int|
        0 <= i < b.chunks.len() ==> #[trigger] b.chunks[i] == if got.contains(i as nat) {
            Some(chunk_of(message, i as nat))
        } else {
            None::<Seq<u8>>
        }
}

/// The first chunks that have come are not longer than they are together, and
/// where all of them have come they are the start of the message.
proof fn lemma_prefix(b: BufferView, message: Seq<u8>, got: Set<nat>, n: nat)
    requires
        is_cut(message),
        is_partial(b, message, got),
        n <= b.chunks.len(),
    ensures
        received_size(b.chunks.subrange(0, n as int)) <= prefix_len(message, n),
        (forall|i: int| 0 <= i < n ==> (#[trigger] b.chunks[i]) is Some) ==> joined(
            b.chunks.subrange(0, n as int),
        ) == message.subrange(0, prefix_len(message, n)),
    decreases n,
{
    if n == 0 {
        assert(b.chunks.subrange(0, 0) =~= Seq::empty());
        assert(message.subrange(0, 0) =~= Seq::empty());
    } else {
        let m = (n - 1) as nat;
        lemma_prefix(b, message, got, m);
        lemma_chunk_len(message.len(), m);
        let part = b.chunks.subrange(0, n as int);
        assert(part.drop_last() =~= b.chunks.subrange(0, m as int));
        assert(part.last() == b.chunks[m as int]);
        assert(prefix_len(message, m) == MAX_FRAGMENT_PAYLOAD_LEN * m);
        assert(prefix_len(message, n) == MAX_FRAGMENT_PAYLOAD_LEN * m + chunk_len_at(
            message.len(),
            m,
        ));
        if forall|i: int| 0 <= i < n ==> (#[trigger] b.chunks[i]) is Some {
            assert(b.chunks[m as int] is Some);
            assert(message.subrange(0, prefix_len(message, m)) + chunk_of(message, m)
                =~= message.subrange(0, prefix_len(message, n)));
        }
    }
}

/// A fragment of a message keeps to the shape of fragments.
proof fn lemma_fragment_in_shape(message: Seq<u8>, message_id: u64, index: nat)
    requires
        is_cut(message),
        index < chunk_count_of(message.len()),
    ensures
        fragment_refusal(fragment_at(message, message_id, index)) is None,
        shape_refusal(
            message.len(),
            index,
            chunk_count_of(message.len()),
            chunk_of(message, index).len(),
        ) is None,
{
    lemma_chunk_len(message.len(), index);
}

/// All chunks of a message are in a set.
pub open spec fn covers(got: Set<nat>, message: Seq<u8>) -> bool {
    forall|i: nat| i < chunk_count_of(message.len()) ==> #[trigger] got.contains(i)
}

/// A fragment of the message itself always belongs to an unfinished message, and
/// the last one to come completes it.
proof fn lemma_insert_partial(
    b: BufferView,
    message: Seq<u8>,
    message_id: u64,
    got: Set<nat>,
    index: nat,
)
    requires
        is_cut(message),
        is_partial(b, message, got),
        index < chunk_count_of(message.len()),
        !covers(got, message),
    ensures
        ({
            let f = fragment_at(message, message_id, index);
            &&& insert_refusal(b, f) is None
            &&& !covers(got.insert(index), message) ==> is_partial(
                inserted(b, f),
                message,
                got.insert(index),
            )
            &&& inserted(b, f).created_at == b.created_at
            &&& completed_by(b, f) == if covers(got.insert(index), message) {
                Some(message)
            } else {
                None
            }
        }),
{
    let f = fragment_at(message, message_id, index);
    let after = with_chunk(b, f);
    let count = chunk_count_of(message.len());
    if got.contains(index) {
        assert(b.chunks[index as int] is Some);
        assert(got.insert(index) =~= got);
    } else {
        assert(b.chunks[index as int] is None);
        lemma_received_update(b.chunks, index as int, f.payload);
        assert(is_partial(after, message, got.insert(index)));
        lemma_prefix(after, message, got.insert(index), count);
        assert(after.chunks.subrange(0, count as int) =~= after.chunks);
        assert(message.subrange(0, message.len() as int) =~= message);
        if is_complete(after.chunks) {
            assert forall|i: nat| i < count implies #[trigger] got.insert(index).contains(i) by {
                assert(after.chunks[i as int] is Some);
            }
        }
        if covers(got.insert(index), message) {
            assert forall|i: int| 0 <= i < after.chunks.len() implies (
            #[trigger] after.chunks[i]) is Some by {
                assert(got.insert(index).contains(i as nat));
            }
        }
    }
}

/// What a datagram that comes in is, seen from one message: a fragment of it, or
/// anything else.
pub enum Incoming {
    Part(nat),
    Other(DatagramView),
}

/// A datagram that comes in, the limit it is read under, and the time.
pub struct Arrival {
    pub what: Incoming,
    pub max: nat,
    pub at: Instant,
}

/// The datagram of an arrival.
pub open spec fn datagram_of(
    kind: MessageKind,
    message: Seq<u8>,
    message_id: u64,
    a: Arrival,
) -> DatagramView {
    match a.what {
        Incoming::Part(index) => fragment_datagram(kind, message, message_id, index),
        Incoming::Other(d) => d,
    }
}

/// The chunks of a message that are among some arrivals.
pub open spec fn parts(arrivals: Seq<Arrival>) -> Set<nat> {
    Set::new(
        |i: nat|
            exists|k: int|
                0 <= k < arrivals.len() && (#[trigger] arrivals[k]).what == Incoming::Part(i),
    )
}

/// A datagram that is no fragment of the message with this key.
pub open spec fn is_apart(d: DatagramView, key: FragmentKey) -> bool {
    fragment_decoded(d.payload) matches Ok(f) ==> d.kind != fragment_kind(key.kind)
        || f.message_id as u64 != key.message_id
}

/// A datagram that may come while a message is under way: a fragment of it that is
/// within the limit, or one that is not about it, before the message is too old.
pub open spec fn is_expected(
    kind: MessageKind,
    message: Seq<u8>,
    message_id: u64,
    a: Arrival,
    first: Instant,
) -> bool {
    &&& elapsed(first, a.at) <= REASSEMBLY_TTL_NANOS
    &&& match a.what {
        Incoming::Part(index) => index < chunk_count_of(message.len()) && limit_refusal(
            kind,
            message.len(),
            a.max,
        ) is None,
        Incoming::Other(d) => is_apart(d, FragmentKey { kind, message_id }),
    }
}

/// Arrivals that begin with a fragment of a message, at a session that can take it:
/// its number is not in use, and there is room.
pub open spec fn can_come(
    s: CarrierView,
    kind: MessageKind,
    message: Seq<u8>,
    message_id: u64,
    arrivals: Seq<Arrival>,
) -> bool {
    let key = FragmentKey { kind, message_id };
    &&& is_cut(message)
    &&& arrivals.len() > 0
    &&& arrivals[0].what is Part
    &&& !s.completed.contains(key)
    &&& !pruned(s.reassembly, arrivals[0].at).dom().contains(key)
    &&& pruned(s.reassembly, arrivals[0].at).dom().len() < MAX_REASSEMBLY_ENTRIES
    &&& forall|k: int|
        0 <= k < arrivals.len() ==> is_expected(
            kind,
            message,
            message_id,
            #[trigger] arrivals[k],
            arrivals[0].at,
        )
}

/// A session after some arrivals.
pub open spec fn fed(
    s: CarrierView,
    kind: MessageKind,
    message: Seq<u8>,
    message_id: u64,
    arrivals: Seq<Arrival>,
) -> CarrierView
    decreases arrivals.len(),
{
    if arrivals.len() == 0 {
        s
    } else {
        let a = arrivals.last();
        datagram_accepted(
            fed(s, kind, message, message_id, arrivals.drop_last()),
            datagram_of(kind, message, message_id, a),
            a.max,
            a.at,
        ).state
    }
}

/// What the last of some arrivals comes to.
pub open spec fn last_outcome(
    s: CarrierView,
    kind: MessageKind,
    message: Seq<u8>,
    message_id: u64,
    arrivals: Seq<Arrival>,
) -> Result<Option<(MessageKind, Seq<u8>)>, QlinkErrorView> {
    let a = arrivals.last();
    datagram_accepted(
        fed(s, kind, message, message_id, arrivals.drop_last()),
        datagram_of(kind, message, message_id, a),
        a.max,
        a.at,
    ).outcome
}

/// The session while a message is under way.
spec fn is_coming(
    s: CarrierView,
    key: FragmentKey,
    message: Seq<u8>,
    got: Set<nat>,
    first: Instant,
) -> bool {
    &&& !s.completed.contains(key)
    &&& s.reassembly.dom().contains(key)
    &&& is_partial(s.reassembly[key], message, got)
    &&& s.reassembly[key].created_at == first
}

/// The session after a message was finished, and at most `age` others since.
spec fn is_done(s: CarrierView, key: FragmentKey, age: int) -> bool {
    exists|p: int|
        0 <= p < s.completed.len() && #[trigger] s.completed[p] == key && s.completed.len() - p
            <= age + 1
}

/// A message that is finished is remembered.
proof fn lemma_remembered(keys: Seq<FragmentKey>, key: FragmentKey)
    requires
        !keys.contains(key),
    ensures
        ({
            let after = remembered(keys, key);
            after.len() > 0 && after[after.len() - 1] == key
        }),
{
    let pushed = keys.push(key);
    assert(pushed[pushed.len() - 1] == key);
    if keys.len() >= MAX_COMPLETED_FRAGMENT_KEYS {
        let rest = pushed.drop_first();
        assert(rest[rest.len() - 1] == key);
    }
}

/// The first fragment of a message, or one more while it is under way.
proof fn lemma_part_comes(
    s: CarrierView,
    kind: MessageKind,
    message: Seq<u8>,
    message_id: u64,
    got: Set<nat>,
    index: nat,
    max: nat,
    at: Instant,
    first: Instant,
)
    requires
        is_cut(message),
        index < chunk_count_of(message.len()),
        limit_refusal(kind, message.len(), max) is None,
        !covers(got, message),
        elapsed(first, at) <= REASSEMBLY_TTL_NANOS,
        ({
            let key = FragmentKey { kind, message_id };
            ||| is_coming(s, key, message, got, first)
            ||| {
                &&& got =~= Set::empty()
                &&& at == first
                &&& !s.completed.contains(key)
                &&& !pruned(s.reassembly, at).dom().contains(key)
                &&& pruned(s.reassembly, at).dom().len() < MAX_REASSEMBLY_ENTRIES
            }
        }),
    ensures
        ({
            let key = FragmentKey { kind, message_id };
            let a = datagram_accepted(
                s,
                fragment_datagram(kind, message, message_id, index),
                max,
                at,
            );
            if covers(got.insert(index), message) {
                &&& a.outcome == Ok::<Option<(MessageKind, Seq<u8>)>, QlinkErrorView>(
                    Some((kind, message)),
                )
                &&& is_done(a.state, key, 0)
            } else {
                &&& a.outcome == Ok::<Option<(MessageKind, Seq<u8>)>, QlinkErrorView>(None)
                &&& is_coming(a.state, key, message, got.insert(index), first)
            }
        }),
{
    let key = FragmentKey { kind, message_id };
    let f = fragment_at(message, message_id, index);
    lemma_fragment_in_shape(message, message_id, index);
    law_fragment_round_trip(f);
    let table = pruned(s.reassembly, at);
    let b = buffer_for(table, key, f, at);
    if is_coming(s, key, message, got, first) {
        assert(is_live(s.reassembly[key], at));
        assert(table.dom().contains(key));
    } else {
        lemma_received_none(b.chunks);
    }
    assert(is_partial(b, message, got));
    assert(b.created_at == first);
    lemma_insert_partial(b, message, message_id, got, index);
    let a = datagram_accepted(s, fragment_datagram(kind, message, message_id, index), max, at);
    assert(a == fragment_stored(s, key, f, at));
    if covers(got.insert(index), message) {
        lemma_remembered(s.completed, key);
        let after = a.state.completed;
        assert(after[after.len() - 1] == key);
    }
}

/// Remembering one finished message adds no other, and forgets only the oldest.
proof fn lemma_others_remembered(
    keys: Seq<FragmentKey>,
    other: FragmentKey,
    key: FragmentKey,
    age: int,
)
    requires
        other != key,
    ensures
        remembered(keys, other).contains(key) ==> keys.contains(key),
        forall|p: int|
            0 <= p < keys.len() && #[trigger] keys[p] == key && keys.len() - p <= age + 1 && age + 1
                < MAX_COMPLETED_FRAGMENT_KEYS ==> exists|q: int|
                0 <= q < remembered(keys, other).len() && #[trigger] remembered(keys, other)[q]
                    == key && remembered(keys, other).len() - q <= age + 2,
{
    let after = remembered(keys, other);
    let shift: int = if !keys.contains(other) && keys.len() >= MAX_COMPLETED_FRAGMENT_KEYS {
        1
    } else {
        0
    };
    if after.contains(key) {
        let p = choose|p: int| 0 <= p < after.len() && after[p] == key;
        assert(keys[p + shift] == key);
    }
    assert forall|p: int|
        0 <= p < keys.len() && #[trigger] keys[p] == key && keys.len() - p <= age + 1 && age + 1
            < MAX_COMPLETED_FRAGMENT_KEYS implies exists|q: int|
        0 <= q < after.len() && #[trigger] after[q] == key && after.len() - q <= age + 2 by {
        assert(after[p - shift] == key);
    }
}

/// A datagram that is not about a message leaves it as it is.
proof fn lemma_other_comes(
    s: CarrierView,
    d: DatagramView,
    max: nat,
    at: Instant,
    key: FragmentKey,
    message: Seq<u8>,
    got: Set<nat>,
    first: Instant,
)
    requires
        is_apart(d, key),
        elapsed(first, at) <= REASSEMBLY_TTL_NANOS,
        is_coming(s, key, message, got, first),
    ensures
        is_coming(datagram_accepted(s, d, max, at).state, key, message, got, first),
{
    let t = datagram_accepted(s, d, max, at).state;
    let table = pruned(s.reassembly, at);
    if t.completed != s.completed {
        let other = FragmentKey {
            kind: message_kind_of(d.kind)->0,
            message_id: fragment_decoded(d.payload)->Ok_0.message_id as u64,
        };
        assert(other != key);
        assert(t.completed == remembered(s.completed, other));
        lemma_others_remembered(s.completed, other, key, 0);
    }
    assert(is_live(s.reassembly[key], at));
    assert(table.dom().contains(key));
}

/// A fragment of a finished message is passed over.
proof fn lemma_part_again(
    s: CarrierView,
    kind: MessageKind,
    message: Seq<u8>,
    message_id: u64,
    index: nat,
    max: nat,
    at: Instant,
    age: int,
)
    requires
        is_cut(message),
        index < chunk_count_of(message.len()),
        is_done(s, FragmentKey { kind, message_id }, age),
    ensures
        datagram_accepted(s, fragment_datagram(kind, message, message_id, index), max, at) == (
        AcceptView { state: s, outcome: Ok(None) }),
{
    lemma_fragment_in_shape(message, message_id, index);
    law_fragment_round_trip(fragment_at(message, message_id, index));
    assert(s.completed.contains(FragmentKey { kind, message_id }));
}

/// One more arrival adds the chunk that it brings, if it brings one.
proof fn lemma_parts_step(arrivals: Seq<Arrival>)
    requires
        arrivals.len() > 0,
    ensures
        parts(arrivals) =~= match arrivals.last().what {
            Incoming::Part(index) => parts(arrivals.drop_last()).insert(index),
            Incoming::Other(_) => parts(arrivals.drop_last()),
        },
{
    let front = arrivals.drop_last();
    assert forall|i: nat| parts(arrivals).contains(i) == (parts(front).contains(i)
        || arrivals.last().what == Incoming::Part(i)) by {
        if parts(arrivals).contains(i) {
            let k = choose|k: int|
                0 <= k < arrivals.len() && (#[trigger] arrivals[k]).what == Incoming::Part(i);
            if k < front.len() {
                assert(front[k].what == Incoming::Part(i));
            }
        }
        if parts(front).contains(i) {
            let k = choose|k: int|
                0 <= k < front.len() && (#[trigger] front[k]).what == Incoming::Part(i);
            assert(arrivals[k].what == Incoming::Part(i));
        }
        assert(arrivals[arrivals.len() - 1] == arrivals.last());
    }
}

/// Arrivals without the last one can come, where one is left.
proof fn lemma_front_can_come(
    s: CarrierView,
    kind: MessageKind,
    message: Seq<u8>,
    message_id: u64,
    arrivals: Seq<Arrival>,
)
    requires
        can_come(s, kind, message, message_id, arrivals),
    ensures
        arrivals.len() > 1 ==> can_come(s, kind, message, message_id, arrivals.drop_last()),
        is_expected(kind, message, message_id, arrivals.last(), arrivals[0].at),
{
    let front = arrivals.drop_last();
    assert forall|k: int| 0 <= k < front.len() implies is_expected(
        kind,
        message,
        message_id,
        #[trigger] front[k],
        arrivals[0].at,
    ) by {
        assert(front[k] == arrivals[k]);
    }
    assert(arrivals[arrivals.len() - 1] == arrivals.last());
}

/// A message is under way until all of its chunks have come.
proof fn lemma_fed(
    s: CarrierView,
    kind: MessageKind,
    message: Seq<u8>,
    message_id: u64,
    arrivals: Seq<Arrival>,
)
    requires
        can_come(s, kind, message, message_id, arrivals),
        !covers(parts(arrivals), message),
    ensures
        is_coming(
            fed(s, kind, message, message_id, arrivals),
            FragmentKey { kind, message_id },
            message,
            parts(arrivals),
            arrivals[0].at,
        ),
    decreases arrivals.len(),
{
    let key = FragmentKey { kind, message_id };
    let front = arrivals.drop_last();
    let a = arrivals.last();
    let first = arrivals[0].at;
    lemma_parts_step(arrivals);
    lemma_front_can_come(s, kind, message, message_id, arrivals);
    assert(!covers(parts(front), message)) by {
        if covers(parts(front), message) {
            assert forall|i: nat| i < chunk_count_of(message.len()) implies #[trigger] parts(
                arrivals,
            ).contains(i) by {
                assert(parts(front).contains(i));
            }
        }
    }
    let t = fed(s, kind, message, message_id, front);
    if front.len() > 0 {
        lemma_fed(s, kind, message, message_id, front);
    } else {
        assert(parts(front) =~= Set::empty());
        assert(t == s);
    }
    match a.what {
        Incoming::Part(index) => {
            lemma_part_comes(
                t,
                kind,
                message,
                message_id,
                parts(front),
                index,
                a.max,
                a.at,
                first,
            );
        },
        Incoming::Other(d) => {
            lemma_other_comes(t, d, a.max, a.at, key, message, parts(front), first);
        },
    }
}

/// The fragments of a message put it together again in whatever order they come,
/// however often, whatever other datagrams come between them, and at whatever
/// times, as long as the message does not grow too old: nothing comes of them until
/// every chunk has come, and the message comes with the chunk that was missing last.
pub proof fn law_fragments_reassemble_in_any_order(
    s: CarrierView,
    kind: MessageKind,
    message: Seq<u8>,
    message_id: u64,
    arrivals: Seq<Arrival>,
)
    requires
        can_come(s, kind, message, message_id, arrivals),
        arrivals.last().what is Part,
        !covers(parts(arrivals.drop_last()), message),
    ensures
        last_outcome(s, kind, message, message_id, arrivals) == Ok::<
            Option<(MessageKind, Seq<u8>)>,
            QlinkErrorView,
        >(
            if covers(parts(arrivals), message) {
                Some((kind, message))
            } else {
                None
            },
        ),
{
    let front = arrivals.drop_last();
    let a = arrivals.last();
    lemma_parts_step(arrivals);
    lemma_front_can_come(s, kind, message, message_id, arrivals);
    if front.len() > 0 {
        lemma_fed(s, kind, message, message_id, front);
    } else {
        assert(parts(front) =~= Set::empty());
    }
    lemma_part_comes(
        fed(s, kind, message, message_id, front),
        kind,
        message,
        message_id,
        parts(front),
        a.what->Part_0,
        a.max,
        a.at,
        arrivals[0].at,
    );
}

/// A datagram that finishes a message which came in fragments.
pub open spec fn finishes(s: CarrierView, d: DatagramView, max: nat, at: Instant) -> bool {
    &&& d.kind == DatagramKind::FrameFragment || d.kind == DatagramKind::AuthenticatedFragment
    &&& datagram_accepted(s, d, max, at).outcome matches Ok(Some(_))
}

/// How many messages some arrivals finish.
pub open spec fn finished_by(
    s: CarrierView,
    kind: MessageKind,
    message: Seq<u8>,
    message_id: u64,
    arrivals: Seq<Arrival>,
) -> nat
    decreases arrivals.len(),
{
    if arrivals.len() == 0 {
        0
    } else {
        let front = arrivals.drop_last();
        let a = arrivals.last();
        finished_by(s, kind, message, message_id, front) + if finishes(
            fed(s, kind, message, message_id, front),
            datagram_of(kind, message, message_id, a),
            a.max,
            a.at,
        ) {
            1nat
        } else {
            0nat
        }
    }
}

/// A finished message stays remembered: a datagram that finishes another one makes
/// it one older, and any other leaves it where it is.
proof fn lemma_stays_done(
    s: CarrierView,
    d: DatagramView,
    max: nat,
    at: Instant,
    key: FragmentKey,
    age: int,
)
    requires
        is_done(s, key, age),
        finishes(s, d, max, at) ==> age + 1 < MAX_COMPLETED_FRAGMENT_KEYS,
    ensures
        is_done(
            datagram_accepted(s, d, max, at).state,
            key,
            if finishes(s, d, max, at) {
                age + 1
            } else {
                age
            },
        ),
{
    let t = datagram_accepted(s, d, max, at).state;
    let p = choose|p: int|
        0 <= p < s.completed.len() && #[trigger] s.completed[p] == key && s.completed.len() - p
            <= age + 1;
    assert(s.completed.contains(key));
    if finishes(s, d, max, at) {
        let other = FragmentKey {
            kind: message_kind_of(d.kind)->0,
            message_id: fragment_decoded(d.payload)->Ok_0.message_id as u64,
        };
        assert(other != key);
        assert(t.completed == remembered(s.completed, other));
        lemma_others_remembered(s.completed, other, key, age);
    } else {
        assert(t.completed == s.completed);
        assert(t.completed[p] == key);
    }
}

/// A finished message is remembered until as many others are finished as are
/// remembered.
proof fn lemma_done(
    s: CarrierView,
    kind: MessageKind,
    message: Seq<u8>,
    message_id: u64,
    later: Seq<Arrival>,
)
    requires
        is_done(s, FragmentKey { kind, message_id }, 0),
        finished_by(s, kind, message, message_id, later) < MAX_COMPLETED_FRAGMENT_KEYS,
    ensures
        is_done(
            fed(s, kind, message, message_id, later),
            FragmentKey { kind, message_id },
            finished_by(s, kind, message, message_id, later) as int,
        ),
    decreases later.len(),
{
    if later.len() > 0 {
        let front = later.drop_last();
        let a = later.last();
        lemma_done(s, kind, message, message_id, front);
        lemma_stays_done(
            fed(s, kind, message, message_id, front),
            datagram_of(kind, message, message_id, a),
            a.max,
            a.at,
            FragmentKey { kind, message_id },
            finished_by(s, kind, message, message_id, front) as int,
        );
    }
}

/// Nothing comes a second time of a message that is finished: whatever comes later,
/// and whenever, its fragments are passed over as long as fewer other messages have
/// been finished since than are remembered.
pub proof fn law_finished_message_does_not_come_again(
    s: CarrierView,
    kind: MessageKind,
    message: Seq<u8>,
    message_id: u64,
    arrivals: Seq<Arrival>,
    later: Seq<Arrival>,
    index: nat,
    max: nat,
    at: Instant,
)
    requires
        can_come(s, kind, message, message_id, arrivals),
        covers(parts(arrivals), message),
        !covers(parts(arrivals.drop_last()), message),
        finished_by(
            fed(s, kind, message, message_id, arrivals),
            kind,
            message,
            message_id,
            later,
        ) < MAX_COMPLETED_FRAGMENT_KEYS,
        index < chunk_count_of(message.len()),
    ensures
        ({
            let t = fed(
                fed(s, kind, message, message_id, arrivals),
                kind,
                message,
                message_id,
                later,
            );
            datagram_accepted(t, fragment_datagram(kind, message, message_id, index), max, at) == (
            AcceptView { state: t, outcome: Ok(None) })
        }),
{
    let front = arrivals.drop_last();
    let a = arrivals.last();
    lemma_parts_step(arrivals);
    lemma_front_can_come(s, kind, message, message_id, arrivals);
    if front.len() > 0 {
        lemma_fed(s, kind, message, message_id, front);
    } else {
        assert(parts(front) =~= Set::empty());
    }
    assert(a.what is Part);
    lemma_part_comes(
        fed(s, kind, message, message_id, front),
        kind,
        message,
        message_id,
        parts(front),
        a.what->Part_0,
        a.max,
        a.at,
        arrivals[0].at,
    );
    let done = fed(s, kind, message, message_id, arrivals);
    lemma_done(done, kind, message, message_id, later);
    lemma_part_again(
        fed(done, kind, message, message_id, later),
        kind,
        message,
        message_id,
        index,
        max,
        at,
        finished_by(done, kind, message, message_id, later) as int,
    );
}

/// What is sent is what is received: every datagram of a message decodes to the
/// datagram that carries the whole message or one of its fragments.
pub proof fn law_sent_datagrams_decode(kind: MessageKind, message: Seq<u8>, message_id: u64, i: int)
    requires
        send_refusal(message.len()) is None,
        0 <= i < message_wire(kind, message, message_id).len(),
    ensures
        ({
            let wire = message_wire(kind, message, message_id)[i];
            &&& wire.len() <= MAX_UDP_DATAGRAM_LEN
            &&& datagram_decoded(wire) == Ok::<DatagramView, QlinkErrorView>(
                if message.len() <= MAX_CARRIER_PAYLOAD_LEN {
                    DatagramView { kind: complete_kind(kind), payload: message }
                } else {
                    fragment_datagram(kind, message, message_id, i as nat)
                },
            )
        }),
{
    if message.len() <= MAX_CARRIER_PAYLOAD_LEN {
        law_datagram_round_trip(complete_kind(kind), message);
    } else {
        lemma_fragment_in_shape(message, message_id, i as nat);
        law_fragment_round_trip(fragment_at(message, message_id, i as nat));
        law_datagram_round_trip(
            fragment_kind(kind),
            fragment_datagram(kind, message, message_id, i as nat).payload,
        );
    }
}

/// A short message that is within the limits comes at once and leaves the session
/// as it was.
pub proof fn law_short_message_comes_at_once(
    s: CarrierView,
    kind: MessageKind,
    message: Seq<u8>,
    max: nat,
    now: Instant,
)
    requires
        limit_refusal(kind, message.len(), max) is None,
    ensures
        datagram_accepted(
            s,
            DatagramView { kind: complete_kind(kind), payload: message },
            max,
            now,
        ) == (AcceptView { state: s, outcome: Ok(Some((kind, message))) }),
{
}

/// Whatever a datagram is, accepting it never lets more messages be unfinished
/// than may be, nor forgets more than the oldest finished one, and it touches
/// neither the queues nor the numbering.
pub proof fn law_accepting_is_bounded(s: CarrierView, d: DatagramView, max: nat, now: Instant)
    requires
        is_bounded(s),
    ensures
        ({
            let t = datagram_accepted(s, d, max, now).state;
            &&& t.reassembly.dom().finite()
            &&& t.reassembly.dom().len() <= MAX_REASSEMBLY_ENTRIES
            &&& t.completed.len() <= MAX_COMPLETED_FRAGMENT_KEYS
            &&& t.pending_frames == s.pending_frames
            &&& t.pending_authenticated == s.pending_authenticated
            &&& t.next_message_id == s.next_message_id
        }),
{
    let table = pruned(s.reassembly, now);
    assert(table.dom().subset_of(s.reassembly.dom()));
    vstd::set_lib::lemma_len_subset(table.dom(), s.reassembly.dom());
}

/// A fragment that does not fit the message that it claims to belong to drops that
/// message, so that it can be sent anew.
pub proof fn law_poisoned_message_can_be_sent_anew(
    s: CarrierView,
    key: FragmentKey,
    f: FragmentView,
    now: Instant,
)
    ensures
        ({
            let a = fragment_stored(s, key, f, now);
            let table = pruned(s.reassembly, now);
            (a.outcome is Err && table.dom().contains(key)) ==> !a.state.reassembly.dom().contains(
                key,
            )
        }),
{
}

} // verus!
