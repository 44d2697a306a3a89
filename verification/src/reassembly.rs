//! The receiving and sending state of a carrier session: unfinished messages,
//! finished ones, and messages that wait for a reader.

use crate::bytes::{push_all, slice_of};
use crate::carrier_transport::{
    CarrierDatagram, DatagramKind, DatagramView, FragmentPayload, FragmentView,
    MAX_CARRIER_PAYLOAD_LEN, MAX_COMPLETED_FRAGMENT_KEYS, MAX_FRAGMENT_PAYLOAD_LEN,
    MAX_LISTENER_SESSIONS, MAX_PENDING_AUTHENTICATED_MESSAGE_LEN, MAX_PENDING_MESSAGES,
    MAX_REASSEMBLED_MESSAGE_LEN, MAX_REASSEMBLY_ENTRIES, MAX_UDP_DATAGRAM_LEN, MessageKind,
    REASSEMBLY_TTL_NANOS, chunk_count_of, chunk_len_at, complete_kind, datagram_decoded,
    datagram_wire, decode_datagram, decode_fragment_payload, encode_datagram,
    encode_fragment_payload, fragment_decoded, fragment_kind, fragment_wire,
    law_fragment_round_trip, lemma_chunk_len, message_kind_of, passes, shape_refusal,
    validate_fragment_shape,
};
use crate::error::{QlinkError, QlinkErrorView, Result, protocol};
use crate::key_map::{KeyMap, MapKey, lemma_mapped_entry, lemma_mapped_key};
use crate::text::{decimal, push_decimal};
use crate::time::{Instant, elapsed};
use std::collections::VecDeque;
use vstd::map::*;
use vstd::prelude::*;
use vstd::string::*;

verus! {

// ---------------------------------------------------------------------------
// One unfinished message
// ---------------------------------------------------------------------------

/// A message of which some chunks have come.
#[derive(Debug, Clone)]
pub struct FragmentBuffer {
    pub total_len: usize,
    pub chunks: Vec<Option<Vec<u8>>>,
    pub received_len: usize,
    pub created_at: Instant,
}

/// The model of a [`FragmentBuffer`].
pub struct BufferView {
    pub total_len: nat,
    pub chunks: Seq<Option<Seq<u8>>>,
    pub received_len: nat,
    pub created_at: Instant,
}

/// The bytes of an optional chunk.
pub open spec fn chunk_view(chunk: Option<Vec<u8>>) -> Option<Seq<u8>> {
    match chunk {
        Some(bytes) => Some(bytes@),
        None => None,
    }
}

impl View for FragmentBuffer {
    type V = BufferView;

    open spec fn view(&self) -> BufferView {
        BufferView {
            total_len: self.total_len as nat,
            chunks: Seq::new(self.chunks@.len(), |i: int| chunk_view(self.chunks@[i])),
            received_len: self.received_len as nat,
            created_at: self.created_at,
        }
    }
}

/// How many bytes of a chunk have come.
pub open spec fn chunk_size(chunk: Option<Seq<u8>>) -> nat {
    match chunk {
        Some(bytes) => bytes.len(),
        None => 0,
    }
}

/// How many bytes have come.
pub open spec fn received_size(chunks: Seq<Option<Seq<u8>>>) -> nat
    decreases chunks.len(),
{
    if chunks.len() == 0 {
        0
    } else {
        received_size(chunks.drop_last()) + chunk_size(chunks.last())
    }
}

/// Every chunk has come.
pub open spec fn is_complete(chunks: Seq<Option<Seq<u8>>>) -> bool {
    forall|i: int| 0 <= i < chunks.len() ==> (#[trigger] chunks[i]) is Some
}

/// The chunks, one after the other.
pub open spec fn joined(chunks: Seq<Option<Seq<u8>>>) -> Seq<u8>
    decreases chunks.len(),
{
    if chunks.len() == 0 {
        Seq::empty()
    } else {
        match chunks.last() {
            Some(bytes) => joined(chunks.drop_last()) + bytes,
            None => joined(chunks.drop_last()),
        }
    }
}

/// As many places as a message has chunks, with nothing in them.
pub open spec fn no_chunks(chunk_count: nat) -> Seq<Option<Seq<u8>>> {
    Seq::new(chunk_count, |i: int| None::<Seq<u8>>)
}

/// A message of which nothing has come.
pub open spec fn empty_buffer(total_len: nat, chunk_count: nat, now: Instant) -> BufferView {
    BufferView { total_len, chunks: no_chunks(chunk_count), received_len: 0, created_at: now }
}

/// A message with the bytes of a fragment counted.
pub open spec fn with_counted(b: BufferView, f: FragmentView) -> BufferView {
    BufferView { received_len: b.received_len + f.payload.len(), ..b }
}

/// A message with one more chunk.
pub open spec fn with_chunk(b: BufferView, f: FragmentView) -> BufferView {
    BufferView {
        chunks: b.chunks.update(f.chunk_index as int, Some(f.payload)),
        ..with_counted(b, f)
    }
}

/// Why a fragment does not fit the shape of a message, if it does not.
pub open spec fn misfit(b: BufferView, f: FragmentView) -> Option<Seq<char>> {
    if f.total_len != b.total_len {
        Some("native UDP carrier fragment total length changed"@)
    } else if f.total_len > MAX_REASSEMBLED_MESSAGE_LEN {
        Some(
            "native UDP carrier fragmented message is too large: "@ + decimal(f.total_len)
                + " bytes"@,
        )
    } else if f.chunk_count != b.chunks.len() {
        Some("native UDP carrier fragment count changed"@)
    } else if f.chunk_index >= b.chunks.len() {
        Some("native UDP carrier fragment index out of range"@)
    } else {
        None
    }
}

/// A fragment whose bytes are counted: it fits, and its chunk is not there.
pub open spec fn is_counted(b: BufferView, f: FragmentView) -> bool {
    misfit(b, f) is None && b.chunks[f.chunk_index as int] is None
}

/// Why a fragment does not belong to a message, if it does not.
pub open spec fn insert_refusal(b: BufferView, f: FragmentView) -> Option<Seq<char>> {
    if !is_counted(b, f) {
        misfit(b, f)
    } else if with_counted(b, f).received_len > b.total_len {
        Some("native UDP carrier fragments exceed declared length"@)
    } else if is_complete(with_chunk(b, f).chunks) && joined(with_chunk(b, f).chunks).len()
        != b.total_len {
        Some("native UDP carrier reassembled length mismatch"@)
    } else {
        None
    }
}

/// A message after a fragment. One that does not fit or came before changes
/// nothing, one that is too long is only counted, and the one that is the last to
/// come takes all chunks out, whether or not they make the message.
pub open spec fn inserted(b: BufferView, f: FragmentView) -> BufferView {
    if !is_counted(b, f) {
        b
    } else if with_counted(b, f).received_len > b.total_len {
        with_counted(b, f)
    } else if is_complete(with_chunk(b, f).chunks) {
        BufferView { chunks: no_chunks(b.chunks.len()), ..with_counted(b, f) }
    } else {
        with_chunk(b, f)
    }
}

/// The message that a fragment completes, if it does.
pub open spec fn completed_by(b: BufferView, f: FragmentView) -> Option<Seq<u8>> {
    if insert_refusal(b, f) is None && is_counted(b, f) && is_complete(with_chunk(b, f).chunks) {
        Some(joined(with_chunk(b, f).chunks))
    } else {
        None
    }
}

/// A message that is filling up: the count of bytes is that of the chunks, and
/// within the declared length.
pub open spec fn is_filling(b: BufferView) -> bool {
    b.received_len == received_size(b.chunks) && b.received_len <= b.total_len
}

/// Filling a gap adds the size of the chunk.
pub proof fn lemma_received_update(chunks: Seq<Option<Seq<u8>>>, i: int, bytes: Seq<u8>)
    requires
        0 <= i < chunks.len(),
        chunks[i] is None,
    ensures
        received_size(chunks.update(i, Some(bytes))) == received_size(chunks) + bytes.len(),
    decreases chunks.len(),
{
    let after = chunks.update(i, Some(bytes));
    if i == chunks.len() - 1 {
        assert(after.drop_last() =~= chunks.drop_last());
    } else {
        assert(after.drop_last() =~= chunks.drop_last().update(i, Some(bytes)));
        lemma_received_update(chunks.drop_last(), i, bytes);
    }
}

/// Where nothing has come, no byte has.
pub proof fn lemma_received_none(chunks: Seq<Option<Seq<u8>>>)
    requires
        forall|i: int| 0 <= i < chunks.len() ==> (#[trigger] chunks[i]) is None,
    ensures
        received_size(chunks) == 0,
    decreases chunks.len(),
{
    if chunks.len() > 0 {
        let front = chunks.drop_last();
        assert forall|i: int| 0 <= i < front.len() implies (#[trigger] front[i]) is None by {
            assert(front[i] == chunks[i]);
        }
        assert(chunks[chunks.len() - 1] is None);
        lemma_received_none(front);
    }
}

/// A message that a fragment neither poisons nor completes goes on filling up.
proof fn lemma_goes_on(b: BufferView, f: FragmentView)
    requires
        is_filling(b),
        insert_refusal(b, f) is None,
        completed_by(b, f) is None,
    ensures
        is_filling(inserted(b, f)),
{
    if is_counted(b, f) {
        lemma_received_update(b.chunks, f.chunk_index as int, f.payload);
    }
}

impl FragmentBuffer {
    pub fn new(total_len: usize, chunk_count: u16, now: Instant) -> (b: FragmentBuffer)
        ensures
            b@ == empty_buffer(total_len as nat, chunk_count as nat, now),
            is_filling(b@),
    {
        let mut chunks: Vec<Option<Vec<u8>>> = Vec::new();
        let mut i: u16 = 0;
        while i < chunk_count
            invariant
                i <= chunk_count,
                chunks@.len() == i,
                forall|j: int| 0 <= j < i ==> (#[trigger] chunks@[j]) is None,
            decreases chunk_count - i,
        {
            chunks.push(None);
            i = i + 1;
        }
        let b = FragmentBuffer { total_len, chunks, received_len: 0, created_at: now };
        proof {
            assert(b@.chunks =~= no_chunks(chunk_count as nat));
            lemma_received_none(b@.chunks);
        }
        b
    }

    /// Whether every chunk is there.
    fn has_all_chunks(&self) -> (all: bool)
        ensures
            all == is_complete(self@.chunks),
    {
        let mut i: usize = 0;
        while i < self.chunks.len()
            invariant
                i <= self.chunks@.len(),
                forall|j: int| 0 <= j < i ==> (#[trigger] self@.chunks[j]) is Some,
            decreases self.chunks@.len() - i,
        {
            assert(self@.chunks[i as int] == chunk_view(self.chunks@[i as int]));
            if self.chunks[i].is_none() {
                return false;
            }
            i = i + 1;
        }
        true
    }

    /// Takes all chunks out, one after the other.
    fn take_chunks(&mut self) -> (message: Vec<u8>)
        ensures
            message@ == joined(old(self)@.chunks),
            final(self)@ == (BufferView {
                chunks: no_chunks(old(self)@.chunks.len()),
                ..old(self)@
            }),
    {
        let ghost before = self@;
        let mut message: Vec<u8> = Vec::new();
        let mut i: usize = 0;
        assert(before.chunks.subrange(0, 0) =~= Seq::empty());
        while i < self.chunks.len()
            invariant
                i <= self.chunks@.len(),
                self.chunks@.len() == before.chunks.len(),
                self@.total_len == before.total_len,
                self@.received_len == before.received_len,
                self@.created_at == before.created_at,
                forall|j: int| 0 <= j < i ==> (#[trigger] self.chunks@[j]) is None,
                forall|j: int|
                    i <= j < self.chunks@.len() ==> chunk_view(#[trigger] self.chunks@[j])
                        == before.chunks[j],
                message@ == joined(before.chunks.subrange(0, i as int)),
            decreases self.chunks@.len() - i,
        {
            let ghost part = before.chunks.subrange(0, i + 1);
            assert(part.drop_last() =~= before.chunks.subrange(0, i as int));
            assert(part.last() == chunk_view(self.chunks@[i as int]));
            match &self.chunks[i] {
                Some(chunk) => push_all(&mut message, chunk.as_slice()),
                None => {},
            }
            self.chunks.set(i, None);
            i = i + 1;
        }
        assert(before.chunks.subrange(0, i as int) =~= before.chunks);
        assert(self@.chunks =~= no_chunks(before.chunks.len()));
        message
    }

    /// Takes a fragment. The message comes back once its last chunk has come.
    /// The count of the bytes that have come must not run over.
    pub fn insert(&mut self, fragment: FragmentPayload) -> (r: Result<Option<Vec<u8>>>)
        requires
            is_counted(old(self)@, fragment@) ==> with_counted(old(self)@, fragment@).received_len
                <= usize::MAX,
        ensures
            final(self)@ == inserted(old(self)@, fragment@),
            match insert_refusal(old(self)@, fragment@) {
                Some(text) => r matches Err(e) && e@ == QlinkErrorView::Protocol(text),
                None => match completed_by(old(self)@, fragment@) {
                    Some(message) => r matches Ok(Some(v)) && v@ == message,
                    None => r matches Ok(None),
                },
            },
    {
        if fragment.total_len != self.total_len {
            return Err(protocol("native UDP carrier fragment total length changed"));
        }
        if fragment.total_len > MAX_REASSEMBLED_MESSAGE_LEN {
            let mut text = "native UDP carrier fragmented message is too large: ".to_owned();
            push_decimal(&mut text, fragment.total_len as u64);
            text.append(" bytes");
            return Err(QlinkError::Protocol(text));
        }
        if fragment.chunk_count as usize != self.chunks.len() {
            return Err(protocol("native UDP carrier fragment count changed"));
        }
        let index: usize = fragment.chunk_index as usize;
        if index >= self.chunks.len() {
            return Err(protocol("native UDP carrier fragment index out of range"));
        }
        assert(self@.chunks[index as int] == chunk_view(self.chunks@[index as int]));
        if self.chunks[index].is_some() {
            return Ok(None);
        }
        let ghost before = self@;
        let ghost f = fragment@;
        self.received_len = self.received_len + fragment.payload.len();
        assert(self@.chunks =~= before.chunks);
        if self.received_len > self.total_len {
            return Err(protocol("native UDP carrier fragments exceed declared length"));
        }
        self.chunks.set(index, Some(fragment.payload));
        assert(self@.chunks =~= with_chunk(before, f).chunks);
        if !self.has_all_chunks() {
            return Ok(None);
        }
        let message = self.take_chunks();
        if message.len() != self.total_len {
            return Err(protocol("native UDP carrier reassembled length mismatch"));
        }
        Ok(Some(message))
    }
}

// ---------------------------------------------------------------------------
// Finished messages
// ---------------------------------------------------------------------------

/// What tells unfinished messages apart.
#[derive(Debug, Clone, Copy, PartialEq, Eq, Structural)]
pub struct FragmentKey {
    pub kind: MessageKind,
    pub message_id: u64,
}

impl MapKey for FragmentKey {
    fn same(&self, other: &FragmentKey) -> (b: bool) {
        *self == *other
    }
}

/// The keys of the messages that were finished last, oldest first.
#[derive(Debug)]
pub struct CompletedFragmentKeys {
    order: VecDeque<FragmentKey>,
}

impl View for CompletedFragmentKeys {
    type V = Seq<FragmentKey>;

    closed spec fn view(&self) -> Seq<FragmentKey> {
        self.order@
    }
}

/// The keys after one more message was finished: a known key changes nothing, and
/// the oldest makes room.
pub open spec fn remembered(keys: Seq<FragmentKey>, key: FragmentKey) -> Seq<FragmentKey> {
    if keys.contains(key) {
        keys
    } else if keys.len() < MAX_COMPLETED_FRAGMENT_KEYS {
        keys.push(key)
    } else {
        keys.push(key).drop_first()
    }
}

impl CompletedFragmentKeys {
    /// No key stands twice, and there are not too many.
    pub closed spec fn wf(&self) -> bool {
        self.order@.no_duplicates() && self.order@.len() <= MAX_COMPLETED_FRAGMENT_KEYS
    }

    /// What the invariant says of the keys.
    pub proof fn lemma_bounded(&self)
        requires
            self.wf(),
        ensures
            self@.no_duplicates(),
            self@.len() <= MAX_COMPLETED_FRAGMENT_KEYS,
    {
    }

    pub fn new() -> (c: CompletedFragmentKeys)
        ensures
            c.wf(),
            c@ == Seq::<FragmentKey>::empty(),
    {
        CompletedFragmentKeys { order: VecDeque::new() }
    }

    pub fn contains(&self, key: &FragmentKey) -> (b: bool)
        ensures
            b == self@.contains(*key),
    {
        let mut i: usize = 0;
        while i < self.order.len()
            invariant
                i <= self.order@.len(),
                forall|j: int| 0 <= j < i ==> self.order@[j] != *key,
            decreases self.order@.len() - i,
        {
            if self.order[i] == *key {
                assert(self@[i as int] == *key);
                return true;
            }
            i = i + 1;
        }
        false
    }

    pub fn insert(&mut self, key: FragmentKey)
        requires
            old(self).wf(),
        ensures
            final(self).wf(),
            final(self)@ == remembered(old(self)@, key),
    {
        if self.contains(&key) {
            return;
        }
        let ghost before = self.order@;
        self.order.push_back(key);
        assert(self.order@ == before.push(key));
        if self.order.len() > MAX_COMPLETED_FRAGMENT_KEYS {
            self.order.pop_front();
            assert(self.order@ =~= before.push(key).drop_first());
        }
        assert(self.order@.no_duplicates()) by {
            let all = before.push(key);
            assert forall|i: int, j: int| 0 <= i < all.len() && 0 <= j < all.len() && i
                != j implies all[i] != all[j] by {
                if i == before.len() {
                    assert(before.contains(before[j]));
                } else if j == before.len() {
                    assert(before.contains(before[i]));
                }
            }
        }
    }
}

// ---------------------------------------------------------------------------
// Limits and queues
// ---------------------------------------------------------------------------

/// How long an authenticated message may be.
#[derive(Debug, Clone, Copy, PartialEq, Eq, Structural)]
pub struct ReceiveLimits {
    pub authenticated_message_max: usize,
}

impl ReceiveLimits {
    pub fn new(authenticated_message_max: usize) -> (l: ReceiveLimits)
        ensures
            l.authenticated_message_max == authenticated_message_max,
    {
        ReceiveLimits { authenticated_message_max }
    }

    /// The limits of a reader: its own for the messages that it waits for, else
    /// that of messages that are kept for another reader.
    pub fn for_wanted(wanted: MessageKind, max_size: usize) -> (l: ReceiveLimits)
        ensures
            l.authenticated_message_max == wanted_limit(wanted, max_size as nat),
    {
        match wanted {
            MessageKind::AuthenticatedMessage => ReceiveLimits::new(max_size),
            MessageKind::Frame => ReceiveLimits::new(MAX_PENDING_AUTHENTICATED_MESSAGE_LEN),
        }
    }
}

/// How long an authenticated message may be for a reader.
pub open spec fn wanted_limit(wanted: MessageKind, max_size: nat) -> nat {
    match wanted {
        MessageKind::AuthenticatedMessage => max_size,
        MessageKind::Frame => MAX_PENDING_AUTHENTICATED_MESSAGE_LEN as nat,
    }
}

/// Why a message of some length is refused, if it is: only authenticated messages
/// are limited.
pub open spec fn limit_refusal(kind: MessageKind, len: nat, max: nat) -> Option<Seq<char>> {
    if kind == MessageKind::AuthenticatedMessage && len > max {
        Some(
            "native UDP authenticated message is "@ + decimal(len) + " bytes; max is "@ + decimal(
                max,
            ),
        )
    } else {
        None
    }
}

fn over_limit(len: usize, max: usize) -> (e: QlinkError)
    ensures
        e@ == QlinkErrorView::Protocol(
            "native UDP authenticated message is "@ + decimal(len as nat) + " bytes; max is "@
                + decimal(max as nat),
        ),
{
    let mut text = "native UDP authenticated message is ".to_owned();
    push_decimal(&mut text, len as u64);
    text.append(" bytes; max is ");
    push_decimal(&mut text, max as u64);
    QlinkError::Protocol(text)
}

pub fn validate_message_with_limits(kind: MessageKind, len: usize, limits: ReceiveLimits) -> (r:
    Result<()>)
    ensures
        passes(
            r,
            limit_refusal(kind, len as nat, limits.authenticated_message_max as nat),
        ),
{
    if kind == MessageKind::AuthenticatedMessage && len > limits.authenticated_message_max {
        return Err(over_limit(len, limits.authenticated_message_max));
    }
    Ok(())
}

pub fn validate_received_size(kind: MessageKind, payload: Vec<u8>, max_size: usize) -> (r: Result<
    Vec<u8>,
>)
    ensures
        match limit_refusal(kind, payload@.len(), max_size as nat) {
            Some(text) => r matches Err(e) && e@ == QlinkErrorView::Protocol(text),
            None => r == Ok::<Vec<u8>, QlinkError>(payload),
        },
{
    if kind == MessageKind::AuthenticatedMessage && payload.len() > max_size {
        return Err(over_limit(payload.len(), max_size));
    }
    Ok(payload)
}

/// The messages of a queue.
pub open spec fn queue_view(queue: Seq<Vec<u8>>) -> Seq<Seq<u8>> {
    Seq::new(queue.len(), |i: int| queue[i]@)
}

/// Puts a message at the end of a queue that has room.
pub fn push_bounded_pending(
    queue: &mut VecDeque<Vec<u8>>,
    payload: Vec<u8>,
    error_message: &'static str,
) -> (r: Result<()>)
    ensures
        if old(queue)@.len() >= MAX_PENDING_MESSAGES {
            final(queue)@ == old(queue)@ && (r matches Err(e) && e@ == QlinkErrorView::Protocol(
                error_message@,
            ))
        } else {
            final(queue)@ == old(queue)@.push(payload) && r is Ok
        },
{
    if queue.len() >= MAX_PENDING_MESSAGES {
        return Err(protocol(error_message));
    }
    queue.push_back(payload);
    Ok(())
}

// ---------------------------------------------------------------------------
// Unfinished messages
// ---------------------------------------------------------------------------

/// The unfinished messages of a session.
pub open spec fn table_view(table: Map<FragmentKey, FragmentBuffer>) -> Map<
    FragmentKey,
    BufferView,
> {
    Map::new(|k: FragmentKey| table.dom().contains(k), |k: FragmentKey| table[k]@)
}

/// A message is not older than unfinished messages are kept.
pub open spec fn is_live(b: BufferView, now: Instant) -> bool {
    elapsed(b.created_at, now) <= REASSEMBLY_TTL_NANOS
}

/// The unfinished messages that are still kept at a time.
pub open spec fn pruned(table: Map<FragmentKey, BufferView>, now: Instant) -> Map<
    FragmentKey,
    BufferView,
> {
    table.restrict(
        Set::new(|k: FragmentKey| table.dom().contains(k) && is_live(table[k], now)),
    )
}

/// Drops the unfinished messages that are too old.
pub fn prune_expired_reassembly(table: &mut KeyMap<FragmentKey, FragmentBuffer>, now: Instant)
    requires
        old(table).wf(),
    ensures
        final(table).wf(),
        table_view(final(table)@) == pruned(table_view(old(table)@), now),
{
    let ghost orig = table@;
    let mut i: usize = 0;
    while i < table.len()
        invariant
            table.wf(),
            i <= table.listed().len(),
            forall|k: FragmentKey| #[trigger]
                table@.dom().contains(k) ==> orig.dom().contains(k) && table@[k] == orig[k],
            forall|k: FragmentKey| #[trigger]
                orig.dom().contains(k) && !table@.dom().contains(k) ==> !is_live(orig[k]@, now),
            forall|j: int| 0 <= j < i ==> is_live((#[trigger] table.listed()[j]).1@, now),
        decreases table.listed().len() - i,
    {
        proof {
            table.lemma_listed();
            lemma_mapped_entry(table.listed(), i as int);
        }
        let age = now.saturating_duration_since(table.value_at(i).created_at);
        if age.nanos <= REASSEMBLY_TTL_NANOS {
            i = i + 1;
        } else {
            let ghost before = table.listed();
            table.remove_at(i);
            assert(forall|j: int| 0 <= j < i ==> #[trigger] table.listed()[j] == before[j]);
        }
    }
    proof {
        table.lemma_listed();
        assert forall|k: FragmentKey| #[trigger] table@.dom().contains(k) implies is_live(
            table@[k]@,
            now,
        ) by {
            let j = lemma_mapped_key(table.listed(), k);
            lemma_mapped_entry(table.listed(), j);
        }
        assert(table_view(table@) =~= pruned(table_view(orig), now));
    }
}

// ---------------------------------------------------------------------------
// A session
// ---------------------------------------------------------------------------

/// The state of a session.
#[derive(Debug)]
pub struct CarrierState {
    pending_frames: VecDeque<Vec<u8>>,
    pending_authenticated: VecDeque<Vec<u8>>,
    reassembly: KeyMap<FragmentKey, FragmentBuffer>,
    completed_fragments: CompletedFragmentKeys,
    next_message_id: u64,
}

/// The model of a session: messages that wait for a reader, unfinished and
/// finished messages, and the next message's number.
pub struct CarrierView {
    pub pending_frames: Seq<Seq<u8>>,
    pub pending_authenticated: Seq<Seq<u8>>,
    pub reassembly: Map<FragmentKey, BufferView>,
    pub completed: Seq<FragmentKey>,
    pub next_message_id: u64,
}

impl View for CarrierState {
    type V = CarrierView;

    closed spec fn view(&self) -> CarrierView {
        CarrierView {
            pending_frames: queue_view(self.pending_frames@),
            pending_authenticated: queue_view(self.pending_authenticated@),
            reassembly: table_view(self.reassembly@),
            completed: self.completed_fragments@,
            next_message_id: self.next_message_id,
        }
    }
}

/// What a session is told by a datagram, and what becomes of it.
pub struct AcceptView {
    pub state: CarrierView,
    pub outcome: Result<Option<(MessageKind, Seq<u8>)>, QlinkErrorView>,
}

/// The unfinished message that a fragment belongs to, or a new one.
pub open spec fn buffer_for(
    table: Map<FragmentKey, BufferView>,
    key: FragmentKey,
    f: FragmentView,
    now: Instant,
) -> BufferView {
    if table.dom().contains(key) {
        table[key]
    } else {
        empty_buffer(f.total_len, f.chunk_count, now)
    }
}

/// What becomes of a fragment that is in shape and within the limits: stale
/// messages are dropped first, there is room for 64 messages, and a fragment that
/// does not belong drops the message that it claims to belong to.
pub open spec fn fragment_stored(
    s: CarrierView,
    key: FragmentKey,
    f: FragmentView,
    now: Instant,
) -> AcceptView {
    let table = pruned(s.reassembly, now);
    let b = buffer_for(table, key, f, now);
    if !table.dom().contains(key) && table.dom().len() >= MAX_REASSEMBLY_ENTRIES {
        AcceptView {
            state: CarrierView { reassembly: table, ..s },
            outcome: Err(
                QlinkErrorView::Protocol(
                    "native UDP carrier has too many in-flight fragmented messages: "@ + decimal(
                        table.dom().len(),
                    ),
                ),
            ),
        }
    } else {
        match insert_refusal(b, f) {
            Some(text) => AcceptView {
                state: CarrierView { reassembly: table.remove(key), ..s },
                outcome: Err(QlinkErrorView::Protocol(text)),
            },
            None => match completed_by(b, f) {
                Some(message) => AcceptView {
                    state: CarrierView {
                        reassembly: table.remove(key),
                        completed: remembered(s.completed, key),
                        ..s
                    },
                    outcome: Ok(Some((key.kind, message))),
                },
                None => AcceptView {
                    state: CarrierView { reassembly: table.insert(key, inserted(b, f)), ..s },
                    outcome: Ok(None),
                },
            },
        }
    }
}

/// What becomes of a fragment: one of a finished message is passed over.
pub open spec fn fragment_accepted(
    s: CarrierView,
    kind: MessageKind,
    f: FragmentView,
    max: nat,
    now: Instant,
) -> AcceptView {
    let key = FragmentKey { kind, message_id: f.message_id as u64 };
    if s.completed.contains(key) {
        AcceptView { state: s, outcome: Ok(None) }
    } else {
        match shape_refusal(f.total_len, f.chunk_index, f.chunk_count, f.payload.len()) {
            Some(text) => AcceptView { state: s, outcome: Err(QlinkErrorView::Protocol(text)) },
            None => match limit_refusal(kind, f.total_len, max) {
                Some(text) => AcceptView { state: s, outcome: Err(QlinkErrorView::Protocol(text)) },
                None => fragment_stored(s, key, f, now),
            },
        }
    }
}

/// What becomes of a datagram.
pub open spec fn datagram_accepted(
    s: CarrierView,
    d: DatagramView,
    max: nat,
    now: Instant,
) -> AcceptView {
    match message_kind_of(d.kind) {
        None => AcceptView {
            state: s,
            outcome: Err(QlinkErrorView::Protocol("native UDP carrier closed"@)),
        },
        Some(kind) => if d.kind == complete_kind(kind) {
            match limit_refusal(kind, d.payload.len(), max) {
                Some(text) => AcceptView { state: s, outcome: Err(QlinkErrorView::Protocol(text)) },
                None => AcceptView { state: s, outcome: Ok(Some((kind, d.payload))) },
            }
        } else {
            match fragment_decoded(d.payload) {
                Err(e) => AcceptView { state: s, outcome: Err(e) },
                Ok(f) => fragment_accepted(s, kind, f, max, now),
            }
        },
    }
}

/// The model of an outcome.
pub open spec fn outcome_view(r: Result<Option<(MessageKind, Vec<u8>)>>) -> Result<
    Option<(MessageKind, Seq<u8>)>,
    QlinkErrorView,
> {
    match r {
        Ok(Some(message)) => Ok(Some((message.0, message.1@))),
        Ok(None) => Ok(None),
        Err(e) => Err(e@),
    }
}

/// The session invariant over its model: unfinished messages are few and each is
/// filling up within its declared length, finished ones are few and named once, queues are
/// bounded.
pub open spec fn is_bounded(s: CarrierView) -> bool {
    &&& s.reassembly.dom().finite()
    &&& s.reassembly.dom().len() <= MAX_REASSEMBLY_ENTRIES
    &&& s.completed.len() <= MAX_COMPLETED_FRAGMENT_KEYS
    &&& s.completed.no_duplicates()
    &&& s.pending_frames.len() <= MAX_PENDING_MESSAGES
    &&& s.pending_authenticated.len() <= MAX_PENDING_MESSAGES
    &&& forall|k: FragmentKey| #[trigger]
        s.reassembly.dom().contains(k) ==> is_filling(s.reassembly[k])
}

impl CarrierState {
    pub closed spec fn wf(&self) -> bool {
        &&& self.reassembly.wf()
        &&& forall|k: FragmentKey| #[trigger]
            self.reassembly@.dom().contains(k) ==> is_filling(self.reassembly@[k]@)
        &&& self.reassembly@.dom().finite()
        &&& self.reassembly@.dom().len() <= MAX_REASSEMBLY_ENTRIES
        &&& self.completed_fragments.wf()
        &&& self.pending_frames@.len() <= MAX_PENDING_MESSAGES
        &&& self.pending_authenticated@.len() <= MAX_PENDING_MESSAGES
    }

    /// A session is bounded in every state that it can reach.
    pub proof fn law_session_is_bounded(&self)
        requires
            self.wf(),
        ensures
            is_bounded(self@),
    {
        assert(self@.reassembly.dom() =~= self.reassembly@.dom());
        self.completed_fragments.lemma_bounded();
    }

    pub fn new() -> (s: CarrierState)
        ensures
            s.wf(),
            s@ == (CarrierView {
                pending_frames: Seq::empty(),
                pending_authenticated: Seq::empty(),
                reassembly: Map::empty(),
                completed: Seq::empty(),
                next_message_id: 1,
            }),
    {
        let s = CarrierState {
            pending_frames: VecDeque::new(),
            pending_authenticated: VecDeque::new(),
            reassembly: KeyMap::new(),
            completed_fragments: CompletedFragmentKeys::new(),
            next_message_id: 1,
        };
        proof {
            assert(s@.pending_frames =~= Seq::empty());
            assert(s@.pending_authenticated =~= Seq::empty());
            assert(s@.reassembly =~= Map::empty());
        }
        s
    }

    /// How many messages are unfinished.
    pub fn in_flight(&self) -> (n: usize)
        requires
            self.wf(),
        ensures
            n == self@.reassembly.dom().len(),
    {
        assert(self@.reassembly.dom() =~= self.reassembly@.dom());
        self.reassembly.len()
    }

    /// Stores a fragment of an unfinished message.
    fn store_fragment(&mut self, key: FragmentKey, fragment: FragmentPayload, now: Instant) -> (r:
        Result<Option<(MessageKind, Vec<u8>)>>)
        requires
            old(self).wf(),
            fragment@.payload.len() <= MAX_FRAGMENT_PAYLOAD_LEN,
        ensures
            final(self).wf(),
            final(self)@ == fragment_stored(old(self)@, key, fragment@, now).state,
            outcome_view(r) == fragment_stored(old(self)@, key, fragment@, now).outcome,
    {
        let ghost start = self@;
        let ghost f = fragment@;
        prune_expired_reassembly(&mut self.reassembly, now);
        let ghost table = pruned(start.reassembly, now);
        let ghost raw = self.reassembly@;
        proof {
            assert(table_view(raw).dom() =~= raw.dom());
            assert(table == table_view(raw));
            assert(table.dom().subset_of(start.reassembly.dom()));
            assert(start.reassembly.dom() =~= old(self).reassembly@.dom());
            vstd::set_lib::lemma_len_subset(table.dom(), start.reassembly.dom());
            assert forall|k: FragmentKey| #[trigger] raw.dom().contains(k) implies is_filling(
                raw[k]@,
            ) by {
                assert(table.dom().contains(k));
                assert(old(self).reassembly@.dom().contains(k));
                assert(table[k] == old(self).reassembly@[k]@);
            }
        }
        let known = self.reassembly.contains_key(&key);
        if !known && self.reassembly.len() >= MAX_REASSEMBLY_ENTRIES {
            let mut text =
                "native UDP carrier has too many in-flight fragmented messages: ".to_owned();
            push_decimal(&mut text, self.reassembly.len() as u64);
            return Err(QlinkError::Protocol(text));
        }
        let mut buffer = match self.reassembly.remove(&key) {
            Some(buffer) => buffer,
            None => FragmentBuffer::new(fragment.total_len, fragment.chunk_count, now),
        };
        let ghost b = buffer_for(table, key, f, now);
        proof {
            if known {
                assert(raw.dom().contains(key));
                assert(buffer@ == table[key]);
            }
            assert(buffer@ == b);
            assert(self.reassembly@ == raw.remove(key));
            assert(table_view(self.reassembly@) =~= table.remove(key));
            assert(is_filling(b));
        }
        let completed = match buffer.insert(fragment) {
            Ok(completed) => completed,
            Err(error) => {
                return Err(error);
            },
        };
        match completed {
            Some(message) => {
                self.completed_fragments.insert(key);
                Ok(Some((key.kind, message)))
            },
            None => {
                let ghost rest = self.reassembly@;
                let ghost stored = buffer;
                self.reassembly.insert(key, buffer);
                proof {
                    lemma_goes_on(b, f);
                    assert(self.reassembly@ == rest.insert(key, stored));
                    assert(table_view(self.reassembly@) =~= table.insert(key, inserted(b, f)));
                    assert(rest.dom() =~= raw.dom().remove(key));
                    assert forall|k: FragmentKey| #[trigger] self.reassembly@.dom().contains(
                        k,
                    ) implies is_filling(self.reassembly@[k]@) by {
                        if k != key {
                            assert(rest.dom().contains(k));
                        }
                    }
                }
                Ok(None)
            },
        }
    }

    /// Takes a datagram. A message comes back when it is whole.
    pub fn accept_datagram(
        &mut self,
        datagram: CarrierDatagram,
        limits: ReceiveLimits,
        now: Instant,
    ) -> (r: Result<Option<(MessageKind, Vec<u8>)>>)
        requires
            old(self).wf(),
        ensures
            final(self).wf(),
            ({
                let accepted = datagram_accepted(
                    old(self)@,
                    datagram@,
                    limits.authenticated_message_max as nat,
                    now,
                );
                final(self)@ == accepted.state && outcome_view(r) == accepted.outcome
            }),
    {
        let kind = match datagram.kind.message_kind() {
            Some(kind) => kind,
            None => {
                return Err(protocol("native UDP carrier closed"));
            },
        };
        if datagram.kind == kind.complete_datagram_kind() {
            return match validate_message_with_limits(kind, datagram.payload.len(), limits) {
                Ok(()) => Ok(Some((kind, datagram.payload))),
                Err(e) => Err(e),
            };
        }
        let fragment = match decode_fragment_payload(datagram.payload.as_slice()) {
            Ok(fragment) => fragment,
            Err(e) => {
                return Err(e);
            },
        };
        let key = FragmentKey { kind, message_id: fragment.message_id };
        if self.completed_fragments.contains(&key) {
            return Ok(None);
        }
        if let Err(e) = validate_fragment_shape(&fragment) {
            return Err(e);
        }
        if let Err(e) = validate_message_with_limits(kind, fragment.total_len, limits) {
            return Err(e);
        }
        proof {
            lemma_chunk_len(fragment@.total_len, fragment@.chunk_index);
        }
        self.store_fragment(key, fragment, now)
    }

    /// The first message of a kind that waits for a reader.
    pub fn pop_pending(&mut self, kind: MessageKind) -> (r: Option<Vec<u8>>)
        requires
            old(self).wf(),
        ensures
            final(self).wf(),
            ({
                let queue = pending_of(old(self)@, kind);
                if queue.len() == 0 {
                    r is None && final(self)@ == old(self)@
                } else {
                    (r matches Some(v) && v@ == queue[0]) && final(self)@ == with_pending(
                        old(self)@,
                        kind,
                        queue.drop_first(),
                    )
                }
            }),
    {
        let ghost start = self@;
        match kind {
            MessageKind::Frame => {
                let ghost before = self.pending_frames@;
                let popped = self.pending_frames.pop_front();
                proof {
                    if before.len() > 0 {
                        assert(queue_view(self.pending_frames@) =~= queue_view(
                            before,
                        ).drop_first());
                        assert(queue_view(before)[0] == before[0]@);
                    } else {
                        assert(self.pending_frames@ =~= before);
                    }
                }
                popped
            },
            MessageKind::AuthenticatedMessage => {
                let ghost before = self.pending_authenticated@;
                let popped = self.pending_authenticated.pop_front();
                proof {
                    if before.len() > 0 {
                        assert(queue_view(self.pending_authenticated@) =~= queue_view(
                            before,
                        ).drop_first());
                        assert(queue_view(before)[0] == before[0]@);
                    } else {
                        assert(self.pending_authenticated@ =~= before);
                    }
                }
                popped
            },
        }
    }

    /// Keeps a message for a later reader, if its queue has room.
    pub fn push_pending(&mut self, kind: MessageKind, payload: Vec<u8>) -> (r: Result<()>)
        requires
            old(self).wf(),
        ensures
            final(self).wf(),
            ({
                let queue = pending_of(old(self)@, kind);
                if queue.len() >= MAX_PENDING_MESSAGES {
                    final(self)@ == old(self)@ && (r matches Err(e) && e@ == queue_full(kind))
                } else {
                    r is Ok && final(self)@ == with_pending(
                        old(self)@,
                        kind,
                        queue.push(payload@),
                    )
                }
            }),
    {
        match kind {
            MessageKind::Frame => {
                let ghost before = self.pending_frames@;
                let r = push_bounded_pending(
                    &mut self.pending_frames,
                    payload,
                    "native UDP carrier pending frame queue is full",
                );
                assert(before.len() < MAX_PENDING_MESSAGES ==> queue_view(self.pending_frames@)
                    =~= queue_view(before).push(payload@));
                r
            },
            MessageKind::AuthenticatedMessage => {
                let ghost before = self.pending_authenticated@;
                let r = push_bounded_pending(
                    &mut self.pending_authenticated,
                    payload,
                    "native UDP carrier pending authenticated queue is full",
                );
                assert(before.len() < MAX_PENDING_MESSAGES ==> queue_view(
                    self.pending_authenticated@,
                ) =~= queue_view(before).push(payload@));
                r
            },
        }
    }
}

/// The messages of a kind that wait for a reader.
pub open spec fn pending_of(s: CarrierView, kind: MessageKind) -> Seq<Seq<u8>> {
    match kind {
        MessageKind::Frame => s.pending_frames,
        MessageKind::AuthenticatedMessage => s.pending_authenticated,
    }
}

/// A session with another queue of waiting messages.
pub open spec fn with_pending(s: CarrierView, kind: MessageKind, queue: Seq<Seq<u8>>) -> CarrierView {
    match kind {
        MessageKind::Frame => CarrierView { pending_frames: queue, ..s },
        MessageKind::AuthenticatedMessage => CarrierView { pending_authenticated: queue, ..s },
    }
}

/// The refusal of a message whose queue is full.
pub open spec fn queue_full(kind: MessageKind) -> QlinkErrorView {
    match kind {
        MessageKind::Frame => QlinkErrorView::Protocol(
            "native UDP carrier pending frame queue is full"@,
        ),
        MessageKind::AuthenticatedMessage => QlinkErrorView::Protocol(
            "native UDP carrier pending authenticated queue is full"@,
        ),
    }
}

// ---------------------------------------------------------------------------
// Receiving and sending
// ---------------------------------------------------------------------------

/// What a reader gets from a datagram that arrives, and what becomes of the
/// session: a message of another kind is kept for its own reader.
pub open spec fn datagram_received(
    s: CarrierView,
    wanted: MessageKind,
    max_size: nat,
    bytes: Seq<u8>,
    now: Instant,
) -> (CarrierView, Result<Option<Seq<u8>>, QlinkErrorView>) {
    if bytes.len() > MAX_UDP_DATAGRAM_LEN {
        (s, Err(QlinkErrorView::Protocol("native UDP carrier datagram exceeds 1200 bytes"@)))
    } else {
        match datagram_decoded(bytes) {
            Err(e) => (s, Err(e)),
            Ok(d) => {
                let a = datagram_accepted(s, d, wanted_limit(wanted, max_size), now);
                match a.outcome {
                    Err(e) => (a.state, Err(e)),
                    Ok(None) => (a.state, Ok(None)),
                    Ok(Some((kind, message))) => if kind == wanted {
                        match limit_refusal(wanted, message.len(), max_size) {
                            Some(text) => (a.state, Err(QlinkErrorView::Protocol(text))),
                            None => (a.state, Ok(Some(message))),
                        }
                    } else if pending_of(a.state, kind).len() >= MAX_PENDING_MESSAGES {
                        (a.state, Err(queue_full(kind)))
                    } else {
                        (
                            with_pending(
                                a.state,
                                kind,
                                pending_of(a.state, kind).push(message),
                            ),
                            Ok(None),
                        )
                    },
                }
            },
        }
    }
}

/// The model of what a reader gets.
pub open spec fn received_view(r: Result<Option<Vec<u8>>>) -> Result<
    Option<Seq<u8>>,
    QlinkErrorView,
> {
    match r {
        Ok(Some(v)) => Ok(Some(v@)),
        Ok(None) => Ok(None),
        Err(e) => Err(e@),
    }
}

/// Into which datagrams a message is cut: one where it fits, else one for each
/// fragment.
pub open spec fn chunk_of(message: Seq<u8>, index: nat) -> Seq<u8> {
    message.subrange(
        MAX_FRAGMENT_PAYLOAD_LEN * index,
        MAX_FRAGMENT_PAYLOAD_LEN * index + chunk_len_at(message.len(), index),
    )
}

/// The fragment of a message at some place.
pub open spec fn fragment_at(message: Seq<u8>, message_id: u64, index: nat) -> FragmentView {
    FragmentView {
        message_id: message_id as nat,
        total_len: message.len(),
        chunk_index: index,
        chunk_count: chunk_count_of(message.len()),
        payload: chunk_of(message, index),
    }
}

/// The datagram that carries the fragment of a message at some place.
pub open spec fn fragment_datagram(
    kind: MessageKind,
    message: Seq<u8>,
    message_id: u64,
    index: nat,
) -> DatagramView {
    DatagramView {
        kind: fragment_kind(kind),
        payload: fragment_wire(fragment_at(message, message_id, index)),
    }
}

/// The datagrams of a message.
pub open spec fn message_wire(kind: MessageKind, message: Seq<u8>, message_id: u64) -> Seq<Seq<u8>> {
    if message.len() <= MAX_CARRIER_PAYLOAD_LEN {
        seq![datagram_wire(complete_kind(kind), message)]
    } else {
        Seq::new(
            chunk_count_of(message.len()),
            |i: int|
                datagram_wire(
                    fragment_kind(kind),
                    fragment_datagram(kind, message, message_id, i as nat).payload,
                ),
        )
    }
}

/// Why a message is not sent, if it is not.
pub open spec fn send_refusal(len: nat) -> Option<Seq<char>> {
    if len <= MAX_CARRIER_PAYLOAD_LEN {
        None
    } else if len > u32::MAX {
        Some("native UDP carrier message exceeds u32 length"@)
    } else if len > MAX_REASSEMBLED_MESSAGE_LEN {
        Some("native UDP carrier message is too large: "@ + decimal(len) + " bytes"@)
    } else {
        None
    }
}

/// The number after a message's number; after the last comes zero.
pub open spec fn next_id(id: u64) -> u64 {
    if id == u64::MAX {
        0
    } else {
        (id + 1) as u64
    }
}

impl CarrierState {
    /// Takes a datagram that arrived for a reader. A message comes back when one
    /// that the reader waits for is whole.
    pub fn receive_datagram(
        &mut self,
        wanted: MessageKind,
        max_size: usize,
        bytes: &[u8],
        now: Instant,
    ) -> (r: Result<Option<Vec<u8>>>)
        requires
            old(self).wf(),
        ensures
            final(self).wf(),
            (final(self)@, received_view(r)) == datagram_received(
                old(self)@,
                wanted,
                max_size as nat,
                bytes@,
                now,
            ),
    {
        if bytes.len() > MAX_UDP_DATAGRAM_LEN {
            return Err(protocol("native UDP carrier datagram exceeds 1200 bytes"));
        }
        let datagram = match decode_datagram(bytes) {
            Ok(datagram) => datagram,
            Err(e) => {
                return Err(e);
            },
        };
        let limits = ReceiveLimits::for_wanted(wanted, max_size);
        match self.accept_datagram(datagram, limits, now) {
            Err(e) => Err(e),
            Ok(None) => Ok(None),
            Ok(Some((kind, payload))) => {
                if kind == wanted {
                    match validate_received_size(wanted, payload, max_size) {
                        Ok(message) => Ok(Some(message)),
                        Err(e) => Err(e),
                    }
                } else {
                    match self.push_pending(kind, payload) {
                        Ok(()) => Ok(None),
                        Err(e) => Err(e),
                    }
                }
            },
        }
    }

    /// The first message that waits for a reader, held to the reader's limit.
    pub fn take_pending(&mut self, wanted: MessageKind, max_size: usize) -> (r: Option<
        Result<Vec<u8>>,
    >)
        requires
            old(self).wf(),
        ensures
            final(self).wf(),
            ({
                let queue = pending_of(old(self)@, wanted);
                if queue.len() == 0 {
                    r is None && final(self)@ == old(self)@
                } else {
                    &&& final(self)@ == with_pending(old(self)@, wanted, queue.drop_first())
                    &&& match limit_refusal(wanted, queue[0].len(), max_size as nat) {
                        Some(text) => r matches Some(Err(e)) && e@ == QlinkErrorView::Protocol(
                            text,
                        ),
                        None => r matches Some(Ok(v)) && v@ == queue[0],
                    }
                }
            }),
    {
        match self.pop_pending(wanted) {
            Some(pending) => Some(validate_received_size(wanted, pending, max_size)),
            None => None,
        }
    }

    /// The datagrams of a message, in the order in which they are sent. A message
    /// that is cut takes the next number.
    pub fn send_message(&mut self, kind: MessageKind, payload: &[u8]) -> (r: Result<Vec<Vec<u8>>>)
        requires
            old(self).wf(),
        ensures
            final(self).wf(),
            match send_refusal(payload@.len()) {
                Some(text) => final(self)@ == old(self)@ && (r matches Err(e) && e@
                    == QlinkErrorView::Protocol(text)),
                None => {
                    &&& r matches Ok(wire) && queue_view(wire@) == message_wire(
                        kind,
                        payload@,
                        old(self)@.next_message_id,
                    )
                    &&& final(self)@ == if payload@.len() <= MAX_CARRIER_PAYLOAD_LEN {
                        old(self)@
                    } else {
                        CarrierView {
                            next_message_id: next_id(old(self)@.next_message_id),
                            ..old(self)@
                        }
                    }
                },
            },
    {
        let mut wire: Vec<Vec<u8>> = Vec::new();
        if payload.len() <= MAX_CARRIER_PAYLOAD_LEN {
            match encode_datagram(kind.complete_datagram_kind(), payload) {
                Ok(datagram) => {
                    wire.push(datagram);
                    assert(queue_view(wire@) =~= message_wire(
                        kind,
                        payload@,
                        self@.next_message_id,
                    ));
                    return Ok(wire);
                },
                Err(e) => {
                    return Err(e);
                },
            }
        }
        let len: u64 = payload.len() as u64;
        if len > u32::MAX as u64 {
            return Err(protocol("native UDP carrier message exceeds u32 length"));
        }
        if payload.len() > MAX_REASSEMBLED_MESSAGE_LEN {
            let mut text = "native UDP carrier message is too large: ".to_owned();
            push_decimal(&mut text, payload.len() as u64);
            text.append(" bytes");
            return Err(QlinkError::Protocol(text));
        }
        let count: usize = (payload.len() + (MAX_FRAGMENT_PAYLOAD_LEN - 1))
            / MAX_FRAGMENT_PAYLOAD_LEN;
        assert(count == chunk_count_of(payload@.len()));
        let message_id: u64 = self.next_message_id;
        self.next_message_id = message_id.wrapping_add(1);
        let ghost all = message_wire(kind, payload@, message_id);
        let mut i: usize = 0;
        while i < count
            invariant
                i <= count,
                count == chunk_count_of(payload@.len()),
                MAX_CARRIER_PAYLOAD_LEN < payload@.len() <= MAX_REASSEMBLED_MESSAGE_LEN,
                all == message_wire(kind, payload@, message_id),
                wire@.len() == i,
                forall|j: int| 0 <= j < i ==> (#[trigger] wire@[j])@ == all[j],
                self.wf(),
                self@ == (CarrierView {
                    next_message_id: next_id(old(self)@.next_message_id),
                    ..old(self)@
                }),
            decreases count - i,
        {
            proof {
                lemma_chunk_len(payload@.len(), i as nat);
            }
            let from: usize = MAX_FRAGMENT_PAYLOAD_LEN * i;
            let to: usize = if i + 1 == count {
                payload.len()
            } else {
                from + MAX_FRAGMENT_PAYLOAD_LEN
            };
            let chunk = slice_of(payload, from, to);
            let ghost f = fragment_at(payload@, message_id, i as nat);
            assert(chunk@ == f.payload);
            proof {
                law_fragment_round_trip(f);
            }
            let fragment = match encode_fragment_payload(
                message_id,
                payload.len() as u32,
                i as u16,
                count as u16,
                chunk.as_slice(),
            ) {
                Ok(fragment) => fragment,
                Err(e) => {
                    return Err(e);
                },
            };
            match encode_datagram(kind.fragment_datagram_kind(), fragment.as_slice()) {
                Ok(datagram) => {
                    wire.push(datagram);
                },
                Err(e) => {
                    return Err(e);
                },
            }
            i = i + 1;
        }
        assert(queue_view(wire@) =~= all);
        Ok(wire)
    }
}

/// The datagram with which a session is closed, where the reason fits.
pub fn close_datagram(reason: &[u8]) -> (r: Option<Vec<u8>>)
    ensures
        if reason@.len() <= MAX_CARRIER_PAYLOAD_LEN {
            r matches Some(v) && v@ == datagram_wire(DatagramKind::Close, reason@)
        } else {
            r is None
        },
{
    match encode_datagram(DatagramKind::Close, reason) {
        Ok(datagram) => Some(datagram),
        Err(_) => None,
    }
}

// ---------------------------------------------------------------------------
// Listening
// ---------------------------------------------------------------------------

/// What a listener does with a datagram.
#[derive(Debug, Clone, Copy, PartialEq, Eq, Structural)]
pub enum ListenerAction {
    /// It has reached the session that it is for.
    Delivered,
    /// It has reached its session, which it closes.
    DeliveredAndForget,
    /// Its session is gone: forget it and drop the datagram.
    ForgetAndDrop,
    /// Its session is gone: forget it and open a new one.
    ForgetAndOpen,
    /// Open a session for its sender.
    Open,
    /// Drop it.
    Drop,
}

/// The kind of a datagram that a listener looks at: one that is too long or
/// malformed never gets as far as a session.
pub fn listener_datagram_kind(bytes: &[u8]) -> (r: Option<DatagramKind>)
    ensures
        r == match datagram_decoded(bytes@) {
            Ok(d) => if bytes@.len() <= MAX_UDP_DATAGRAM_LEN {
                Some(d.kind)
            } else {
                None
            },
            Err(_) => None,
        },
{
    if bytes.len() > MAX_UDP_DATAGRAM_LEN {
        return None;
    }
    match decode_datagram(bytes) {
        Ok(datagram) => Some(datagram.kind),
        Err(_) => None,
    }
}

/// What a listener does with a well-formed datagram. `delivery` tells whether the
/// sender's session took it, where there is one; `sessions` counts the sessions.
pub open spec fn listener_action(kind: DatagramKind, delivery: Option<bool>, sessions: nat) -> ListenerAction {
    match delivery {
        Some(true) => if kind == DatagramKind::Close {
            ListenerAction::DeliveredAndForget
        } else {
            ListenerAction::Delivered
        },
        Some(false) => if kind == DatagramKind::Close || sessions > MAX_LISTENER_SESSIONS {
            ListenerAction::ForgetAndDrop
        } else {
            ListenerAction::ForgetAndOpen
        },
        None => if kind == DatagramKind::Close || sessions >= MAX_LISTENER_SESSIONS {
            ListenerAction::Drop
        } else {
            ListenerAction::Open
        },
    }
}

pub fn dispatch_datagram(kind: DatagramKind, delivery: Option<bool>, sessions: usize) -> (a:
    ListenerAction)
    ensures
        a == listener_action(kind, delivery, sessions as nat),
{
    match delivery {
        Some(delivered) => if delivered {
            if kind == DatagramKind::Close {
                ListenerAction::DeliveredAndForget
            } else {
                ListenerAction::Delivered
            }
        } else if kind == DatagramKind::Close || sessions > MAX_LISTENER_SESSIONS {
            ListenerAction::ForgetAndDrop
        } else {
            ListenerAction::ForgetAndOpen
        },
        None => if kind == DatagramKind::Close || sessions >= MAX_LISTENER_SESSIONS {
            ListenerAction::Drop
        } else {
            ListenerAction::Open
        },
    }
}

/// A listener never holds more sessions than it may.
pub proof fn law_listener_is_bounded(kind: DatagramKind, delivery: Option<bool>, sessions: nat)
    requires
        sessions <= MAX_LISTENER_SESSIONS,
        delivery is Some ==> sessions > 0,
    ensures
        ({
            let action = listener_action(kind, delivery, sessions);
            let after = match action {
                ListenerAction::Delivered => sessions as int,
                ListenerAction::DeliveredAndForget => sessions - 1,
                ListenerAction::ForgetAndDrop => sessions - 1,
                ListenerAction::ForgetAndOpen => sessions as int,
                ListenerAction::Open => sessions as int + 1,
                ListenerAction::Drop => sessions as int,
            };
            after <= MAX_LISTENER_SESSIONS
        }),
{
}

} // verus!
