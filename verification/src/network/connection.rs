//! Reliability framing, tracing, and split-packet assembly.
//!
//! A connection never touches a socket: what it sends is put into its outbox, and
//! what arrives is handed to it together with the time of arrival.

use super::events::{event_view, EventView, MtpEvent, TracePacket};
use super::inbound::{command_event, parse_to_client};
use super::protocol::{
    CHANNEL_DEFAULT, CONTROLTYPE_ACK, CONTROLTYPE_DISCO, CONTROLTYPE_PING, CONTROLTYPE_SET_PEER_ID,
    PACKET_TYPE_CONTROL, PACKET_TYPE_ORIGINAL, PACKET_TYPE_RELIABLE, PACKET_TYPE_SPLIT,
    PEER_ID_INEXISTENT, PROTOCOL_ID, SEQNUM_INITIAL, TOCLIENT_ANNOUNCE_MEDIA, TOCLIENT_ITEMDEF,
    TOCLIENT_NODEDEF,
};
use super::wire::{be16, be32, read_u16, u16_at, write_u16, write_u32};
use crate::text::{copy_range, push_all};
use vstd::prelude::*;

verus! {

/// How long an incomplete split packet is kept after its last chunk, in milliseconds.
pub const SPLIT_TIMEOUT_MS: u64 = 10_000;

/// What every datagram starts with.
pub open spec fn packet_header(peer_id: u16, channel: u8, packet_type: u8) -> Seq<u8> {
    be32(PROTOCOL_ID) + be16(peer_id) + seq![channel, packet_type]
}

pub open spec fn unreliable_packet(peer_id: u16, payload: Seq<u8>) -> Seq<u8> {
    packet_header(peer_id, CHANNEL_DEFAULT, PACKET_TYPE_ORIGINAL) + payload
}

pub open spec fn reliable_packet(peer_id: u16, seqnum: u16, payload: Seq<u8>) -> Seq<u8> {
    packet_header(peer_id, CHANNEL_DEFAULT, PACKET_TYPE_RELIABLE) + be16(seqnum)
        + seq![PACKET_TYPE_ORIGINAL] + payload
}

pub open spec fn control_packet(peer_id: u16, control: u8) -> Seq<u8> {
    packet_header(peer_id, CHANNEL_DEFAULT, PACKET_TYPE_CONTROL) + seq![control]
}

pub open spec fn ack_packet(peer_id: u16, channel: u8, seqnum: u16) -> Seq<u8> {
    packet_header(peer_id, channel, PACKET_TYPE_CONTROL) + seq![CONTROLTYPE_ACK] + be16(seqnum)
}

/// The sequence number behind `seqnum`.
pub open spec fn next_seqnum(seqnum: u16) -> u16 {
    if seqnum == u16::MAX {
        0
    } else {
        (seqnum + 1) as u16
    }
}

fn start_packet(peer_id: u16, channel: u8, packet_type: u8) -> (buf: Vec<u8>)
    ensures
        buf@ == packet_header(peer_id, channel, packet_type),
{
    let mut buf: Vec<u8> = Vec::new();
    write_u32(&mut buf, PROTOCOL_ID);
    write_u16(&mut buf, peer_id);
    buf.push(channel);
    buf.push(packet_type);
    assert(buf@ =~= packet_header(peer_id, channel, packet_type));
    buf
}

pub fn build_unreliable_packet(peer_id: u16, payload: Vec<u8>) -> (packet: Vec<u8>)
    ensures
        packet@ == unreliable_packet(peer_id, payload@),
{
    let mut buf: Vec<u8> = start_packet(peer_id, CHANNEL_DEFAULT, PACKET_TYPE_ORIGINAL);
    push_all(&mut buf, payload.as_slice());
    buf
}

/// Wraps a client command in a reliable packet and advances the outgoing sequence.
pub fn build_reliable_packet(peer_id: u16, send_seq: &mut u16, payload: Vec<u8>) -> (packet:
    Vec<u8>)
    ensures
        packet@ == reliable_packet(peer_id, *old(send_seq), payload@),
        *final(send_seq) == next_seqnum(*old(send_seq)),
{
    let mut buf: Vec<u8> = start_packet(peer_id, CHANNEL_DEFAULT, PACKET_TYPE_RELIABLE);
    write_u16(&mut buf, *send_seq);
    buf.push(PACKET_TYPE_ORIGINAL);
    push_all(&mut buf, payload.as_slice());
    *send_seq = send_seq.wrapping_add(1);
    assert(buf@ =~= reliable_packet(peer_id, *old(send_seq), payload@));
    buf
}

/// What one split packet is told apart by.
#[derive(Clone, Copy, Debug, PartialEq, Eq, Hash, Structural)]
pub struct SplitKey {
    pub channel: u8,
    pub reliable: bool,
    pub seqnum: u16,
}

/// The chunks of one split packet that have arrived so far.
pub struct SplitBuffer {
    chunks: Vec<Option<Vec<u8>>>,
    received: usize,
    last_update: u64,
}

/// The value of a [`SplitBuffer`].
pub ghost struct SplitView {
    pub chunks: Seq<Option<Seq<u8>>>,
    pub last_update: u64,
}

pub open spec fn chunk_view(chunk: Option<Vec<u8>>) -> Option<Seq<u8>> {
    match chunk {
        Some(data) => Some(data@),
        None => None,
    }
}

/// The number of chunks that are there.
pub open spec fn filled(chunks: Seq<Option<Seq<u8>>>) -> nat
    decreases chunks.len(),
{
    if chunks.len() == 0 {
        0
    } else {
        filled(chunks.drop_last()) + (if chunks.last() is Some { 1nat } else { 0nat })
    }
}

/// Every chunk is there.
pub open spec fn complete(chunks: Seq<Option<Seq<u8>>>) -> bool {
    forall|i: int| 0 <= i < chunks.len() ==> (#[trigger] chunks[i]) is Some
}

/// The chunks that are there, one behind the other in the order of their numbers.
pub open spec fn joined(chunks: Seq<Option<Seq<u8>>>) -> Seq<u8>
    decreases chunks.len(),
{
    if chunks.len() == 0 {
        seq![]
    } else {
        match chunks.last() {
            Some(data) => joined(chunks.drop_last()) + data,
            None => joined(chunks.drop_last()),
        }
    }
}

/// No chunk has arrived yet.
pub open spec fn no_chunks(count: nat) -> Seq<Option<Seq<u8>>> {
    Seq::new(count, |i: int| None)
}

/// A chunk is taken unless its number is out of range or already taken.
pub open spec fn with_chunk(chunks: Seq<Option<Seq<u8>>>, num: int, data: Seq<u8>) -> Seq<
    Option<Seq<u8>>,
> {
    if num < chunks.len() && chunks[num] is None {
        chunks.update(num, Some(data))
    } else {
        chunks
    }
}

proof fn filled_counts(chunks: Seq<Option<Seq<u8>>>)
    ensures
        filled(chunks) <= chunks.len(),
        filled(chunks) == chunks.len() <==> complete(chunks),
    decreases chunks.len(),
{
    if chunks.len() > 0 {
        filled_counts(chunks.drop_last());
        if complete(chunks) {
            assert forall|i: int| 0 <= i < chunks.drop_last().len() implies (
            #[trigger] chunks.drop_last()[i]) is Some by {
                assert(chunks[i] is Some);
            }
        }
        if filled(chunks) == chunks.len() {
            assert forall|i: int| 0 <= i < chunks.len() implies (#[trigger] chunks[i]) is Some by {
                if i < chunks.len() - 1 {
                    assert(chunks.drop_last()[i] is Some);
                }
            }
        }
    }
}

proof fn filled_update(chunks: Seq<Option<Seq<u8>>>, num: int, data: Seq<u8>)
    requires
        0 <= num < chunks.len(),
        chunks[num] is None,
    ensures
        filled(chunks.update(num, Some(data))) == filled(chunks) + 1,
    decreases chunks.len(),
{
    let after = chunks.update(num, Some(data));
    if num == chunks.len() - 1 {
        assert(after.drop_last() =~= chunks.drop_last());
    } else {
        assert(after.drop_last() =~= chunks.drop_last().update(num, Some(data)));
        filled_update(chunks.drop_last(), num, data);
    }
}

proof fn filled_none(count: nat)
    ensures
        filled(no_chunks(count)) == 0,
    decreases count,
{
    if count > 0 {
        assert(no_chunks(count).drop_last() =~= no_chunks((count - 1) as nat));
        filled_none((count - 1) as nat);
    }
}

impl View for SplitBuffer {
    type V = SplitView;

    closed spec fn view(&self) -> SplitView {
        SplitView {
            chunks: self.chunks@.map_values(|c: Option<Vec<u8>>| chunk_view(c)),
            last_update: self.last_update,
        }
    }
}

impl SplitBuffer {
    /// The count of received chunks is right.
    pub closed spec fn wf(&self) -> bool {
        self.received == filled(self@.chunks)
    }

    pub fn new(chunk_count: u16, now: u64) -> (buffer: Self)
        ensures
            buffer.wf(),
            buffer@ == (SplitView { chunks: no_chunks(chunk_count as nat), last_update: now }),
    {
        let mut chunks: Vec<Option<Vec<u8>>> = Vec::new();
        let mut i: u16 = 0;
        while i < chunk_count
            invariant
                i <= chunk_count,
                chunks@.len() == i,
                forall|k: int| 0 <= k < i ==> (#[trigger] chunks@[k]) is None,
            decreases chunk_count - i,
        {
            chunks.push(None);
            i = i + 1;
        }
        let buffer = SplitBuffer { chunks, received: 0, last_update: now };
        proof {
            assert(buffer@.chunks =~= no_chunks(chunk_count as nat));
            filled_none(chunk_count as nat);
        }
        buffer
    }

    pub fn insert(&mut self, chunk_num: u16, data: Vec<u8>)
        requires
            old(self).wf(),
        ensures
            final(self).wf(),
            final(self)@ == (SplitView {
                chunks: with_chunk(old(self)@.chunks, chunk_num as int, data@),
                last_update: old(self)@.last_update,
            }),
    {
        let idx: usize = chunk_num as usize;
        if idx >= self.chunks.len() {
            return;
        }
        proof {
            filled_counts(self@.chunks);
            assert(self@.chunks[idx as int] == chunk_view(self.chunks@[idx as int]));
        }
        if self.chunks[idx].is_none() {
            proof {
                filled_update(self@.chunks, idx as int, data@);
                filled_counts(self@.chunks.update(idx as int, Some(data@)));
            }
            self.chunks[idx] = Some(data);
            self.received = self.received + 1;
            assert(self@.chunks =~= old(self)@.chunks.update(idx as int, Some(data@)));
        }
    }

    pub fn is_complete(&self) -> (done: bool)
        requires
            self.wf(),
        ensures
            done == complete(self@.chunks),
    {
        proof {
            filled_counts(self@.chunks);
        }
        self.received == self.chunks.len()
    }

    pub fn assemble(&self) -> (out: Vec<u8>)
        ensures
            out@ == joined(self@.chunks),
    {
        let mut out: Vec<u8> = Vec::new();
        let mut i: usize = 0;
        assert(self@.chunks.take(0) =~= Seq::<Option<Seq<u8>>>::empty());
        while i < self.chunks.len()
            invariant
                i <= self.chunks.len(),
                out@ == joined(self@.chunks.take(i as int)),
            decreases self.chunks.len() - i,
        {
            proof {
                let next = self@.chunks.take(i + 1);
                assert(next.drop_last() =~= self@.chunks.take(i as int));
                assert(next.last() == chunk_view(self.chunks@[i as int]));
            }
            if let Some(data) = &self.chunks[i] {
                push_all(&mut out, data.as_slice());
            }
            i = i + 1;
        }
        assert(self@.chunks.take(i as int) =~= self@.chunks);
        out
    }
}

/// The chunks of a split packet of `count` chunks after the given arrivals, each
/// a chunk number with its data.
pub open spec fn after_arrivals(count: nat, arrivals: Seq<(u16, Seq<u8>)>) -> Seq<Option<Seq<u8>>>
    decreases arrivals.len(),
{
    if arrivals.len() == 0 {
        no_chunks(count)
    } else {
        with_chunk(
            after_arrivals(count, arrivals.drop_last()),
            arrivals.last().0 as int,
            arrivals.last().1,
        )
    }
}

/// Chunk `num` is among the arrivals.
pub open spec fn has_arrived(arrivals: Seq<(u16, Seq<u8>)>, num: int) -> bool {
    exists|j: int| 0 <= j < arrivals.len() && (#[trigger] arrivals[j]).0 == num
}

proof fn chunks_after_arrivals(parts: Seq<Seq<u8>>, arrivals: Seq<(u16, Seq<u8>)>)
    requires
        forall|j: int|
            0 <= j < arrivals.len() && (#[trigger] arrivals[j]).0 < parts.len() ==> arrivals[j].1
                == parts[arrivals[j].0 as int],
    ensures
        after_arrivals(parts.len(), arrivals).len() == parts.len(),
        forall|k: int|
            0 <= k < parts.len() ==> #[trigger] after_arrivals(parts.len(), arrivals)[k] == (
            if has_arrived(arrivals, k) {
                Some(parts[k])
            } else {
                None
            }),
    decreases arrivals.len(),
{
    if arrivals.len() > 0 {
        let before = arrivals.drop_last();
        assert forall|j: int|
            0 <= j < before.len() && (#[trigger] before[j]).0 < parts.len() implies before[j].1
            == parts[before[j].0 as int] by {
            assert(before[j] == arrivals[j]);
        }
        chunks_after_arrivals(parts, before);
        let num = arrivals.last().0 as int;
        assert(arrivals[arrivals.len() - 1] == arrivals.last());
        assert forall|k: int| 0 <= k < parts.len() implies has_arrived(arrivals, k) == (
        has_arrived(before, k) || k == num) by {
            if has_arrived(before, k) {
                let j = choose|j: int| 0 <= j < before.len() && (#[trigger] before[j]).0 == k;
                assert(arrivals[j].0 == k);
            }
            if has_arrived(arrivals, k) && k != num {
                let j = choose|j: int| 0 <= j < arrivals.len() && (#[trigger] arrivals[j]).0 == k;
                assert(before[j].0 == k);
            }
        }
    }
}

proof fn joined_is_flatten(parts: Seq<Seq<u8>>)
    ensures
        joined(parts.map_values(|p: Seq<u8>| Some(p))) == parts.flatten(),
    decreases parts.len(),
{
    let wrap = |p: Seq<u8>| Some(p);
    parts.lemma_flatten_and_flatten_alt_are_equivalent();
    if parts.len() > 0 {
        joined_is_flatten(parts.drop_last());
        parts.drop_last().lemma_flatten_and_flatten_alt_are_equivalent();
        assert(parts.map_values(wrap).drop_last() =~= parts.drop_last().map_values(wrap));
    }
}

/// Chunks may arrive in any order, more than once, and mixed with chunks whose
/// number is out of range: the packet is complete exactly when every chunk has
/// arrived, and then it is the chunks in the order of their numbers.
pub proof fn split_packet_reassembles(parts: Seq<Seq<u8>>, arrivals: Seq<(u16, Seq<u8>)>)
    requires
        forall|j: int|
            0 <= j < arrivals.len() && (#[trigger] arrivals[j]).0 < parts.len() ==> arrivals[j].1
                == parts[arrivals[j].0 as int],
    ensures
        complete(after_arrivals(parts.len(), arrivals)) <==> (forall|k: int|
            0 <= k < parts.len() ==> #[trigger] has_arrived(arrivals, k)),
        complete(after_arrivals(parts.len(), arrivals)) ==> joined(
            after_arrivals(parts.len(), arrivals),
        ) == parts.flatten(),
{
    let chunks = after_arrivals(parts.len(), arrivals);
    chunks_after_arrivals(parts, arrivals);
    if complete(chunks) {
        assert forall|k: int| 0 <= k < parts.len() implies #[trigger] has_arrived(
            arrivals,
            k,
        ) by {
            assert(chunks[k] is Some);
        }
        assert forall|k: int| 0 <= k < parts.len() implies chunks[k] == Some(parts[k]) by {
            assert(has_arrived(arrivals, k));
        }
        assert(chunks =~= parts.map_values(|p: Seq<u8>| Some(p)));
        joined_is_flatten(parts);
    }
}

proof fn after_arrivals_len(count: nat, arrivals: Seq<(u16, Seq<u8>)>)
    ensures
        after_arrivals(count, arrivals).len() == count,
    decreases arrivals.len(),
{
    if arrivals.len() > 0 {
        after_arrivals_len(count, arrivals.drop_last());
    }
}

/// The first arrival of a chunk wins: once taken, a chunk keeps its data, whatever
/// arrives later.
pub proof fn split_chunk_taken_once(
    count: nat,
    arrivals: Seq<(u16, Seq<u8>)>,
    later: Seq<(u16, Seq<u8>)>,
    num: int,
)
    requires
        0 <= num < count,
        after_arrivals(count, arrivals)[num] is Some,
    ensures
        after_arrivals(count, arrivals + later)[num] == after_arrivals(count, arrivals)[num],
    decreases later.len(),
{
    if later.len() == 0 {
        assert(arrivals + later =~= arrivals);
    } else {
        split_chunk_taken_once(count, arrivals, later.drop_last(), num);
        after_arrivals_len(count, arrivals + later.drop_last());
        assert((arrivals + later).last() == later.last());
        assert((arrivals + later).drop_last() =~= arrivals + later.drop_last());
    }
}

/// A split packet in the making.
pub struct SplitEntry {
    key: SplitKey,
    buffer: SplitBuffer,
}

/// The Luanti peer protocol on one connection.
pub struct MtpConnection {
    peer_id: u16,
    send_seq: u16,
    split_buffers: Vec<SplitEntry>,
    outbox: Vec<Vec<u8>>,
    last_command: Option<(u16, usize)>,
    unknown_cmds_logged: u8,
    debug_packets: bool,
}

spec fn entry_at(entries: Seq<SplitEntry>, key: SplitKey) -> int {
    choose|i: int| 0 <= i < entries.len() && (#[trigger] entries[i]).key == key
}

spec fn has_entry(entries: Seq<SplitEntry>, key: SplitKey) -> bool {
    exists|i: int| 0 <= i < entries.len() && (#[trigger] entries[i]).key == key
}

spec fn entry_map(entries: Seq<SplitEntry>) -> Map<SplitKey, SplitView> {
    Map::new(|k: SplitKey| has_entry(entries, k), |k: SplitKey| entries[entry_at(entries, k)].buffer@)
}

spec fn entries_wf(entries: Seq<SplitEntry>) -> bool {
    &&& forall|i: int| 0 <= i < entries.len() ==> (#[trigger] entries[i]).buffer.wf()
    &&& forall|i: int, j: int|
        0 <= i < j < entries.len() ==> (#[trigger] entries[i]).key != (#[trigger] entries[j]).key
}

/// Of two times in milliseconds, how long the second is ago at the first.
pub open spec fn elapsed(now: u64, then: u64) -> int {
    if now >= then {
        now - then
    } else {
        0
    }
}

/// The split packets that have not expired at `now`.
pub open spec fn unexpired(pending: Map<SplitKey, SplitView>, now: u64) -> Map<SplitKey, SplitView> {
    Map::new(
        |k: SplitKey|
            pending.dom().contains(k) && elapsed(now, pending[k].last_update) < SPLIT_TIMEOUT_MS,
        |k: SplitKey| pending[k],
    )
}

/// The chunks of split packet `key` once one more chunk has arrived. A chunk that
/// states another number of chunks starts the packet anew.
pub open spec fn chunks_with(
    pending: Map<SplitKey, SplitView>,
    key: SplitKey,
    count: u16,
    num: u16,
    data: Seq<u8>,
) -> Seq<Option<Seq<u8>>> {
    let known = if pending.dom().contains(key) && pending[key].chunks.len() == count {
        pending[key].chunks
    } else {
        no_chunks(count as nat)
    };
    with_chunk(known, num as int, data)
}

/// The assembled packet, if `chunks` makes it complete.
pub open spec fn assembled(chunks: Seq<Option<Seq<u8>>>) -> Option<Seq<u8>> {
    if complete(chunks) {
        Some(joined(chunks))
    } else {
        None
    }
}

/// The pending split packets once one more chunk has arrived at `now`.
pub open spec fn pending_with(
    pending: Map<SplitKey, SplitView>,
    key: SplitKey,
    count: u16,
    num: u16,
    data: Seq<u8>,
    now: u64,
) -> Map<SplitKey, SplitView> {
    let live = unexpired(pending, now);
    let chunks = chunks_with(live, key, count, num, data);
    if complete(chunks) {
        live.remove(key)
    } else {
        live.insert(key, SplitView { chunks, last_update: now })
    }
}

proof fn entry_map_at(entries: Seq<SplitEntry>, i: int)
    requires
        entries_wf(entries),
        0 <= i < entries.len(),
    ensures
        entry_map(entries).dom().contains(entries[i].key),
        entry_map(entries)[entries[i].key] == entries[i].buffer@,
{
    let key = entries[i].key;
    assert(has_entry(entries, key));
    let j = entry_at(entries, key);
    assert(0 <= j < entries.len() && entries[j].key == key);
    if i < j {
        assert(entries[i].key != entries[j].key);
    } else if j < i {
        assert(entries[j].key != entries[i].key);
    }
}

fn elapsed_ms(now: u64, then: u64) -> (ms: u64)
    ensures
        ms == elapsed(now, then),
{
    if now >= then {
        now - then
    } else {
        0
    }
}

proof fn entry_map_remove(entries: Seq<SplitEntry>, i: int)
    requires
        entries_wf(entries),
        0 <= i < entries.len(),
    ensures
        entries_wf(entries.remove(i)),
        entry_map(entries.remove(i)) == entry_map(entries).remove(entries[i].key),
{
    let rest = entries.remove(i);
    let key = entries[i].key;
    assert forall|m: int| 0 <= m < rest.len() implies (#[trigger] rest[m]) == entries[(if m < i {
        m
    } else {
        m + 1
    })] by {}
    assert(entries_wf(rest)) by {
        assert forall|m: int, n: int| 0 <= m < n < rest.len() implies (#[trigger] rest[m]).key != (
        #[trigger] rest[n]).key by {
            let x = if m < i { m } else { m + 1 };
            let y = if n < i { n } else { n + 1 };
            assert(entries[x].key != entries[y].key);
        }
    }
    let left = entry_map(rest);
    let right = entry_map(entries).remove(key);
    assert forall|k: SplitKey| left.dom().contains(k) implies #[trigger] right.dom().contains(k)
        && left[k] == right[k] by {
        let m = entry_at(rest, k);
        assert(rest[m].key == k);
        entry_map_at(rest, m);
        let x = if m < i { m } else { m + 1 };
        entry_map_at(entries, x);
        if x < i {
            assert(entries[x].key != entries[i].key);
        } else {
            assert(entries[i].key != entries[x].key);
        }
    }
    assert forall|k: SplitKey| right.dom().contains(k) implies #[trigger] left.dom().contains(k) by {
        let x = entry_at(entries, k);
        assert(entries[x].key == k);
        let m = if x < i { x } else { x - 1 };
        assert(rest[m].key == k);
    }
    assert(left =~= right);
}

proof fn entry_map_set(entries: Seq<SplitEntry>, i: int, entry: SplitEntry)
    requires
        entries_wf(entries),
        0 <= i < entries.len(),
        entry.key == entries[i].key,
        entry.buffer.wf(),
    ensures
        entries_wf(entries.update(i, entry)),
        entry_map(entries.update(i, entry)) == entry_map(entries).insert(entry.key, entry.buffer@),
{
    let after = entries.update(i, entry);
    assert forall|m: int| 0 <= m < after.len() implies (#[trigger] after[m]).key == entries[m].key by {}
    assert(entries_wf(after));
    let left = entry_map(after);
    let right = entry_map(entries).insert(entry.key, entry.buffer@);
    assert forall|k: SplitKey| left.dom().contains(k) implies #[trigger] right.dom().contains(k)
        && left[k] == right[k] by {
        let m = entry_at(after, k);
        assert(after[m].key == k);
        entry_map_at(after, m);
        entry_map_at(entries, m);
    }
    assert forall|k: SplitKey| right.dom().contains(k) implies #[trigger] left.dom().contains(k) by {
        if k == entry.key {
            assert(after[i].key == k);
        } else {
            let m = entry_at(entries, k);
            assert(after[m].key == k);
        }
    }
    assert(left =~= right);
}

proof fn entry_map_push(entries: Seq<SplitEntry>, entry: SplitEntry)
    requires
        entries_wf(entries),
        !has_entry(entries, entry.key),
        entry.buffer.wf(),
    ensures
        entries_wf(entries.push(entry)),
        entry_map(entries.push(entry)) == entry_map(entries).insert(entry.key, entry.buffer@),
{
    let after = entries.push(entry);
    assert forall|m: int, n: int| 0 <= m < n < after.len() implies (#[trigger] after[m]).key != (
    #[trigger] after[n]).key by {
        assert(entries[m].key != entry.key);
    }
    let left = entry_map(after);
    let right = entry_map(entries).insert(entry.key, entry.buffer@);
    assert forall|k: SplitKey| left.dom().contains(k) implies #[trigger] right.dom().contains(k)
        && left[k] == right[k] by {
        let m = entry_at(after, k);
        assert(after[m].key == k);
        entry_map_at(after, m);
        if m < entries.len() {
            entry_map_at(entries, m);
            assert(entries[m].key != entry.key);
        }
    }
    assert forall|k: SplitKey| right.dom().contains(k) implies #[trigger] left.dom().contains(k) by {
        if k == entry.key {
            assert(after[entries.len() as int].key == k);
        } else {
            let m = entry_at(entries, k);
            assert(after[m].key == k);
        }
    }
    assert(left =~= right);
}

/// Drops the entries that have expired.
fn drop_expired(entries: &mut Vec<SplitEntry>, now: u64)
    requires
        entries_wf(old(entries)@),
    ensures
        entries_wf(final(entries)@),
        entry_map(final(entries)@) == unexpired(entry_map(old(entries)@), now),
{
    let mut i: usize = 0;
    while i < entries.len()
        invariant
            i <= entries.len(),
            entries_wf(entries@),
            unexpired(entry_map(entries@), now) == unexpired(entry_map(old(entries)@), now),
            forall|k: int|
                0 <= k < i ==> elapsed(now, (#[trigger] entries@[k]).buffer@.last_update)
                    < SPLIT_TIMEOUT_MS,
        decreases entries.len() - i,
    {
        if elapsed_ms(now, entries[i].buffer.last_update) < SPLIT_TIMEOUT_MS {
            i = i + 1;
        } else {
            let ghost before = entries@;
            proof {
                entry_map_remove(before, i as int);
                entry_map_at(before, i as int);
                assert(unexpired(entry_map(before).remove(before[i as int].key), now) =~= unexpired(
                    entry_map(before),
                    now,
                ));
            }
            entries.remove(i);
            assert forall|k: int| 0 <= k < i implies elapsed(
                now,
                (#[trigger] entries@[k]).buffer@.last_update,
            ) < SPLIT_TIMEOUT_MS by {
                assert(entries@[k] == before[k]);
            }
        }
    }
    proof {
        let m = entry_map(entries@);
        assert forall|k: SplitKey| m.dom().contains(k) implies elapsed(
            now,
            (#[trigger] m[k]).last_update,
        ) < SPLIT_TIMEOUT_MS by {
            let j = entry_at(entries@, k);
            assert(entries@[j].key == k);
            entry_map_at(entries@, j);
        }
        assert(unexpired(m, now) =~= m);
    }
}

/// The index of the entry with the given key.
fn find_entry(entries: &Vec<SplitEntry>, key: SplitKey) -> (index: Option<usize>)
    ensures
        match index {
            Some(i) => i < entries@.len() && entries@[i as int].key == key,
            None => !has_entry(entries@, key),
        },
{
    let mut i: usize = 0;
    while i < entries.len()
        invariant
            i <= entries.len(),
            forall|k: int| 0 <= k < i ==> (#[trigger] entries@[k]).key != key,
        decreases entries.len() - i,
    {
        if entries[i].key == key {
            return Some(i);
        }
        i = i + 1;
    }
    None
}

/// The value of an [`MtpConnection`].
pub ghost struct ConnectionView {
    pub peer_id: u16,
    pub send_seq: u16,
    /// Split packets in the making.
    pub pending: Map<SplitKey, SplitView>,
    /// Datagrams to be sent, in this order.
    pub outbox: Seq<Seq<u8>>,
    /// The last server command that was received, with the length of its payload.
    pub last_command: Option<(u16, usize)>,
    pub unknown_cmds_logged: u8,
    pub debug_packets: bool,
}

impl View for MtpConnection {
    type V = ConnectionView;

    closed spec fn view(&self) -> ConnectionView {
        ConnectionView {
            peer_id: self.peer_id,
            send_seq: self.send_seq,
            pending: entry_map(self.split_buffers@),
            outbox: self.outbox@.map_values(|p: Vec<u8>| p@),
            last_command: self.last_command,
            unknown_cmds_logged: self.unknown_cmds_logged,
            debug_packets: self.debug_packets,
        }
    }
}

/// A connection on which nothing has happened yet.
pub open spec fn fresh_connection() -> ConnectionView {
    ConnectionView {
        peer_id: PEER_ID_INEXISTENT,
        send_seq: SEQNUM_INITIAL,
        pending: Map::empty(),
        outbox: seq![],
        last_command: None,
        unknown_cmds_logged: 0,
        debug_packets: false,
    }
}

/// A byte of a datagram; behind its end the receive buffer holds zeros.
pub open spec fn byte_of(d: Seq<u8>, i: int) -> u8 {
    if i < d.len() {
        d[i]
    } else {
        0
    }
}

pub open spec fn word_of(d: Seq<u8>, i: int) -> u16 {
    (byte_of(d, i) * 256 + byte_of(d, i + 1)) as u16
}

/// What a datagram carries behind its headers.
pub enum Body {
    Control { control: u8, peer_id: u16 },
    Split { seqnum: u16, chunk_count: u16, chunk_num: u16, data: Vec<u8> },
    Original { cmd: u16, payload: Vec<u8> },
    /// A split or original packet that ends within its own header.
    Truncated,
    Unknown,
}

/// The value of a [`Body`].
pub ghost enum BodyView {
    Control { control: u8, peer_id: u16 },
    Split { seqnum: u16, chunk_count: u16, chunk_num: u16, data: Seq<u8> },
    Original { cmd: u16, payload: Seq<u8> },
    Truncated,
    Unknown,
}

impl View for Body {
    type V = BodyView;

    open spec fn view(&self) -> BodyView {
        match *self {
            Body::Control { control, peer_id } => BodyView::Control { control, peer_id },
            Body::Split { seqnum, chunk_count, chunk_num, data } => BodyView::Split {
                seqnum,
                chunk_count,
                chunk_num,
                data: data@,
            },
            Body::Original { cmd, payload } => BodyView::Original { cmd, payload: payload@ },
            Body::Truncated => BodyView::Truncated,
            Body::Unknown => BodyView::Unknown,
        }
    }
}

/// A datagram taken apart.
pub struct Frame {
    pub channel: u8,
    /// The type of the body, inside the reliable envelope if there is one.
    pub packet_type: u8,
    pub reliable_seq: Option<u16>,
    pub body: Body,
}

/// The value of a [`Frame`].
pub ghost struct FrameView {
    pub channel: u8,
    pub packet_type: u8,
    pub reliable_seq: Option<u16>,
    pub body: BodyView,
}

impl View for Frame {
    type V = FrameView;

    open spec fn view(&self) -> FrameView {
        FrameView {
            channel: self.channel,
            packet_type: self.packet_type,
            reliable_seq: self.reliable_seq,
            body: self.body@,
        }
    }
}

/// The body of type `packet_type` that starts at `at`.
pub open spec fn body_at(d: Seq<u8>, at: int, packet_type: u8) -> BodyView {
    if packet_type == PACKET_TYPE_CONTROL {
        BodyView::Control { control: byte_of(d, at), peer_id: word_of(d, at + 1) }
    } else if packet_type == PACKET_TYPE_SPLIT {
        if at + 6 > d.len() {
            BodyView::Truncated
        } else {
            BodyView::Split {
                seqnum: u16_at(d, at),
                chunk_count: u16_at(d, at + 2),
                chunk_num: u16_at(d, at + 4),
                data: d.skip(at + 6),
            }
        }
    } else if packet_type == PACKET_TYPE_ORIGINAL {
        if at + 2 > d.len() {
            BodyView::Truncated
        } else {
            BodyView::Original { cmd: u16_at(d, at), payload: d.skip(at + 2) }
        }
    } else {
        BodyView::Unknown
    }
}

/// The frame of a datagram; `None` where it is too short or not of this protocol.
pub open spec fn frame_of(d: Seq<u8>) -> Option<FrameView> {
    if d.len() < 8 || d.take(4) != be32(PROTOCOL_ID) {
        None
    } else if d[7] == PACKET_TYPE_RELIABLE {
        Some(FrameView {
            channel: d[6],
            packet_type: byte_of(d, 10),
            reliable_seq: Some(word_of(d, 8)),
            body: body_at(d, 11, byte_of(d, 10)),
        })
    } else {
        Some(FrameView {
            channel: d[6],
            packet_type: d[7],
            reliable_seq: None,
            body: body_at(d, 8, d[7]),
        })
    }
}

fn byte_or_zero(d: &[u8], i: usize) -> (b: u8)
    ensures
        b == byte_of(d@, i as int),
{
    if i < d.len() {
        d[i]
    } else {
        0
    }
}

fn word_or_zero(d: &[u8], i: usize) -> (w: u16)
    requires
        i < usize::MAX,
    ensures
        w == word_of(d@, i as int),
{
    byte_or_zero(d, i) as u16 * 256 + byte_or_zero(d, i + 1) as u16
}

fn parse_body(d: &[u8], at: usize, packet_type: u8) -> (body: Body)
    requires
        at <= 11,
    ensures
        body@ == body_at(d@, at as int, packet_type),
{
    if packet_type == PACKET_TYPE_CONTROL {
        Body::Control { control: byte_or_zero(d, at), peer_id: word_or_zero(d, at + 1) }
    } else if packet_type == PACKET_TYPE_SPLIT {
        if at + 6 > d.len() {
            return Body::Truncated;
        }
        let data: Vec<u8> = copy_range(d, at + 6, d.len());
        assert(data@ =~= d@.skip(at + 6));
        Body::Split {
            seqnum: word_or_zero(d, at),
            chunk_count: word_or_zero(d, at + 2),
            chunk_num: word_or_zero(d, at + 4),
            data,
        }
    } else if packet_type == PACKET_TYPE_ORIGINAL {
        if at + 2 > d.len() {
            return Body::Truncated;
        }
        let payload: Vec<u8> = copy_range(d, at + 2, d.len());
        assert(payload@ =~= d@.skip(at + 2));
        Body::Original { cmd: word_or_zero(d, at), payload }
    } else {
        Body::Unknown
    }
}

/// Takes a datagram apart.
pub fn parse_frame(d: &[u8]) -> (frame: Option<Frame>)
    ensures
        match frame {
            Some(f) => frame_of(d@) == Some(f@),
            None => frame_of(d@) is None,
        },
{
    if d.len() < 8 {
        return None;
    }
    let mut id: Vec<u8> = Vec::new();
    write_u32(&mut id, PROTOCOL_ID);
    assert(id@ =~= be32(PROTOCOL_ID));
    if d[0] != id[0] || d[1] != id[1] || d[2] != id[2] || d[3] != id[3] {
        assert(d@.take(4)[0] == d@[0] && d@.take(4)[1] == d@[1] && d@.take(4)[2] == d@[2]
            && d@.take(4)[3] == d@[3]);
        return None;
    }
    assert(d@.take(4) =~= be32(PROTOCOL_ID));
    let channel: u8 = d[6];
    let packet_type: u8 = d[7];
    if packet_type == PACKET_TYPE_RELIABLE {
        let inner_type: u8 = byte_or_zero(d, 10);
        Some(Frame {
            channel,
            packet_type: inner_type,
            reliable_seq: Some(word_or_zero(d, 8)),
            body: parse_body(d, 11, inner_type),
        })
    } else {
        Some(Frame { channel, packet_type, reliable_seq: None, body: parse_body(d, 8, packet_type) })
    }
}

/// The command in an assembled split packet: it may start with the type of an
/// original packet, and has at least the two bytes of the command.
pub open spec fn split_command(data: Seq<u8>) -> Option<(u16, Seq<u8>)> {
    let at = if data.len() > 0 && data[0] == PACKET_TYPE_ORIGINAL { 1int } else { 0int };
    if data.len() > 0 && at + 2 <= data.len() {
        Some((u16_at(data, at), data.skip(at + 2)))
    } else {
        None
    }
}

/// The command that a frame brings: its own, or that of the split packet which it
/// completes at `now`.
pub open spec fn frame_command(
    frame: FrameView,
    pending: Map<SplitKey, SplitView>,
    now: u64,
) -> Option<(u16, Seq<u8>)> {
    match frame.body {
        BodyView::Original { cmd, payload } => Some((cmd, payload)),
        BodyView::Split { seqnum, chunk_count, chunk_num, data } => match assembled(
            chunks_with(
                unexpired(pending, now),
                split_key(frame, seqnum),
                chunk_count,
                chunk_num,
                data,
            ),
        ) {
            Some(whole) => split_command(whole),
            None => None,
        },
        _ => None,
    }
}

pub open spec fn split_key(frame: FrameView, seqnum: u16) -> SplitKey {
    SplitKey { channel: frame.channel, reliable: frame.reliable_seq is Some, seqnum }
}

/// The pending split packets once a frame has arrived.
pub open spec fn pending_after(
    frame: FrameView,
    pending: Map<SplitKey, SplitView>,
    now: u64,
) -> Map<SplitKey, SplitView> {
    match frame.body {
        BodyView::Split { seqnum, chunk_count, chunk_num, data } => pending_with(
            pending,
            split_key(frame, seqnum),
            chunk_count,
            chunk_num,
            data,
            now,
        ),
        _ => pending,
    }
}

/// The event that a frame brings.
pub open spec fn frame_event(
    frame: FrameView,
    pending: Map<SplitKey, SplitView>,
    now: u64,
) -> Option<EventView> {
    match frame.body {
        BodyView::Control { control, peer_id } => if control == CONTROLTYPE_SET_PEER_ID {
            Some(EventView::SetPeerId(peer_id))
        } else {
            None
        },
        _ => match frame_command(frame, pending, now) {
            Some((cmd, payload)) => command_event(cmd, payload),
            None => None,
        },
    }
}

/// What a frame is acknowledged with.
pub open spec fn frame_acks(frame: FrameView, peer_id: u16) -> Seq<Seq<u8>> {
    match frame.reliable_seq {
        Some(seqnum) => seq![ack_packet(peer_id, frame.channel, seqnum)],
        None => seq![],
    }
}

/// The connection once a frame has arrived.
pub open spec fn after_frame(c: ConnectionView, frame: FrameView, now: u64) -> ConnectionView {
    ConnectionView {
        outbox: c.outbox + frame_acks(frame, c.peer_id),
        pending: pending_after(frame, c.pending, now),
        last_command: match frame_command(frame, c.pending, now) {
            Some((cmd, payload)) => Some((cmd, payload.len() as usize)),
            None => None,
        },
        ..c
    }
}

/// An original packet outside any reliable envelope that lacks its command.
pub open spec fn lacks_command(d: Seq<u8>) -> bool {
    match frame_of(d) {
        Some(frame) => frame.reliable_seq is None && frame.packet_type == PACKET_TYPE_ORIGINAL
            && frame.body is Truncated,
        None => false,
    }
}

/// What is traced of a frame that completes no split packet.
pub open spec fn frame_trace(frame: FrameView) -> TracePacket {
    let blank = TracePacket {
        channel: frame.channel,
        packet_type: frame.packet_type,
        reliable_seq: frame.reliable_seq,
        control_type: None,
        split_seq: None,
        split_chunk: None,
        split_count: None,
        cmd: None,
        payload_len: None,
    };
    match frame.body {
        BodyView::Control { control, .. } => TracePacket { control_type: Some(control), ..blank },
        BodyView::Split { seqnum, chunk_count, chunk_num, .. } => TracePacket {
            split_seq: Some(seqnum),
            split_chunk: Some(chunk_num),
            split_count: Some(chunk_count),
            ..blank
        },
        BodyView::Original { cmd, payload } => TracePacket {
            cmd: Some(cmd),
            payload_len: Some(payload.len() as usize),
            ..blank
        },
        _ => blank,
    }
}

/// What is traced of a completed split packet.
pub open spec fn split_trace(channel: u8, cmd: u16, payload_len: usize) -> TracePacket {
    TracePacket {
        channel,
        packet_type: PACKET_TYPE_ORIGINAL,
        reliable_seq: None,
        control_type: None,
        split_seq: None,
        split_chunk: None,
        split_count: None,
        cmd: Some(cmd),
        payload_len: Some(payload_len),
    }
}

/// The frame's chunk completes a split packet.
pub open spec fn completes_split(
    frame: FrameView,
    pending: Map<SplitKey, SplitView>,
    now: u64,
) -> bool {
    match frame.body {
        BodyView::Split { seqnum, chunk_count, chunk_num, data } => complete(
            chunks_with(
                unexpired(pending, now),
                split_key(frame, seqnum),
                chunk_count,
                chunk_num,
                data,
            ),
        ),
        _ => false,
    }
}

/// What is traced of a frame: a completed split packet is traced as one packet,
/// and not at all where it holds no command.
pub open spec fn traced(
    frame: FrameView,
    pending: Map<SplitKey, SplitView>,
    now: u64,
) -> Option<TracePacket> {
    if completes_split(frame, pending, now) {
        match frame_command(frame, pending, now) {
            Some((cmd, payload)) => Some(
                split_trace(frame.channel, cmd, payload.len() as usize),
            ),
            None => None,
        }
    } else {
        Some(frame_trace(frame))
    }
}

/// Splits an assembled packet into its command and payload.
fn take_split_command(data: &[u8]) -> (command: Option<(u16, Vec<u8>)>)
    ensures
        match command {
            Some((cmd, payload)) => split_command(data@) == Some((cmd, payload@)),
            None => split_command(data@) is None,
        },
{
    if data.len() == 0 {
        return None;
    }
    let mut offset: usize = 0;
    if data[0] == PACKET_TYPE_ORIGINAL {
        offset = 1;
    }
    let ghost at = offset as int;
    let cmd: u16 = read_u16(data, &mut offset).ok()?;
    let payload: Vec<u8> = copy_range(data, offset, data.len());
    assert(payload@ =~= data@.skip(at + 2));
    Some((cmd, payload))
}

fn trace_frame(frame: &Frame) -> (trace: TracePacket)
    ensures
        trace == frame_trace(frame@),
{
    let mut trace = TracePacket {
        channel: frame.channel,
        packet_type: frame.packet_type,
        reliable_seq: frame.reliable_seq,
        control_type: None,
        split_seq: None,
        split_chunk: None,
        split_count: None,
        cmd: None,
        payload_len: None,
    };
    match &frame.body {
        Body::Control { control, .. } => {
            trace.control_type = Some(*control);
        },
        Body::Split { seqnum, chunk_count, chunk_num, .. } => {
            trace.split_seq = Some(*seqnum);
            trace.split_chunk = Some(*chunk_num);
            trace.split_count = Some(*chunk_count);
        },
        Body::Original { cmd, payload } => {
            trace.cmd = Some(*cmd);
            trace.payload_len = Some(payload.len());
        },
        _ => {},
    }
    trace
}

impl MtpConnection {
    /// No split packet is held twice, and each counts its chunks rightly.
    pub closed spec fn wf(&self) -> bool {
        entries_wf(self.split_buffers@)
    }

    pub fn new() -> (c: Self)
        ensures
            c.wf(),
            c@ == fresh_connection(),
    {
        let c = MtpConnection {
            peer_id: PEER_ID_INEXISTENT,
            send_seq: SEQNUM_INITIAL,
            split_buffers: Vec::new(),
            outbox: Vec::new(),
            last_command: None,
            unknown_cmds_logged: 0,
            debug_packets: false,
        };
        assert(c@.pending =~= Map::empty());
        assert(c@.outbox =~= seq![]);
        c
    }

    pub fn peer_id(&self) -> (id: u16)
        ensures
            id == self@.peer_id,
    {
        self.peer_id
    }

    /// Takes on the peer id that the server has assigned.
    pub fn set_peer_id(&mut self, peer_id: u16)
        requires
            old(self).wf(),
        ensures
            final(self).wf(),
            final(self)@ == (ConnectionView { peer_id, ..old(self)@ }),
    {
        self.peer_id = peer_id;
    }

    pub fn set_debug_packets(&mut self, enabled: bool)
        requires
            old(self).wf(),
        ensures
            final(self).wf(),
            final(self)@ == (ConnectionView { debug_packets: enabled, ..old(self)@ }),
    {
        self.debug_packets = enabled;
    }

    /// The last server command that was received, with the length of its payload.
    pub fn last_command(&self) -> (command: Option<(u16, usize)>)
        ensures
            command == self@.last_command,
    {
        self.last_command
    }

    /// Whether a received command is to be logged: never without debugging, always
    /// for definitions and media, and at most five times for the others.
    pub fn log_cmd(&mut self, cmd: u16) -> (log: bool)
        requires
            old(self).wf(),
        ensures
            final(self).wf(),
            ({
                let always = cmd == TOCLIENT_NODEDEF || cmd == TOCLIENT_ITEMDEF || cmd
                    == TOCLIENT_ANNOUNCE_MEDIA;
                let counted = old(self)@.debug_packets && !always
                    && old(self)@.unknown_cmds_logged < 5;
                &&& log == (old(self)@.debug_packets && (always || counted))
                &&& final(self)@ == (ConnectionView {
                    unknown_cmds_logged: if counted {
                        (old(self)@.unknown_cmds_logged + 1) as u8
                    } else {
                        old(self)@.unknown_cmds_logged
                    },
                    ..old(self)@
                })
            }),
    {
        if !self.debug_packets {
            return false;
        }
        if cmd == TOCLIENT_NODEDEF || cmd == TOCLIENT_ITEMDEF || cmd == TOCLIENT_ANNOUNCE_MEDIA {
            return true;
        }
        if self.unknown_cmds_logged < 5 {
            self.unknown_cmds_logged = self.unknown_cmds_logged + 1;
            true
        } else {
            false
        }
    }

    /// Hands out the datagrams to be sent.
    pub fn take_outbox(&mut self) -> (packets: Vec<Vec<u8>>)
        requires
            old(self).wf(),
        ensures
            final(self).wf(),
            packets@.map_values(|p: Vec<u8>| p@) == old(self)@.outbox,
            final(self)@ == (ConnectionView { outbox: seq![], ..old(self)@ }),
    {
        let mut packets: Vec<Vec<u8>> = Vec::new();
        packets.append(&mut self.outbox);
        assert(packets@ =~= old(self).outbox@);
        assert(self@.outbox =~= seq![]);
        packets
    }

    fn push_packet(&mut self, packet: Vec<u8>)
        requires
            old(self).wf(),
        ensures
            final(self).wf(),
            final(self)@ == (ConnectionView {
                outbox: old(self)@.outbox.push(packet@),
                ..old(self)@
            }),
    {
        self.outbox.push(packet);
        assert(self@.outbox =~= old(self)@.outbox.push(packet@));
    }

    /// Sends a client command in a reliable packet and advances the outgoing sequence.
    pub fn send_reliable(&mut self, payload: Vec<u8>)
        requires
            old(self).wf(),
        ensures
            final(self).wf(),
            final(self)@ == sent_reliably(old(self)@, payload@),
    {
        let packet: Vec<u8> = build_reliable_packet(self.peer_id, &mut self.send_seq, payload);
        self.push_packet(packet);
    }

    pub fn send_unreliable(&mut self, payload: Vec<u8>)
        requires
            old(self).wf(),
        ensures
            final(self).wf(),
            final(self)@ == sent_unreliably(old(self)@, payload@),
    {
        let packet: Vec<u8> = build_unreliable_packet(self.peer_id, payload);
        self.push_packet(packet);
    }

    /// Sends an empty command, so that the server assigns a peer id.
    pub fn send_dummy_reliable(&mut self)
        requires
            old(self).wf(),
        ensures
            final(self).wf(),
            final(self)@ == sent_reliably(old(self)@, seq![]),
    {
        let empty: Vec<u8> = Vec::new();
        assert(empty@ =~= seq![]);
        self.send_reliable(empty)
    }

    pub fn send_control_ping(&mut self)
        requires
            old(self).wf(),
        ensures
            final(self).wf(),
            final(self)@ == (ConnectionView {
                outbox: old(self)@.outbox.push(
                    control_packet(old(self)@.peer_id, CONTROLTYPE_PING),
                ),
                ..old(self)@
            }),
    {
        let mut buf: Vec<u8> = start_packet(self.peer_id, CHANNEL_DEFAULT, PACKET_TYPE_CONTROL);
        buf.push(CONTROLTYPE_PING);
        assert(buf@ =~= control_packet(self@.peer_id, CONTROLTYPE_PING));
        self.push_packet(buf);
    }

    pub fn send_control_disco(&mut self)
        requires
            old(self).wf(),
        ensures
            final(self).wf(),
            final(self)@ == (ConnectionView {
                outbox: old(self)@.outbox.push(
                    control_packet(old(self)@.peer_id, CONTROLTYPE_DISCO),
                ),
                ..old(self)@
            }),
    {
        let mut buf: Vec<u8> = start_packet(self.peer_id, CHANNEL_DEFAULT, PACKET_TYPE_CONTROL);
        buf.push(CONTROLTYPE_DISCO);
        assert(buf@ =~= control_packet(self@.peer_id, CONTROLTYPE_DISCO));
        self.push_packet(buf);
    }

    fn send_ack(&mut self, channel: u8, seqnum: u16)
        requires
            old(self).wf(),
        ensures
            final(self).wf(),
            final(self)@ == (ConnectionView {
                outbox: old(self)@.outbox.push(ack_packet(old(self)@.peer_id, channel, seqnum)),
                ..old(self)@
            }),
    {
        let mut buf: Vec<u8> = start_packet(self.peer_id, channel, PACKET_TYPE_CONTROL);
        buf.push(CONTROLTYPE_ACK);
        write_u16(&mut buf, seqnum);
        assert(buf@ =~= ack_packet(self@.peer_id, channel, seqnum));
        self.push_packet(buf);
    }

    /// Takes one chunk of a split packet; gives the packet once it is complete.
    pub fn handle_split(
        &mut self,
        key: SplitKey,
        chunk_count: u16,
        chunk_num: u16,
        data: Vec<u8>,
        now: u64,
    ) -> (whole: Option<Vec<u8>>)
        requires
            old(self).wf(),
        ensures
            final(self).wf(),
            final(self)@ == (ConnectionView {
                pending: pending_with(old(self)@.pending, key, chunk_count, chunk_num, data@, now),
                ..old(self)@
            }),
            chunk_view(whole) == assembled(
                chunks_with(
                    unexpired(old(self)@.pending, now),
                    key,
                    chunk_count,
                    chunk_num,
                    data@,
                ),
            ),
    {
        drop_expired(&mut self.split_buffers, now);
        let ghost live = entry_map(self.split_buffers@);
        let ghost chunks = chunks_with(live, key, chunk_count, chunk_num, data@);
        let index: usize = match find_entry(&self.split_buffers, key) {
            Some(i) => i,
            None => {
                let entry = SplitEntry { key, buffer: SplitBuffer::new(chunk_count, now) };
                proof {
                    entry_map_push(self.split_buffers@, entry);
                }
                self.split_buffers.push(entry);
                self.split_buffers.len() - 1
            },
        };
        let ghost held = self.split_buffers@;
        proof {
            entry_map_at(held, index as int);
        }
        let mut buffer = SplitBuffer::new(chunk_count, now);
        core::mem::swap(&mut buffer, &mut self.split_buffers[index].buffer);
        if buffer.chunks.len() != chunk_count as usize {
            buffer = SplitBuffer::new(chunk_count, now);
        }
        buffer.last_update = now;
        buffer.insert(chunk_num, data);
        assert(buffer@ == (SplitView { chunks, last_update: now }));
        if buffer.is_complete() {
            let out: Vec<u8> = buffer.assemble();
            let removed = self.split_buffers.remove(index);
            proof {
                entry_map_remove(held, index as int);
                assert(self.split_buffers@ =~= held.remove(index as int));
                assert(self@.pending =~= live.remove(key));
            }
            return Some(out);
        }
        core::mem::swap(&mut buffer, &mut self.split_buffers[index].buffer);
        proof {
            let entry = self.split_buffers@[index as int];
            entry_map_set(held, index as int, entry);
            assert(self.split_buffers@ =~= held.update(index as int, entry));
            assert(self@.pending =~= live.insert(key, SplitView { chunks, last_update: now }));
        }
        None
    }
}

impl MtpConnection {
    /// Acknowledges a frame and takes the command that it brings, its own or that
    /// of the split packet that it completes.
    fn take_frame(&mut self, frame: Frame, now: u64) -> (taken: (Option<(u16, Vec<u8>)>, bool))
        requires
            old(self).wf(),
        ensures
            final(self).wf(),
            final(self)@ == after_frame(old(self)@, frame@, now),
            match taken.0 {
                Some((cmd, payload)) => frame_command(frame@, old(self)@.pending, now) == Some(
                    (cmd, payload@),
                ),
                None => frame_command(frame@, old(self)@.pending, now) is None,
            },
            taken.1 == completes_split(frame@, old(self)@.pending, now),
    {
        if let Some(seqnum) = frame.reliable_seq {
            self.send_ack(frame.channel, seqnum);
        }
        assert(self@.outbox =~= old(self)@.outbox + frame_acks(frame@, old(self)@.peer_id));
        let mut completed = false;
        let command: Option<(u16, Vec<u8>)> = match frame.body {
            Body::Original { cmd, payload } => Some((cmd, payload)),
            Body::Split { seqnum, chunk_count, chunk_num, data } => {
                let key = SplitKey {
                    channel: frame.channel,
                    reliable: frame.reliable_seq.is_some(),
                    seqnum,
                };
                match self.handle_split(key, chunk_count, chunk_num, data, now) {
                    Some(whole) => {
                        completed = true;
                        take_split_command(whole.as_slice())
                    },
                    None => None,
                }
            },
            _ => None,
        };
        self.last_command = match &command {
            Some((cmd, payload)) => Some((*cmd, payload.len())),
            None => None,
        };
        (command, completed)
    }

    /// Takes a datagram that arrived at `now` (in milliseconds).
    pub fn recv_packet(&mut self, datagram: &[u8], now: u64) -> (event: Option<MtpEvent>)
        requires
            old(self).wf(),
            !lacks_command(datagram@),
        ensures
            final(self).wf(),
            match frame_of(datagram@) {
                Some(frame) => final(self)@ == after_frame(old(self)@, frame, now) && event_view(
                    event,
                ) == frame_event(frame, old(self)@.pending, now),
                None => final(self)@ == old(self)@ && event is None,
            },
    {
        let frame = parse_frame(datagram)?;
        if let Body::Control { control, peer_id } = frame.body {
            self.take_frame(frame, now);
            return if control == CONTROLTYPE_SET_PEER_ID {
                Some(MtpEvent::SetPeerId(peer_id))
            } else {
                None
            };
        }
        let (command, _) = self.take_frame(frame, now);
        let (cmd, payload) = command?;
        parse_to_client(cmd, payload.as_slice())
    }

    /// Takes a datagram that arrived at `now`, and says what was seen of it.
    pub fn recv_packet_trace(&mut self, datagram: &[u8], now: u64) -> (seen: Option<
        (TracePacket, Option<MtpEvent>),
    >)
        requires
            old(self).wf(),
        ensures
            final(self).wf(),
            match frame_of(datagram@) {
                Some(frame) => final(self)@ == after_frame(old(self)@, frame, now) && match seen {
                    Some((trace, event)) => traced(frame, old(self)@.pending, now) == Some(trace)
                        && event_view(event) == frame_event(frame, old(self)@.pending, now),
                    None => traced(frame, old(self)@.pending, now) is None,
                },
                None => final(self)@ == old(self)@ && seen is None,
            },
    {
        let frame = parse_frame(datagram)?;
        let trace = trace_frame(&frame);
        let channel: u8 = frame.channel;
        if let Body::Control { control, peer_id } = frame.body {
            self.take_frame(frame, now);
            let event = if control == CONTROLTYPE_SET_PEER_ID {
                Some(MtpEvent::SetPeerId(peer_id))
            } else {
                None
            };
            return Some((trace, event));
        }
        let (command, completed) = self.take_frame(frame, now);
        match command {
            Some((cmd, payload)) => {
                let event = parse_to_client(cmd, payload.as_slice());
                if completed {
                    let split = TracePacket {
                        channel,
                        packet_type: PACKET_TYPE_ORIGINAL,
                        reliable_seq: None,
                        control_type: None,
                        split_seq: None,
                        split_chunk: None,
                        split_count: None,
                        cmd: Some(cmd),
                        payload_len: Some(payload.len()),
                    };
                    Some((split, event))
                } else {
                    Some((trace, event))
                }
            },
            None => if completed {
                None
            } else {
                Some((trace, None))
            },
        }
    }
}

/// The connection once `payload` has been sent in a reliable packet.
pub open spec fn sent_reliably(c: ConnectionView, payload: Seq<u8>) -> ConnectionView {
    ConnectionView {
        outbox: c.outbox.push(reliable_packet(c.peer_id, c.send_seq, payload)),
        send_seq: next_seqnum(c.send_seq),
        ..c
    }
}

/// The connection once `payload` has been sent in an unreliable packet.
pub open spec fn sent_unreliably(c: ConnectionView, payload: Seq<u8>) -> ConnectionView {
    ConnectionView { outbox: c.outbox.push(unreliable_packet(c.peer_id, payload)), ..c }
}

/// The datagram that asks whether a server is there.
pub fn ping_packet() -> (packet: Vec<u8>)
    ensures
        packet@ == packet_header(PEER_ID_INEXISTENT, CHANNEL_DEFAULT, PACKET_TYPE_ORIGINAL),
{
    start_packet(PEER_ID_INEXISTENT, CHANNEL_DEFAULT, PACKET_TYPE_ORIGINAL)
}

/// The peer id in a server's answer; `None` where the answer is too short.
pub fn ping_peer_id(response: &[u8]) -> (peer_id: Option<u16>)
    ensures
        peer_id == (if response@.len() < 14 {
            None
        } else {
            Some(u16_at(response@, 12))
        }),
{
    if response.len() < 14 {
        None
    } else {
        Some(response[12] as u16 * 256 + response[13] as u16)
    }
}

/// The sequence number after `count` reliable packets.
pub open spec fn seqnum_after(seqnum: u16, count: nat) -> u16
    decreases count,
{
    if count == 0 {
        seqnum
    } else {
        next_seqnum(seqnum_after(seqnum, (count - 1) as nat))
    }
}

/// Reliable packets are numbered consecutively, and the numbers wrap around at the
/// end of their range.
pub proof fn reliable_sequence_wraps(seqnum: u16, count: nat)
    ensures
        seqnum_after(seqnum, count) == (seqnum + count) % 0x1_0000,
    decreases count,
{
    if count > 0 {
        reliable_sequence_wraps(seqnum, (count - 1) as nat);
    }
}

/// Taking apart what was framed gives back what was put in: the channel, the
/// sequence number in the reliable envelope, the command and its payload.
pub proof fn framed_command_comes_back(peer_id: u16, seqnum: u16, cmd: u16, payload: Seq<u8>)
    ensures
        frame_of(reliable_packet(peer_id, seqnum, be16(cmd) + payload)) == Some(
            FrameView {
                channel: CHANNEL_DEFAULT,
                packet_type: PACKET_TYPE_ORIGINAL,
                reliable_seq: Some(seqnum),
                body: BodyView::Original { cmd, payload },
            },
        ),
        frame_of(unreliable_packet(peer_id, be16(cmd) + payload)) == Some(
            FrameView {
                channel: CHANNEL_DEFAULT,
                packet_type: PACKET_TYPE_ORIGINAL,
                reliable_seq: None,
                body: BodyView::Original { cmd, payload },
            },
        ),
{
    let r = reliable_packet(peer_id, seqnum, be16(cmd) + payload);
    assert(r.take(4) =~= be32(PROTOCOL_ID));
    assert(r.skip(13) =~= payload);
    let u = unreliable_packet(peer_id, be16(cmd) + payload);
    assert(u.take(4) =~= be32(PROTOCOL_ID));
    assert(u.skip(10) =~= payload);
}

/// Every datagram with a reliable envelope is acknowledged, on its channel and
/// with its sequence number, and no other is.
pub proof fn reliable_frames_are_acknowledged(c: ConnectionView, d: Seq<u8>, now: u64)
    requires
        frame_of(d) is Some,
    ensures
        after_frame(c, frame_of(d)->0, now).outbox == (if d[7] == PACKET_TYPE_RELIABLE {
            c.outbox.push(ack_packet(c.peer_id, d[6], word_of(d, 8)))
        } else {
            c.outbox
        }),
{
    let frame = frame_of(d)->0;
    if d[7] == PACKET_TYPE_RELIABLE {
        assert(c.outbox + frame_acks(frame, c.peer_id) =~= c.outbox.push(
            ack_packet(c.peer_id, d[6], word_of(d, 8)),
        ));
    } else {
        assert(c.outbox + frame_acks(frame, c.peer_id) =~= c.outbox);
    }
}

/// A chunk of a split packet in a datagram: behind the protocol's number, the peer and
/// the channel, in a reliable envelope or not, its type, the number of the packet, the
/// count of its chunks, the number of the chunk, and the chunk.
pub open spec fn split_datagram(
    peer_id: u16,
    channel: u8,
    envelope: Option<u16>,
    seqnum: u16,
    count: u16,
    num: u16,
    data: Seq<u8>,
) -> Seq<u8> {
    be32(PROTOCOL_ID) + be16(peer_id) + seq![channel] + (match envelope {
        Some(n) => seq![3u8] + be16(n),
        None => Seq::<u8>::empty(),
    }) + (seq![2u8] + be16(seqnum) + be16(count) + be16(num)) + data
}

/// A chunk that was framed comes back as it was put in.
#[verifier::rlimit(50)]
pub proof fn framed_chunk_comes_back(
    peer_id: u16,
    channel: u8,
    envelope: Option<u16>,
    seqnum: u16,
    count: u16,
    num: u16,
    data: Seq<u8>,
)
    ensures
        frame_of(split_datagram(peer_id, channel, envelope, seqnum, count, num, data)) == Some(
            FrameView {
                channel,
                packet_type: 2,
                reliable_seq: envelope,
                body: BodyView::Split { seqnum, chunk_count: count, chunk_num: num, data },
            },
        ),
{
    let d = split_datagram(peer_id, channel, envelope, seqnum, count, num, data);
    assert(d.take(4) =~= be32(PROTOCOL_ID));
    match envelope {
        Some(_) => {
            assert(d.skip(17) =~= data);
        },
        None => {
            assert(d.skip(14) =~= data);
        },
    }
}

/// The connection once datagrams have arrived, each at its time.
pub open spec fn after_datagrams(c: ConnectionView, received: Seq<(Seq<u8>, u64)>) -> ConnectionView
    decreases received.len(),
{
    if received.len() == 0 {
        c
    } else {
        let before = after_datagrams(c, received.drop_last());
        match frame_of(received.last().0) {
            Some(frame) => after_frame(before, frame, received.last().1),
            None => before,
        }
    }
}

/// The chunks of one packet on their way: `nums` are the numbers of the chunks in the
/// order of their arrival, `times` when they arrive, and `envelopes` the numbers of
/// the reliable envelopes that they arrive in, if they do.
pub ghost struct Delivery {
    pub peer_id: u16,
    pub channel: u8,
    pub reliable: bool,
    pub seqnum: u16,
    pub parts: Seq<Seq<u8>>,
    pub nums: Seq<u16>,
    pub times: Seq<u64>,
    pub envelopes: Seq<u16>,
}

impl Delivery {
    /// Every chunk arrives, the last one to arrive arrives once, and no two arrivals
    /// are ten seconds apart.
    pub open spec fn arrives(self) -> bool {
        let n = self.nums.len() as int;
        &&& 0 < self.parts.len() <= 0xffff
        &&& 0 < n
        &&& self.times.len() == n
        &&& self.envelopes.len() == n
        &&& forall|j: int| 0 <= j < n ==> (#[trigger] self.nums[j]) < self.parts.len()
        &&& forall|k: u16| k < self.parts.len() ==> #[trigger] self.nums.contains(k)
        &&& forall|j: int| 0 <= j < n - 1 ==> #[trigger] self.nums[j] != self.nums[n - 1]
        &&& forall|j: int|
            0 < j < n ==> self.times[j - 1] <= (#[trigger] self.times[j]) < self.times[j - 1]
                + 10_000
    }

    /// The datagrams of the chunks, with their times.
    pub open spec fn datagrams(self) -> Seq<(Seq<u8>, u64)> {
        Seq::new(self.nums.len(), |j: int| (self.datagram(j), self.times[j]))
    }

    pub open spec fn datagram(self, j: int) -> Seq<u8> {
        split_datagram(
            self.peer_id,
            self.channel,
            if self.reliable {
                Some(self.envelopes[j])
            } else {
                None
            },
            self.seqnum,
            self.parts.len() as u16,
            self.nums[j],
            self.parts[self.nums[j] as int],
        )
    }

    pub open spec fn key(self) -> SplitKey {
        SplitKey { channel: self.channel, reliable: self.reliable, seqnum: self.seqnum }
    }

    spec fn arrivals(self) -> Seq<(u16, Seq<u8>)> {
        Seq::new(self.nums.len(), |j: int| (self.nums[j], self.parts[self.nums[j] as int]))
    }
}

#[verifier::rlimit(50)]
proof fn chunks_so_far(c: ConnectionView, v: Delivery, k: int)
    requires
        v.arrives(),
        !c.pending.dom().contains(v.key()),
        0 <= k < v.nums.len(),
    ensures
        ({
            let pending = after_datagrams(c, v.datagrams().take(k)).pending;
            let chunks = after_arrivals(v.parts.len(), v.arrivals().take(k));
            &&& chunks.len() == v.parts.len()
            &&& !complete(chunks)
            &&& pending.dom().contains(v.key()) == (k > 0)
            &&& k > 0 ==> pending[v.key()] == (SplitView {
                chunks,
                last_update: v.times[k - 1],
            })
        }),
    decreases k,
{
    let arrived = v.arrivals().take(k);
    let chunks = after_arrivals(v.parts.len(), arrived);
    split_packet_reassembles(v.parts, arrived);
    after_arrivals_len(v.parts.len(), arrived);
    let last = v.nums[v.nums.len() - 1];
    assert(!has_arrived(arrived, last as int)) by {
        if has_arrived(arrived, last as int) {
            let j = choose|j: int| 0 <= j < arrived.len() && (#[trigger] arrived[j]).0 == last;
            assert(v.nums[j] == last);
        }
    }
    if k > 0 {
        chunks_so_far(c, v, k - 1);
        let before = after_datagrams(c, v.datagrams().take(k - 1));
        assert(v.datagrams().take(k).drop_last() =~= v.datagrams().take(k - 1));
        assert(arrived.drop_last() =~= v.arrivals().take(k - 1));
        let envelope = if v.reliable {
            Some(v.envelopes[k - 1])
        } else {
            None
        };
        framed_chunk_comes_back(
            v.peer_id,
            v.channel,
            envelope,
            v.seqnum,
            v.parts.len() as u16,
            v.nums[k - 1],
            v.parts[v.nums[k - 1] as int],
        );
        if k > 1 {
            assert(v.times[k - 1] < v.times[k - 2] + 10_000);
        }
        let live = unexpired(before.pending, v.times[k - 1]);
        assert(live.dom().contains(v.key()) == (k > 1));
    }
}

proof fn command_behind_its_type(data: Seq<u8>, cmd: u16, payload: Seq<u8>)
    requires
        data == seq![1u8] + be16(cmd) + payload,
    ensures
        split_command(data) == Some((cmd, payload)),
{
    assert(data[0] == 1 && data[1] == (cmd / 256) as u8 && data[2] == (cmd % 256) as u8);
    assert(data.skip(3) =~= payload);
}

#[verifier::rlimit(50)]
proof fn last_chunk_completes(c: ConnectionView, v: Delivery)
    requires
        v.arrives(),
        !c.pending.dom().contains(v.key()),
    ensures
        ({
            let n = v.nums.len() as int;
            let before = after_datagrams(c, v.datagrams().drop_last());
            let chunks = chunks_with(
                unexpired(before.pending, v.times[n - 1]),
                v.key(),
                v.parts.len() as u16,
                v.nums[n - 1],
                v.parts[v.nums[n - 1] as int],
            );
            complete(chunks) && joined(chunks) == v.parts.flatten()
        }),
{
    let n = v.nums.len() as int;
    let before = after_datagrams(c, v.datagrams().take(n - 1));
    assert(v.datagrams().drop_last() =~= v.datagrams().take(n - 1));
    chunks_so_far(c, v, n - 1);
    let now = v.times[n - 1];
    if n > 1 {
        assert(now < v.times[n - 2] + 10_000);
    }
    let live = unexpired(before.pending, now);
    assert(live.dom().contains(v.key()) == (n > 1));
    assert(v.arrivals().drop_last() =~= v.arrivals().take(n - 1));
    if n == 1 {
        assert(v.arrivals().take(0) =~= Seq::<(u16, Seq<u8>)>::empty());
    }
    split_packet_reassembles(v.parts, v.arrivals());
    assert forall|k: int| 0 <= k < v.parts.len() implies #[trigger] has_arrived(v.arrivals(), k) by {
        assert(v.nums.contains(k as u16));
        let j = v.nums.index_of(k as u16);
        assert(v.arrivals()[j].0 == k);
    }
}

/// A command comes back out of a split packet: however its packet, with the type that
/// packets start with, was cut into chunks, and in whatever order they arrive, in
/// reliable envelopes or not, the chunk that completes it brings the command and its
/// payload. Nothing of it is kept then.
#[verifier::rlimit(50)]
pub proof fn split_command_comes_back(c: ConnectionView, v: Delivery, cmd: u16, payload: Seq<u8>)
    requires
        v.arrives(),
        v.parts.flatten() == seq![1u8] + be16(cmd) + payload,
        !c.pending.dom().contains(v.key()),
    ensures
        ({
            let n = v.nums.len() as int;
            let before = after_datagrams(c, v.datagrams().drop_last());
            let frame = frame_of(v.datagram(n - 1))->0;
            let now = v.times[n - 1];
            &&& frame_of(v.datagram(n - 1)) is Some
            &&& frame.body is Split
            &&& frame_command(frame, before.pending, now) == Some((cmd, payload))
            &&& !pending_after(frame, before.pending, now).dom().contains(v.key())
        }),
{
    let n = v.nums.len() as int;
    let envelope = if v.reliable {
        Some(v.envelopes[n - 1])
    } else {
        None
    };
    framed_chunk_comes_back(
        v.peer_id,
        v.channel,
        envelope,
        v.seqnum,
        v.parts.len() as u16,
        v.nums[n - 1],
        v.parts[v.nums[n - 1] as int],
    );
    last_chunk_completes(c, v);
    command_behind_its_type(v.parts.flatten(), cmd, payload);
}

/// The command of a split packet brings the event that the command of a packet in one
/// piece brings, and is noted as the last one with the length of its payload.
pub proof fn split_and_whole_commands_agree(
    c: ConnectionView,
    v: Delivery,
    cmd: u16,
    payload: Seq<u8>,
    seqnum: u16,
)
    requires
        v.arrives(),
        v.parts.flatten() == seq![1u8] + be16(cmd) + payload,
        !c.pending.dom().contains(v.key()),
    ensures
        ({
            let n = v.nums.len() as int;
            let before = after_datagrams(c, v.datagrams().drop_last());
            let frame = frame_of(v.datagram(n - 1))->0;
            let now = v.times[n - 1];
            let whole = frame_of(reliable_packet(v.peer_id, seqnum, be16(cmd) + payload))->0;
            &&& frame_event(frame, before.pending, now) == frame_event(whole, before.pending, now)
            &&& after_frame(before, frame, now).last_command == Some(
                (cmd, payload.len() as usize),
            )
        }),
{
    split_command_comes_back(c, v, cmd, payload);
    framed_command_comes_back(v.peer_id, seqnum, cmd, payload);
}

/// Chunks are forgotten when ten seconds pass without another one: what arrives then
/// starts the packet anew.
pub proof fn late_chunks_start_anew(
    c: ConnectionView,
    frame: FrameView,
    seqnum: u16,
    count: u16,
    num: u16,
    data: Seq<u8>,
    now: u64,
)
    requires
        frame.body == (BodyView::Split { seqnum, chunk_count: count, chunk_num: num, data }),
        c.pending.dom().contains(split_key(frame, seqnum)),
        now >= c.pending[split_key(frame, seqnum)].last_update + 10_000,
    ensures
        ({
            let without = ConnectionView {
                pending: c.pending.remove(split_key(frame, seqnum)),
                ..c
            };
            &&& after_frame(c, frame, now).pending == after_frame(without, frame, now).pending
            &&& frame_event(frame, c.pending, now) == frame_event(frame, without.pending, now)
        }),
{
    let key = split_key(frame, seqnum);
    assert(unexpired(c.pending, now) =~= unexpired(c.pending.remove(key), now));
}

/// The server assigns a peer number with a control packet, in a reliable envelope or
/// not.
pub proof fn assigned_peer_number_comes_back(
    from: u16,
    channel: u8,
    envelope: u16,
    peer_id: u16,
    pending: Map<SplitKey, SplitView>,
    now: u64,
)
    ensures
        ({
            let head = be32(PROTOCOL_ID) + be16(from) + seq![channel];
            let control = seq![0u8, 1u8] + be16(peer_id);
            let plain = frame_of(head + control);
            let reliable = frame_of(head + (seq![3u8] + be16(envelope) + control));
            &&& plain is Some && frame_event(plain->0, pending, now) == Some(
                EventView::SetPeerId(peer_id),
            )
            &&& reliable is Some && frame_event(reliable->0, pending, now) == Some(
                EventView::SetPeerId(peer_id),
            )
        }),
{
    let head = be32(PROTOCOL_ID) + be16(from) + seq![channel];
    let control = seq![0u8, 1u8] + be16(peer_id);
    assert((head + control).take(4) =~= be32(PROTOCOL_ID));
    assert((head + (seq![3u8] + be16(envelope) + control)).take(4) =~= be32(PROTOCOL_ID));
}

/// What is sent stands behind everything sent before: the protocol's number, the peer's
/// number, the channel, and the type; a reliable packet then counts on from the one
/// before it and is marked as an original. Nothing else of the connection changes.
#[verifier::rlimit(50)]
pub proof fn packets_are_sent_in_order(c: ConnectionView, payload: Seq<u8>)
    ensures
        ({
            let after = sent_reliably(c, payload);
            let n = c.outbox.len() as int;
            &&& after.outbox.len() == n + 1
            &&& after.outbox.take(n) == c.outbox
            &&& after.outbox[n] == seq![0x4fu8, 0x45, 0x74, 0x03] + be16(c.peer_id) + seq![0u8, 3u8]
                + be16(c.send_seq) + seq![1u8] + payload
            &&& after.send_seq == (c.send_seq + 1) % 0x1_0000
            &&& after.peer_id == c.peer_id && after.pending == c.pending && after.last_command
                == c.last_command
        }),
        ({
            let after = sent_unreliably(c, payload);
            let n = c.outbox.len() as int;
            &&& after.outbox.len() == n + 1
            &&& after.outbox.take(n) == c.outbox
            &&& after.outbox[n] == seq![0x4fu8, 0x45, 0x74, 0x03] + be16(c.peer_id) + seq![0u8, 1u8]
                + payload
            &&& after.send_seq == c.send_seq && after.peer_id == c.peer_id && after.pending
                == c.pending
        }),
        fresh_connection().peer_id == 0 && fresh_connection().send_seq == 65500
            && fresh_connection().outbox.len() == 0 && fresh_connection().pending.dom()
            =~= Set::empty(),
{
    let n = c.outbox.len() as int;
    assert(sent_reliably(c, payload).outbox.take(n) =~= c.outbox);
    assert(sent_unreliably(c, payload).outbox.take(n) =~= c.outbox);
    assert(be32(PROTOCOL_ID) =~= seq![0x4fu8, 0x45, 0x74, 0x03]);
    assert(reliable_packet(c.peer_id, c.send_seq, payload) =~= seq![0x4fu8, 0x45, 0x74, 0x03]
        + be16(c.peer_id) + seq![0u8, 3u8] + be16(c.send_seq) + seq![1u8] + payload);
    assert(unreliable_packet(c.peer_id, payload) =~= seq![0x4fu8, 0x45, 0x74, 0x03] + be16(
        c.peer_id,
    ) + seq![0u8, 1u8] + payload);
}

/// An acknowledgement names the channel and the number of the packet that it is for, and
/// pings and farewells are control packets.
pub proof fn control_packets_are_laid_out(peer_id: u16, channel: u8, seqnum: u16, control: u8)
    ensures
        ack_packet(peer_id, channel, seqnum) == seq![0x4fu8, 0x45, 0x74, 0x03] + be16(peer_id)
            + seq![channel, 0u8, 0u8] + be16(seqnum),
        control_packet(peer_id, control) == seq![0x4fu8, 0x45, 0x74, 0x03] + be16(peer_id)
            + seq![0u8, 0u8, control],
{
    assert(be32(PROTOCOL_ID) =~= seq![0x4fu8, 0x45, 0x74, 0x03]);
    assert(ack_packet(peer_id, channel, seqnum) =~= seq![0x4fu8, 0x45, 0x74, 0x03] + be16(peer_id)
        + seq![channel, 0u8, 0u8] + be16(seqnum));
    assert(control_packet(peer_id, control) =~= seq![0x4fu8, 0x45, 0x74, 0x03] + be16(peer_id)
        + seq![0u8, 0u8, control]);
}

/// A datagram of another protocol, or one that ends within its header, is no frame.
pub proof fn foreign_datagrams_are_no_frames(d: Seq<u8>)
    requires
        d.len() < 8 || d.take(4) != seq![0x4fu8, 0x45, 0x74, 0x03],
    ensures
        frame_of(d) is None,
{
    assert(be32(PROTOCOL_ID) =~= seq![0x4fu8, 0x45, 0x74, 0x03]);
}

/// A datagram is traced with what its header says, and with the one thing that its body is: a
/// control number, a chunk's numbers, or a command with the length of its payload. A chunk
/// that completes a packet is traced as the command that it brings.
pub proof fn datagrams_are_traced(
    frame: FrameView,
    pending: Map<SplitKey, SplitView>,
    now: u64,
    cmd: u16,
    payload: Seq<u8>,
)
    requires
        payload.len() <= usize::MAX,
    ensures
        ({
            let t = frame_trace(frame);
            &&& t.channel == frame.channel && t.packet_type == frame.packet_type && t.reliable_seq
                == frame.reliable_seq
            &&& match frame.body {
                BodyView::Control { control, .. } => t.control_type == Some(control)
                    && t.split_seq is None && t.cmd is None,
                BodyView::Split { seqnum, chunk_count, chunk_num, .. } => t.split_seq == Some(
                    seqnum,
                ) && t.split_chunk == Some(chunk_num) && t.split_count == Some(chunk_count)
                    && t.cmd is None && t.control_type is None,
                BodyView::Original { cmd, payload } => t.cmd == Some(cmd) && t.payload_len == Some(
                    payload.len() as usize,
                ) && t.split_seq is None && t.control_type is None,
                _ => t.cmd is None && t.split_seq is None && t.control_type is None,
            }
        }),
        !(frame.body is Split) ==> traced(frame, pending, now) == Some(frame_trace(frame)),
        completes_split(frame, pending, now) && frame_command(frame, pending, now) == Some(
            (cmd, payload),
        ) ==> traced(frame, pending, now) == Some(
            TracePacket {
                channel: frame.channel,
                packet_type: 1,
                reliable_seq: None,
                control_type: None,
                split_seq: None,
                split_chunk: None,
                split_count: None,
                cmd: Some(cmd),
                payload_len: Some(payload.len() as usize),
            },
        ),
        frame_command(frame, pending, now) is Some && frame.body is Split ==> completes_split(
            frame,
            pending,
            now,
        ),
{
}

/// A chunk that states another number of chunks than those before it starts its packet anew, and a
/// chunk of one packet does not touch another.
pub proof fn packets_are_kept_apart(
    pending: Map<SplitKey, SplitView>,
    key: SplitKey,
    other: SplitKey,
    count: u16,
    num: u16,
    data: Seq<u8>,
    now: u64,
)
    requires
        other != key,
    ensures
        pending.dom().contains(key) && pending[key].chunks.len() != count ==> chunks_with(
            pending,
            key,
            count,
            num,
            data,
        ) == with_chunk(Seq::new(count as nat, |i: int| None), num as int, data),
        ({
            let after = pending_with(pending, key, count, num, data, now);
            let live = unexpired(pending, now);
            &&& after.dom().contains(other) == live.dom().contains(other)
            &&& live.dom().contains(other) ==> after[other] == pending[other]
        }),
{
}

/// A datagram that came when nothing was under way, and that is no chunk, leaves nothing pending;
/// the command that came last is remembered with its length.
pub proof fn last_command_is_remembered(c: ConnectionView, frame: FrameView, now: u64)
    ensures
        ({
            let after = after_frame(c, frame, now);
            &&& !(frame.body is Split) ==> after.pending == c.pending
            &&& after.peer_id == c.peer_id && after.send_seq == c.send_seq
            &&& match frame.body {
                BodyView::Original { cmd, payload } => after.last_command == Some(
                    (cmd, payload.len() as usize),
                ),
                BodyView::Control { .. } => after.last_command is None,
                _ => true,
            }
        }),
{
}

} // verus!
