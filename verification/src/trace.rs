//! Datagrams and events as lines of JSON.

use crate::api::http::quoted_text;
use crate::network::events::{EventView, MtpEvent, TracePacket};
use crate::text::{dec, push_dec, push_dec_unsigned, to_chars};
use crate::types::BlockPos;
use vstd::prelude::*;
use vstd::string::*;

verus! {

/// One character inside a string of a trace.
pub open spec fn plain_escape_of(c: char) -> Seq<char> {
    if c == '"' {
        seq!['\\', '"']
    } else if c == '\\' {
        seq!['\\', '\\']
    } else if c == '\n' {
        seq!['\\', 'n']
    } else if c == '\r' {
        seq!['\\', 'r']
    } else if c == '\t' {
        seq!['\\', 't']
    } else {
        seq![c]
    }
}

/// A text inside a string of a trace.
pub open spec fn plain_escaped(s: Seq<char>) -> Seq<char>
    decreases s.len(),
{
    if s.len() == 0 {
        seq![]
    } else {
        plain_escaped(s.drop_last()) + plain_escape_of(s.last())
    }
}

fn push_plain_escape(out: &mut String, c: char)
    ensures
        final(out)@ == old(out)@ + plain_escape_of(c),
{
    if c == '"' {
        out.push('\\');
        out.push('"');
    } else if c == '\\' {
        out.push('\\');
        out.push('\\');
    } else if c == '\n' {
        out.push('\\');
        out.push('n');
    } else if c == '\r' {
        out.push('\\');
        out.push('r');
    } else if c == '\t' {
        out.push('\\');
        out.push('t');
    } else {
        out.push(c);
    }
    assert(out@ =~= old(out)@ + plain_escape_of(c));
}

/// Escapes quotes, backslashes and line breaks; other control characters stay.
pub fn escape_json(value: &str) -> (out: String)
    ensures
        out@ == plain_escaped(value@),
{
    let chars: Vec<char> = to_chars(value);
    let mut out = String::new();
    let mut i: usize = 0;
    assert(out@ =~= plain_escaped(value@.take(0)));
    while i < chars.len()
        invariant
            i <= chars.len(),
            chars@ == value@,
            out@ == plain_escaped(value@.take(i as int)),
        decreases chars.len() - i,
    {
        assert(value@.take(i + 1).drop_last() =~= value@.take(i as int));
        push_plain_escape(&mut out, chars[i]);
        i = i + 1;
    }
    assert(value@.take(i as int) =~= value@);
    out
}

/// `"name":number,`, or nothing.
pub open spec fn field(label: Seq<char>, n: Option<int>) -> Seq<char> {
    match n {
        Some(n) => label + dec(n) + ","@,
        None => seq![],
    }
}

fn push_field(out: &mut String, label: &str, n: Option<u64>)
    ensures
        final(out)@ == old(out)@ + field(
            label@,
            match n {
                Some(n) => Some(n as int),
                None => None,
            },
        ),
{
    if let Some(n) = n {
        out.append(label);
        push_dec_unsigned(out, n as u128);
        out.append(",");
    }
    assert(out@ =~= old(out)@ + field(
        label@,
        match n {
            Some(n) => Some(n as int),
            None => None,
        },
    ));
}

pub open spec fn small(n: Option<u16>) -> Option<int> {
    match n {
        Some(n) => Some(n as int),
        None => None,
    }
}

/// What is traced of a chunk of a split packet.
pub open spec fn split_text(t: TracePacket) -> Seq<char> {
    if t.split_seq is Some {
        field("\"split_seq\":"@, small(t.split_seq)) + field(
            "\"split_chunk\":"@,
            small(t.split_chunk),
        ) + field("\"split_count\":"@, small(t.split_count))
    } else {
        seq![]
    }
}

fn push_split(out: &mut String, t: &TracePacket)
    ensures
        final(out)@ == old(out)@ + split_text(*t),
{
    if t.split_seq.is_some() {
        push_field(out, "\"split_seq\":", wide(t.split_seq));
        push_field(out, "\"split_chunk\":", wide(t.split_chunk));
        push_field(out, "\"split_count\":", wide(t.split_count));
    }
    assert(out@ =~= old(out)@ + split_text(*t));
}

/// What is traced of a datagram, up to its event.
pub open spec fn packet_text(t_ms: u128, t: TracePacket) -> Seq<char> {
    "{\"t_ms\":"@ + dec(t_ms as int) + ",\"channel\":"@ + dec(t.channel as int)
        + ",\"packet_type\":"@ + dec(t.packet_type as int) + ","@ + field(
        "\"reliable_seq\":"@,
        small(t.reliable_seq),
    ) + field(
        "\"control_type\":"@,
        match t.control_type {
            Some(n) => Some(n as int),
            None => None,
        },
    ) + split_text(t) + field("\"cmd\":"@, small(t.cmd)) + field(
        "\"payload_len\":"@,
        match t.payload_len {
            Some(n) => Some(n as int),
            None => None,
        },
    )
}

fn wide(n: Option<u16>) -> (w: Option<u64>)
    ensures
        match w {
            Some(w) => n is Some && w == n->0,
            None => n is None,
        },
{
    match n {
        Some(n) => Some(n as u64),
        None => None,
    }
}

fn build_packet(t_ms: u128, t: &TracePacket) -> (out: String)
    ensures
        out@ == packet_text(t_ms, *t),
{
    let mut out = "{\"t_ms\":".to_owned();
    push_dec_unsigned(&mut out, t_ms);
    out.append(",\"channel\":");
    push_dec_unsigned(&mut out, t.channel as u128);
    out.append(",\"packet_type\":");
    push_dec_unsigned(&mut out, t.packet_type as u128);
    out.append(",");
    push_field(&mut out, "\"reliable_seq\":", wide(t.reliable_seq));
    let control: Option<u64> = match t.control_type {
        Some(n) => Some(n as u64),
        None => None,
    };
    push_field(&mut out, "\"control_type\":", control);
    push_split(&mut out, t);
    push_field(&mut out, "\"cmd\":", wide(t.cmd));
    let len: Option<u64> = match t.payload_len {
        Some(n) => Some(n as u64),
        None => None,
    };
    push_field(&mut out, "\"payload_len\":", len);
    out
}

/// The numbers of a moved player, as the caller formats them.
pub struct MoveTexts {
    pub x: String,
    pub y: String,
    pub z: String,
    pub pitch: String,
    pub yaw: String,
}

/// An event inside a trace.
pub open spec fn event_text(event: EventView, moved: MoveTexts) -> Seq<char> {
    match event {
        EventView::SetPeerId(peer_id) => "\"type\":\"SetPeerId\",\"peer_id\":"@ + dec(
            peer_id as int,
        ),
        EventView::ToClientHello { auth_mechs, proto_ver, ser_ver } => {
            "\"type\":\"ToClientHello\",\"auth_mechs\":"@ + dec(auth_mechs as int)
                + ",\"proto_ver\":"@ + dec(proto_ver as int) + ",\"ser_ver\":"@ + dec(
                ser_ver as int,
            )
        },
        EventView::AuthAccept { .. } => "\"type\":\"AuthAccept\""@,
        EventView::Movement(_) => "\"type\":\"Movement\""@,
        EventView::MovePlayer { .. } => "\"type\":\"MovePlayer\",\"pos\":["@ + moved.x@ + ","@
            + moved.y@ + ","@ + moved.z@ + "],\"pitch\":"@ + moved.pitch@ + ",\"yaw\":"@ + moved.yaw@,
        EventView::SrpBytesSB { .. } => "\"type\":\"SrpBytesSB\""@,
        EventView::NodeDef { .. } => "\"type\":\"NodeDef\""@,
        EventView::ItemDef => "\"type\":\"ItemDef\""@,
        EventView::MediaAnnounce => "\"type\":\"MediaAnnounce\""@,
        EventView::BlockData { pos, data } => "\"type\":\"BlockData\",\"pos\":["@ + dec(
            pos.x as int,
        ) + ","@ + dec(pos.y as int) + ","@ + dec(pos.z as int) + "],\"bytes\":"@ + dec(
            data.len() as int,
        ),
        EventView::ActiveObjectRemoveAdd { removed, added } => {
            "\"type\":\"ActiveObjectRemoveAdd\",\"removed\":"@ + dec(removed.len() as int)
                + ",\"added\":"@ + dec(added.len() as int)
        },
        EventView::ActiveObjectMessages { messages } => {
            "\"type\":\"ActiveObjectMessages\",\"count\":"@ + dec(messages.len() as int)
        },
        EventView::ChatMessage { message_type, sender, message } => {
            "\"type\":\"ChatMessage\",\"message_type\":"@ + dec(message_type as int)
                + ",\"sender\":\""@ + plain_escaped(sender) + "\",\"message\":\""@ + plain_escaped(
                message,
            ) + "\""@
        },
        EventView::AccessDenied { reason } => "\"type\":\"AccessDenied\",\"reason\":"@ + dec(
            reason as int,
        ),
    }
}

fn build_event(event: &MtpEvent, moved: &MoveTexts) -> (out: String)
    ensures
        out@ == event_text(event@, *moved),
{
    match event {
        MtpEvent::SetPeerId(peer_id) => {
            let mut out = "\"type\":\"SetPeerId\",\"peer_id\":".to_owned();
            push_dec(&mut out, *peer_id as i64);
            out
        },
        MtpEvent::ToClientHello { auth_mechs, proto_ver, ser_ver } => {
            let mut out = "\"type\":\"ToClientHello\",\"auth_mechs\":".to_owned();
            push_dec(&mut out, *auth_mechs as i64);
            out.append(",\"proto_ver\":");
            push_dec(&mut out, *proto_ver as i64);
            out.append(",\"ser_ver\":");
            push_dec(&mut out, *ser_ver as i64);
            out
        },
        MtpEvent::AuthAccept { .. } => "\"type\":\"AuthAccept\"".to_owned(),
        MtpEvent::Movement(_) => "\"type\":\"Movement\"".to_owned(),
        MtpEvent::MovePlayer { .. } => {
            let mut out = "\"type\":\"MovePlayer\",\"pos\":[".to_owned();
            out.append(moved.x.as_str());
            out.append(",");
            out.append(moved.y.as_str());
            out.append(",");
            out.append(moved.z.as_str());
            out.append("],\"pitch\":");
            out.append(moved.pitch.as_str());
            out.append(",\"yaw\":");
            out.append(moved.yaw.as_str());
            out
        },
        MtpEvent::SrpBytesSB { .. } => "\"type\":\"SrpBytesSB\"".to_owned(),
        MtpEvent::NodeDef { .. } => "\"type\":\"NodeDef\"".to_owned(),
        MtpEvent::ItemDef => "\"type\":\"ItemDef\"".to_owned(),
        MtpEvent::MediaAnnounce => "\"type\":\"MediaAnnounce\"".to_owned(),
        MtpEvent::BlockData { pos, data } => {
            let mut out = "\"type\":\"BlockData\",\"pos\":[".to_owned();
            push_dec(&mut out, pos.x as i64);
            out.append(",");
            push_dec(&mut out, pos.y as i64);
            out.append(",");
            push_dec(&mut out, pos.z as i64);
            out.append("],\"bytes\":");
            push_dec_unsigned(&mut out, data.len() as u128);
            out
        },
        MtpEvent::ActiveObjectRemoveAdd { removed, added } => {
            let mut out = "\"type\":\"ActiveObjectRemoveAdd\",\"removed\":".to_owned();
            push_dec_unsigned(&mut out, removed.len() as u128);
            out.append(",\"added\":");
            push_dec_unsigned(&mut out, added.len() as u128);
            out
        },
        MtpEvent::ActiveObjectMessages { messages } => {
            let mut out = "\"type\":\"ActiveObjectMessages\",\"count\":".to_owned();
            push_dec_unsigned(&mut out, messages.len() as u128);
            out
        },
        MtpEvent::ChatMessage { message_type, sender, message } => {
            let mut out = "\"type\":\"ChatMessage\",\"message_type\":".to_owned();
            push_dec(&mut out, *message_type as i64);
            out.append(",\"sender\":\"");
            out.append(escape_json(sender.as_str()).as_str());
            out.append("\",\"message\":\"");
            out.append(escape_json(message.as_str()).as_str());
            out.append("\"");
            out
        },
        MtpEvent::AccessDenied { reason } => {
            let mut out = "\"type\":\"AccessDenied\",\"reason\":".to_owned();
            push_dec(&mut out, *reason as i64);
            out
        },
    }
}

/// A datagram that arrived at `t_ms`, with its event.
pub open spec fn trace_text(
    t_ms: u128,
    t: TracePacket,
    event: Option<EventView>,
    moved: MoveTexts,
) -> Seq<char> {
    packet_text(t_ms, t) + (match event {
        Some(e) => "\"event\":{"@ + event_text(e, moved) + "}"@,
        None => "\"event\":null"@,
    }) + "}"@
}

/// The line that a traced datagram gives.
pub fn build_trace_json(
    t_ms: u128,
    trace: &TracePacket,
    event: &Option<MtpEvent>,
    moved: &MoveTexts,
) -> (out: String)
    ensures
        out@ == trace_text(
            t_ms,
            *trace,
            crate::network::events::event_view(*event),
            *moved,
        ),
{
    let mut out = build_packet(t_ms, trace);
    let event_part = match event {
        Some(e) => {
            let mut part = "\"event\":{".to_owned();
            part.append(build_event(e, moved).as_str());
            part.append("}");
            part
        },
        None => "\"event\":null".to_owned(),
    };
    out.append(event_part.as_str());
    out.append("}");
    out
}

/// The line that an observing session prints. The position and the yaw are numbers
/// as the caller formats them.
pub open spec fn observation_text(
    t_ms: u128,
    ready: bool,
    spawned: bool,
    moved: MoveTexts,
    sender: Seq<char>,
    message: Seq<char>,
) -> Seq<char> {
    "{\"t_ms\":"@ + dec(t_ms as int) + ",\"ready\":"@ + truth(ready) + ",\"spawned\":"@ + truth(
        spawned,
    ) + ",\"pos\":["@ + moved.x@ + ","@ + moved.y@ + ","@ + moved.z@ + "],\"yaw\":"@ + moved.yaw@
        + ",\"last_chat\":{\"from\":\""@ + plain_escaped(sender) + "\",\"msg\":\""@ + plain_escaped(
        message,
    ) + "\"}}"@
}

pub open spec fn truth(b: bool) -> Seq<char> {
    if b {
        "true"@
    } else {
        "false"@
    }
}

pub fn truth_text(b: bool) -> (s: &'static str)
    ensures
        s@ == truth(b),
{
    if b {
        "true"
    } else {
        "false"
    }
}

pub fn build_observation_line(
    t_ms: u128,
    ready: bool,
    spawned: bool,
    moved: &MoveTexts,
    sender: &str,
    message: &str,
) -> (out: String)
    ensures
        out@ == observation_text(t_ms, ready, spawned, *moved, sender@, message@),
{
    let mut out = "{\"t_ms\":".to_owned();
    push_dec_unsigned(&mut out, t_ms);
    out.append(",\"ready\":");
    out.append(truth_text(ready));
    out.append(",\"spawned\":");
    out.append(truth_text(spawned));
    out.append(",\"pos\":[");
    out.append(moved.x.as_str());
    out.append(",");
    out.append(moved.y.as_str());
    out.append(",");
    out.append(moved.z.as_str());
    out.append("],\"yaw\":");
    out.append(moved.yaw.as_str());
    out.append(",\"last_chat\":{\"from\":\"");
    out.append(escape_json(sender).as_str());
    out.append("\",\"msg\":\"");
    out.append(escape_json(message).as_str());
    out.append("\"}}");
    out
}

/// A text in a trace is read back from its quotes as it was, whatever characters it holds.
pub proof fn traced_texts_are_read_back(s: Seq<char>, rest: Seq<char>)
    ensures
        quoted_text(plain_escaped(s) + (seq!['"'] + rest)) == Some(s),
    decreases s.len(),
{
    let tail = seq!['"'] + rest;
    if s.len() == 0 {
        assert(plain_escaped(s) + tail =~= tail);
        assert(tail[0] == '"');
        assert(s =~= seq![]);
    } else {
        let c = s[0];
        let more = s.drop_first();
        traced_texts_are_read_back(more, rest);
        plain_escaped_from_the_front(s);
        let e = plain_escape_of(c);
        let all = plain_escaped(s) + tail;
        assert(all =~= e + (plain_escaped(more) + tail));
        assert(all[0] == e[0]);
        if e.len() == 2 {
            assert(all[1] == e[1]);
            assert(all.skip(2) =~= plain_escaped(more) + tail);
        } else {
            assert(all.skip(1) =~= plain_escaped(more) + tail);
        }
        assert(seq![c] + more =~= s);
    }
}

proof fn plain_escaped_from_the_front(s: Seq<char>)
    requires
        s.len() > 0,
    ensures
        plain_escaped(s) == plain_escape_of(s[0]) + plain_escaped(s.drop_first()),
    decreases s.len(),
{
    if s.len() == 1 {
        assert(s.drop_last() =~= seq![]);
        assert(s.drop_first() =~= seq![]);
        assert(plain_escaped(s.drop_last()) =~= seq![]);
        assert(plain_escaped(s) =~= plain_escape_of(s[0]));
        assert(plain_escape_of(s[0]) + plain_escaped(s.drop_first()) =~= plain_escape_of(s[0]));
    } else {
        plain_escaped_from_the_front(s.drop_last());
        assert(s.drop_last().drop_first() =~= s.drop_first().drop_last());
        assert(s.drop_first().last() == s.last());
        assert(s.drop_last()[0] == s[0]);
        let inner = s.drop_first().drop_last();
        assert(plain_escape_of(s[0]) + plain_escaped(inner) + plain_escape_of(s.last())
            =~= plain_escape_of(s[0]) + (plain_escaped(inner) + plain_escape_of(s.last())));
    }
}

/// What is not known of a datagram is left out of its trace, and a chunk is traced only with its
/// packet's number.
pub proof fn unknown_fields_are_left_out(t: TracePacket, label: Seq<char>, n: int)
    ensures
        field(label, None) == Seq::<char>::empty(),
        field(label, Some(n)) == label + dec(n) + ","@,
        t.split_seq is None ==> split_text(t) == Seq::<char>::empty(),
        t.split_seq is Some && t.split_chunk is Some && t.split_count is Some ==> split_text(t)
            == "\"split_seq\":"@ + dec(t.split_seq->0 as int) + ","@ + ("\"split_chunk\":"@ + dec(
            t.split_chunk->0 as int,
        ) + ","@) + ("\"split_count\":"@ + dec(t.split_count->0 as int) + ","@),
{
}

/// An event is traced with its type, and with the numbers and texts that it carries.
pub proof fn events_are_traced_with_what_they_carry(
    peer_id: u16,
    pos: BlockPos,
    data: Seq<u8>,
    sender: Seq<char>,
    message: Seq<char>,
    kind: u8,
    mechs: u32,
    version: u16,
    moved: MoveTexts,
)
    ensures
        event_text(EventView::SetPeerId(peer_id), moved) == "\"type\":\"SetPeerId\",\"peer_id\":"@
            + dec(peer_id as int),
        event_text(
            EventView::ToClientHello { auth_mechs: mechs, proto_ver: version, ser_ver: kind },
            moved,
        ) == "\"type\":\"ToClientHello\",\"auth_mechs\":"@ + dec(mechs as int)
            + ",\"proto_ver\":"@ + dec(version as int) + ",\"ser_ver\":"@ + dec(kind as int),
        event_text(EventView::BlockData { pos, data }, moved)
            == "\"type\":\"BlockData\",\"pos\":["@ + dec(pos.x as int) + ","@ + dec(pos.y as int)
            + ","@ + dec(pos.z as int) + "],\"bytes\":"@ + dec(data.len() as int),
        event_text(EventView::ChatMessage { message_type: kind, sender, message }, moved)
            == "\"type\":\"ChatMessage\",\"message_type\":"@ + dec(kind as int)
            + ",\"sender\":\""@ + plain_escaped(sender) + "\",\"message\":\""@ + plain_escaped(
            message,
        ) + "\""@,
        event_text(EventView::AccessDenied { reason: kind }, moved)
            == "\"type\":\"AccessDenied\",\"reason\":"@ + dec(kind as int),
        event_text(EventView::ItemDef, moved) == "\"type\":\"ItemDef\""@,
        event_text(EventView::NodeDef { data }, moved) == "\"type\":\"NodeDef\""@,
        event_text(EventView::MediaAnnounce, moved) == "\"type\":\"MediaAnnounce\""@,
{
}

/// A datagram is traced with its time, its channel and its type, then with what is known of it, then
/// with the event that it brought.
pub proof fn datagrams_are_told(
    t_ms: u128,
    channel: u8,
    packet_type: u8,
    cmd: u16,
    len: usize,
    event: EventView,
    moved: MoveTexts,
)
    ensures
        ({
            let t = TracePacket {
                channel,
                packet_type,
                reliable_seq: None,
                control_type: None,
                split_seq: None,
                split_chunk: None,
                split_count: None,
                cmd: Some(cmd),
                payload_len: Some(len),
            };
            let none = Seq::<char>::empty();
            &&& packet_text(t_ms, t) == "{\"t_ms\":"@ + dec(t_ms as int) + ",\"channel\":"@ + dec(
                channel as int,
            ) + ",\"packet_type\":"@ + dec(packet_type as int) + ","@ + none + none + none + (
            "\"cmd\":"@ + dec(cmd as int) + ","@) + ("\"payload_len\":"@ + dec(len as int) + ","@)
            &&& trace_text(t_ms, t, Some(event), moved) == packet_text(t_ms, t) + ("\"event\":{"@
                + event_text(event, moved) + "}"@) + "}"@
            &&& trace_text(t_ms, t, None, moved) == packet_text(t_ms, t) + "\"event\":null"@ + "}"@
        }),
{
}

/// What is observed is told with its time, whether the bot is ready and in the world, where it is,
/// and the last chat.
pub proof fn observations_are_told(
    t_ms: u128,
    ready: bool,
    spawned: bool,
    moved: MoveTexts,
    sender: Seq<char>,
    message: Seq<char>,
)
    ensures
        observation_text(t_ms, ready, spawned, moved, sender, message) == "{\"t_ms\":"@ + dec(
            t_ms as int,
        ) + ",\"ready\":"@ + truth(ready) + ",\"spawned\":"@ + truth(spawned) + ",\"pos\":["@
            + moved.x@ + ","@ + moved.y@ + ","@ + moved.z@ + "],\"yaw\":"@ + moved.yaw@
            + ",\"last_chat\":{\"from\":\""@ + plain_escaped(sender) + "\",\"msg\":\""@
            + plain_escaped(message) + "\"}}"@,
{
}

} // verus!
