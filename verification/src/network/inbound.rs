//! Decode server command payloads after transport framing has been removed.

use super::events::{
    event_view, ActiveObjectInit, ActiveObjectMessage, EventView, InitView, MessageView,
    MtpEvent,
};
use super::protocol::{
    TOCLIENT_ACCESS_DENIED, TOCLIENT_ACTIVE_OBJECT_MESSAGES, TOCLIENT_ACTIVE_OBJECT_REMOVE_ADD,
    TOCLIENT_ANNOUNCE_MEDIA, TOCLIENT_AUTH_ACCEPT, TOCLIENT_BLOCKDATA, TOCLIENT_CHAT_MESSAGE,
    TOCLIENT_HELLO, TOCLIENT_ITEMDEF, TOCLIENT_MOVEMENT, TOCLIENT_MOVE_PLAYER, TOCLIENT_NODEDEF,
    TOCLIENT_SRP_BYTES_S_B,
};
use super::wire::{
    be16, be32, bytes_field, bytes_in, encode_utf16, numbers_come_back, part_between,
    position_field_comes_back, prepend, raw_in, read_bytes_slice, read_f32_slice, read_string_slice,
    read_u16, read_u32, read_u8, read_v3f32_slice, read_v3s16_slice, read_wstring_slice, regrouped,
    short_bytes_are_whole, short_texts_are_whole, string_field, string_field_round_trip, string_in,
    u16_at, u16_in, u32_at, u32_in, units_be, units_come_back, units_in, v3f32_in, v3s16_field,
    v3s16_in, wstring_field, wstring_in,
};
use crate::game::player::MovementSettings;
use crate::text::copy_range;
use crate::types::{BlockPos, Vec3};
use vstd::prelude::*;

verus! {

/// HELLO: serialization version, two unused bytes, protocol version, the
/// authentication mechanisms, and an unused string.
pub open spec fn hello_in(p: Seq<u8>) -> Option<EventView> {
    if p.len() >= 9 && string_in(p, 9) is Some {
        Some(EventView::ToClientHello {
            ser_ver: p[0],
            proto_ver: u16_at(p, 3),
            auth_mechs: u32_at(p, 5),
        })
    } else {
        None
    }
}

/// AUTH_ACCEPT: an unused position, the map seed, and the send interval.
pub open spec fn auth_accept_in(p: Seq<u8>) -> Option<EventView> {
    if p.len() >= 24 {
        Some(EventView::AuthAccept { recommended_send_interval: u32_at(p, 20) })
    } else {
        None
    }
}

/// MOVE_PLAYER: position, and pitch and yaw in degrees.
pub open spec fn move_player_in(p: Seq<u8>) -> Option<EventView> {
    match v3f32_in(p, 0) {
        Some((pos, _)) if p.len() >= 20 => Some(EventView::MovePlayer {
            pos,
            pitch_degrees: u32_at(p, 12),
            yaw_degrees: u32_at(p, 16),
        }),
        _ => None,
    }
}

/// MOVEMENT: twelve numbers.
pub open spec fn movement_in(p: Seq<u8>) -> Option<EventView> {
    if p.len() >= 48 {
        Some(EventView::Movement(MovementSettings {
            acceleration_default: u32_at(p, 0),
            acceleration_air: u32_at(p, 4),
            acceleration_fast: u32_at(p, 8),
            speed_walk: u32_at(p, 12),
            speed_crouch: u32_at(p, 16),
            speed_fast: u32_at(p, 20),
            speed_climb: u32_at(p, 24),
            speed_jump: u32_at(p, 28),
            liquid_fluidity: u32_at(p, 32),
            liquid_fluidity_smooth: u32_at(p, 36),
            liquid_sink: u32_at(p, 40),
            gravity: u32_at(p, 44),
        }))
    } else {
        None
    }
}

/// BLOCKDATA: the block's position, and its serialized contents to the end.
pub open spec fn block_data_in(p: Seq<u8>) -> Option<EventView> {
    match v3s16_in(p, 0) {
        Some((pos, _)) => Some(EventView::BlockData { pos, data: p.skip(6) }),
        None => None,
    }
}

/// One added object: its id, its type, and its data behind a 32 bit length.
pub open spec fn init_in(p: Seq<u8>, at: int) -> Option<(InitView, int)> {
    if at + 7 <= p.len() {
        match raw_in(p, at + 7, u32_at(p, at + 3) as int) {
            Some((data, next)) => Some((
                InitView { id: u16_at(p, at), ao_type: p[at + 2], data },
                next,
            )),
            None => None,
        }
    } else {
        None
    }
}

/// `count` added objects in a row.
pub open spec fn inits_in(p: Seq<u8>, at: int, count: nat) -> Option<Seq<InitView>>
    decreases count,
{
    if count == 0 {
        Some(seq![])
    } else {
        match init_in(p, at) {
            Some((init, next)) => prepend(seq![init], inits_in(p, next, (count - 1) as nat)),
            None => None,
        }
    }
}

/// ACTIVE_OBJECT_REMOVE_ADD: the ids of removed objects, then the added objects,
/// each list behind its 16 bit count.
pub open spec fn remove_add_in(p: Seq<u8>) -> Option<EventView> {
    match u16_in(p, 0) {
        Some((removed, _)) => match u16_in(p, 2 + 2 * removed) {
            Some((added, start)) => match inits_in(p, start, added as nat) {
                Some(inits) => Some(EventView::ActiveObjectRemoveAdd {
                    removed: units_in(p, 2, removed as int),
                    added: inits,
                }),
                None => None,
            },
            None => None,
        },
        None => None,
    }
}

/// Object messages up to the end of the payload: an id and data behind a 16 bit
/// length each.
pub open spec fn messages_in(p: Seq<u8>, at: int) -> Option<Seq<MessageView>>
    decreases p.len() - at,
{
    if at >= p.len() {
        Some(seq![])
    } else if at + 4 <= p.len() && at + 4 + u16_at(p, at + 2) <= p.len() {
        let next = at + 4 + u16_at(p, at + 2);
        prepend(
            seq![MessageView { id: u16_at(p, at), data: p.subrange(at + 4, next) }],
            messages_in(p, next),
        )
    } else {
        None
    }
}

/// SRP_BYTES_S_B: the salt and the server's public value.
pub open spec fn srp_bytes_in(p: Seq<u8>) -> Option<EventView> {
    match bytes_in(p, 0) {
        Some((salt, next)) => match bytes_in(p, next) {
            Some((b, _)) => Some(EventView::SrpBytesSB { salt, b }),
            None => None,
        },
        None => None,
    }
}

/// NODEDEF: compressed definitions behind a 32 bit length.
pub open spec fn nodedef_in(p: Seq<u8>) -> Option<EventView> {
    match u32_in(p, 0) {
        Some((len, start)) => match raw_in(p, start, len as int) {
            Some((data, _)) => Some(EventView::NodeDef { data }),
            None => None,
        },
        None => None,
    }
}

/// CHAT_MESSAGE: a version, the message type, the sender and the message.
pub open spec fn chat_in(p: Seq<u8>) -> Option<EventView> {
    if p.len() < 2 {
        None
    } else {
        match wstring_in(p, 2) {
            Some((sender, next)) => match wstring_in(p, next) {
                Some((message, _)) => Some(EventView::ChatMessage {
                    message_type: p[1],
                    sender,
                    message,
                }),
                None => None,
            },
            None => None,
        }
    }
}

/// ACCESS_DENIED: the reason.
pub open spec fn access_denied_in(p: Seq<u8>) -> Option<EventView> {
    if p.len() >= 1 {
        Some(EventView::AccessDenied { reason: p[0] })
    } else {
        None
    }
}

/// The event that a server command with payload `p` stands for; `None` where the
/// command is not one that the bot knows, or the payload is malformed.
pub open spec fn command_event(cmd: u16, p: Seq<u8>) -> Option<EventView> {
    if cmd == TOCLIENT_HELLO {
        hello_in(p)
    } else if cmd == TOCLIENT_AUTH_ACCEPT {
        auth_accept_in(p)
    } else if cmd == TOCLIENT_MOVE_PLAYER {
        move_player_in(p)
    } else if cmd == TOCLIENT_MOVEMENT {
        movement_in(p)
    } else if cmd == TOCLIENT_BLOCKDATA {
        block_data_in(p)
    } else if cmd == TOCLIENT_ACTIVE_OBJECT_REMOVE_ADD {
        remove_add_in(p)
    } else if cmd == TOCLIENT_ACTIVE_OBJECT_MESSAGES {
        match messages_in(p, 0) {
            Some(messages) => Some(EventView::ActiveObjectMessages { messages }),
            None => None,
        }
    } else if cmd == TOCLIENT_SRP_BYTES_S_B {
        srp_bytes_in(p)
    } else if cmd == TOCLIENT_NODEDEF {
        nodedef_in(p)
    } else if cmd == TOCLIENT_ITEMDEF {
        Some(EventView::ItemDef)
    } else if cmd == TOCLIENT_ANNOUNCE_MEDIA {
        Some(EventView::MediaAnnounce)
    } else if cmd == TOCLIENT_CHAT_MESSAGE {
        chat_in(p)
    } else if cmd == TOCLIENT_ACCESS_DENIED {
        access_denied_in(p)
    } else {
        None
    }
}

fn parse_hello(payload: &[u8]) -> (event: Option<MtpEvent>)
    ensures
        event_view(event) == hello_in(payload@),
{
    let mut offset: usize = 0;
    let ser_ver: u8 = read_u8(payload, &mut offset).ok()?;
    let _unused: u16 = read_u16(payload, &mut offset).ok()?;
    let proto_ver: u16 = read_u16(payload, &mut offset).ok()?;
    let auth_mechs: u32 = read_u32(payload, &mut offset).ok()?;
    let _unused_str = read_string_slice(payload, &mut offset).ok()?;
    Some(MtpEvent::ToClientHello { auth_mechs, proto_ver, ser_ver })
}

fn parse_auth_accept(payload: &[u8]) -> (event: Option<MtpEvent>)
    ensures
        event_view(event) == auth_accept_in(payload@),
{
    let mut offset: usize = 0;
    let _unused_pos = read_v3f32_slice(payload, &mut offset).ok()?;
    if payload.len() - offset < 8 {
        return None;
    }
    // The map seed is not used.
    offset = offset + 8;
    let recommended_send_interval: u32 = read_f32_slice(payload, &mut offset).ok()?;
    Some(MtpEvent::AuthAccept { recommended_send_interval })
}

fn parse_move_player(payload: &[u8]) -> (event: Option<MtpEvent>)
    ensures
        event_view(event) == move_player_in(payload@),
{
    let mut offset: usize = 0;
    let pos = read_v3f32_slice(payload, &mut offset).ok()?;
    let pitch_degrees: u32 = read_f32_slice(payload, &mut offset).ok()?;
    let yaw_degrees: u32 = read_f32_slice(payload, &mut offset).ok()?;
    Some(MtpEvent::MovePlayer { pos, pitch_degrees, yaw_degrees })
}

fn parse_movement(payload: &[u8]) -> (event: Option<MtpEvent>)
    ensures
        event_view(event) == movement_in(payload@),
{
    let mut offset: usize = 0;
    let acceleration_default: u32 = read_f32_slice(payload, &mut offset).ok()?;
    let acceleration_air: u32 = read_f32_slice(payload, &mut offset).ok()?;
    let acceleration_fast: u32 = read_f32_slice(payload, &mut offset).ok()?;
    let speed_walk: u32 = read_f32_slice(payload, &mut offset).ok()?;
    let speed_crouch: u32 = read_f32_slice(payload, &mut offset).ok()?;
    let speed_fast: u32 = read_f32_slice(payload, &mut offset).ok()?;
    let speed_climb: u32 = read_f32_slice(payload, &mut offset).ok()?;
    let speed_jump: u32 = read_f32_slice(payload, &mut offset).ok()?;
    let liquid_fluidity: u32 = read_f32_slice(payload, &mut offset).ok()?;
    let liquid_fluidity_smooth: u32 = read_f32_slice(payload, &mut offset).ok()?;
    let liquid_sink: u32 = read_f32_slice(payload, &mut offset).ok()?;
    let gravity: u32 = read_f32_slice(payload, &mut offset).ok()?;
    Some(MtpEvent::Movement(MovementSettings {
        acceleration_default,
        acceleration_air,
        acceleration_fast,
        speed_walk,
        speed_crouch,
        speed_fast,
        speed_climb,
        speed_jump,
        liquid_fluidity,
        liquid_fluidity_smooth,
        liquid_sink,
        gravity,
    }))
}

fn parse_block_data(payload: &[u8]) -> (event: Option<MtpEvent>)
    ensures
        event_view(event) == block_data_in(payload@),
{
    let mut offset: usize = 0;
    let pos = read_v3s16_slice(payload, &mut offset).ok()?;
    let data: Vec<u8> = copy_range(payload, offset, payload.len());
    assert(data@ =~= payload@.skip(6));
    Some(MtpEvent::BlockData { pos, data })
}

fn parse_remove_add(payload: &[u8]) -> (event: Option<MtpEvent>)
    ensures
        event_view(event) == remove_add_in(payload@),
{
    let mut offset: usize = 0;
    let remove_count: u16 = read_u16(payload, &mut offset).ok()?;
    let mut removed: Vec<u16> = Vec::new();
    let mut i: u16 = 0;
    while i < remove_count
        invariant
            i <= remove_count,
            u16_in(payload@, 0) == Some((remove_count, 2int)),
            offset == 2 + 2 * i,
            offset <= payload.len(),
            removed@ =~= units_in(payload@, 2, i as int),
        decreases remove_count - i,
    {
        removed.push(read_u16(payload, &mut offset).ok()?);
        i = i + 1;
    }
    let add_count: u16 = read_u16(payload, &mut offset).ok()?;
    let ghost start = offset as int;
    let mut added: Vec<ActiveObjectInit> = Vec::new();
    let ghost view = |o: ActiveObjectInit| o@;
    let mut k: u16 = 0;
    proof {
        if inits_in(payload@, start, add_count as nat) is Some {
            let all = inits_in(payload@, start, add_count as nat)->0;
            assert(added@.map_values(view) + all =~= all);
        }
    }
    while k < add_count
        invariant
            k <= add_count,
            u16_in(payload@, 0) == Some((remove_count, 2int)),
            u16_in(payload@, 2 + 2 * remove_count) == Some((add_count, start)),
            offset <= payload.len(),
            view == (|o: ActiveObjectInit| o@),
            inits_in(payload@, start, add_count as nat) == prepend(
                added@.map_values(view),
                inits_in(payload@, offset as int, (add_count - k) as nat),
            ),
        decreases add_count - k,
    {
        let ghost at = offset as int;
        let id: u16 = read_u16(payload, &mut offset).ok()?;
        let ao_type: u8 = read_u8(payload, &mut offset).ok()?;
        let len: usize = read_u32(payload, &mut offset).ok()? as usize;
        if payload.len() - offset < len {
            return None;
        }
        let data: Vec<u8> = copy_range(payload, offset, offset + len);
        offset = offset + len;
        let ghost before = added@.map_values(view);
        let ghost rest = inits_in(payload@, offset as int, (add_count - k - 1) as nat);
        added.push(ActiveObjectInit { id, ao_type, data });
        k = k + 1;
        proof {
            let init = added@.last()@;
            assert(init_in(payload@, at) == Some((init, offset as int)));
            assert(added@.map_values(view) =~= before.push(init));
            if rest is Some {
                assert(before + (seq![init] + rest->0) =~= before.push(init) + rest->0);
            }
        }
    }
    assert(added@.map_values(view) + Seq::<InitView>::empty() =~= added@.map_values(view));
    Some(MtpEvent::ActiveObjectRemoveAdd { removed, added })
}

fn parse_object_messages(payload: &[u8]) -> (event: Option<MtpEvent>)
    ensures
        event_view(event) == (match messages_in(payload@, 0) {
            Some(messages) => Some(EventView::ActiveObjectMessages { messages }),
            None => None,
        }),
{
    let mut offset: usize = 0;
    let mut messages: Vec<ActiveObjectMessage> = Vec::new();
    let ghost view = |m: ActiveObjectMessage| m@;
    proof {
        if messages_in(payload@, 0) is Some {
            assert(messages@.map_values(view) + messages_in(payload@, 0)->0 =~= messages_in(
                payload@,
                0,
            )->0);
        }
    }
    while offset < payload.len()
        invariant
            offset <= payload.len(),
            view == (|m: ActiveObjectMessage| m@),
            messages_in(payload@, 0) == prepend(
                messages@.map_values(view),
                messages_in(payload@, offset as int),
            ),
        decreases payload.len() - offset,
    {
        let ghost at = offset as int;
        let id: u16 = read_u16(payload, &mut offset).ok()?;
        let len: usize = read_u16(payload, &mut offset).ok()? as usize;
        if payload.len() - offset < len {
            return None;
        }
        let data: Vec<u8> = copy_range(payload, offset, offset + len);
        offset = offset + len;
        let ghost before = messages@.map_values(view);
        let ghost rest = messages_in(payload@, offset as int);
        messages.push(ActiveObjectMessage { id, data });
        proof {
            let message = messages@.last()@;
            assert(messages@.map_values(view) =~= before.push(message));
            if rest is Some {
                assert(before + (seq![message] + rest->0) =~= before.push(message) + rest->0);
            }
        }
    }
    assert(messages@.map_values(view) + Seq::<MessageView>::empty() =~= messages@.map_values(view));
    Some(MtpEvent::ActiveObjectMessages { messages })
}

fn parse_srp_bytes(payload: &[u8]) -> (event: Option<MtpEvent>)
    ensures
        event_view(event) == srp_bytes_in(payload@),
{
    let mut offset: usize = 0;
    let salt: Vec<u8> = read_bytes_slice(payload, &mut offset).ok()?;
    let b: Vec<u8> = read_bytes_slice(payload, &mut offset).ok()?;
    Some(MtpEvent::SrpBytesSB { salt, b })
}

fn parse_nodedef(payload: &[u8]) -> (event: Option<MtpEvent>)
    ensures
        event_view(event) == nodedef_in(payload@),
{
    let mut offset: usize = 0;
    let len: usize = read_u32(payload, &mut offset).ok()? as usize;
    if payload.len() - offset < len {
        return None;
    }
    Some(MtpEvent::NodeDef { data: copy_range(payload, offset, offset + len) })
}

fn parse_chat(payload: &[u8]) -> (event: Option<MtpEvent>)
    ensures
        event_view(event) == chat_in(payload@),
{
    let mut offset: usize = 0;
    let _version: u8 = read_u8(payload, &mut offset).ok()?;
    let message_type: u8 = read_u8(payload, &mut offset).ok()?;
    let sender = read_wstring_slice(payload, &mut offset).ok()?;
    let message = read_wstring_slice(payload, &mut offset).ok()?;
    Some(MtpEvent::ChatMessage { message_type, sender, message })
}

fn parse_access_denied(payload: &[u8]) -> (event: Option<MtpEvent>)
    ensures
        event_view(event) == access_denied_in(payload@),
{
    let mut offset: usize = 0;
    let reason: u8 = read_u8(payload, &mut offset).ok()?;
    Some(MtpEvent::AccessDenied { reason })
}

/// Decodes one server command.
pub fn parse_to_client(cmd: u16, payload: &[u8]) -> (event: Option<MtpEvent>)
    ensures
        event_view(event) == command_event(cmd, payload@),
{
    if cmd == TOCLIENT_HELLO {
        parse_hello(payload)
    } else if cmd == TOCLIENT_AUTH_ACCEPT {
        parse_auth_accept(payload)
    } else if cmd == TOCLIENT_MOVE_PLAYER {
        parse_move_player(payload)
    } else if cmd == TOCLIENT_MOVEMENT {
        parse_movement(payload)
    } else if cmd == TOCLIENT_BLOCKDATA {
        parse_block_data(payload)
    } else if cmd == TOCLIENT_ACTIVE_OBJECT_REMOVE_ADD {
        parse_remove_add(payload)
    } else if cmd == TOCLIENT_ACTIVE_OBJECT_MESSAGES {
        parse_object_messages(payload)
    } else if cmd == TOCLIENT_SRP_BYTES_S_B {
        parse_srp_bytes(payload)
    } else if cmd == TOCLIENT_NODEDEF {
        parse_nodedef(payload)
    } else if cmd == TOCLIENT_ITEMDEF {
        Some(MtpEvent::ItemDef)
    } else if cmd == TOCLIENT_ANNOUNCE_MEDIA {
        Some(MtpEvent::MediaAnnounce)
    } else if cmd == TOCLIENT_CHAT_MESSAGE {
        parse_chat(payload)
    } else if cmd == TOCLIENT_ACCESS_DENIED {
        parse_access_denied(payload)
    } else {
        None
    }
}

#[verifier::rlimit(50)]
proof fn hello_numbers(ser_ver: u8, unused: u16, proto_ver: u16, auth_mechs: u32, rest: Seq<u8>)
    ensures
        ({
            let front = seq![ser_ver] + be16(unused) + be16(proto_ver) + be32(auth_mechs);
            let p = front + rest;
            &&& front.len() == 9
            &&& p.len() >= 9
            &&& p[0] == ser_ver
            &&& u16_at(p, 3) == proto_ver
            &&& u32_at(p, 5) == auth_mechs
        }),
{
    let a = seq![ser_ver];
    let b = be16(unused);
    let c = be16(proto_ver);
    let d = be32(auth_mechs);
    regrouped(a, b, c, d, rest, seq![]);
    part_between(seq![], a, b + c + d + rest);
    assert(Seq::<u8>::empty() + a =~= a);
    numbers_come_back(a + b, proto_ver, 0, d + rest);
    numbers_come_back(a + b + c, 0, auth_mechs, rest);
    assert((a + b).len() == 3 && (a + b + c).len() == 5 && (a + b + c + d).len() == 9);
}

/// A greeting is read as it was written: the format version, the protocol version and the
/// authentication mechanisms, whatever stands in the fields that are not used.
#[verifier::rlimit(50)]
pub proof fn hello_is_read_as_written(
    ser_ver: u8,
    unused: u16,
    proto_ver: u16,
    auth_mechs: u32,
    name: Seq<char>,
    after: Seq<u8>,
)
    ensures
        command_event(
            0x02,
            seq![ser_ver] + be16(unused) + be16(proto_ver) + be32(auth_mechs) + string_field(name)
                + after,
        ) == Some(EventView::ToClientHello { ser_ver, proto_ver, auth_mechs }),
{
    let front = seq![ser_ver] + be16(unused) + be16(proto_ver) + be32(auth_mechs);
    string_field_round_trip(front, name, after);
    let e = string_field(name);
    regrouped(front, e, after, seq![], seq![], seq![]);
    hello_numbers(ser_ver, unused, proto_ver, auth_mechs, e + after);
}

/// Numbers in a row, each with its high byte first.
pub open spec fn numbers_be(ns: Seq<u32>) -> Seq<u8> {
    Seq::new(4 * ns.len(), |i: int| be32(ns[i / 4])[i % 4])
}

/// A number in a row is read back in its place.
#[verifier::rlimit(50)]
pub proof fn number_in_a_row(ns: Seq<u32>, before: Seq<u8>, after: Seq<u8>, k: int)
    requires
        0 <= k < ns.len(),
    ensures
        u32_at(before + numbers_be(ns) + after, before.len() + 4 * k) == ns[k],
{
    let p = before + numbers_be(ns) + after;
    let at = before.len() + 4 * k;
    assert((4 * k) / 4 == k && (4 * k + 1) / 4 == k && (4 * k + 2) / 4 == k && (4 * k + 3) / 4
        == k);
    assert((4 * k) % 4 == 0 && (4 * k + 1) % 4 == 1 && (4 * k + 2) % 4 == 2 && (4 * k + 3) % 4
        == 3);
    assert(p[at] == numbers_be(ns)[4 * k]);
    assert(p[at + 1] == numbers_be(ns)[4 * k + 1]);
    assert(p[at + 2] == numbers_be(ns)[4 * k + 2]);
    assert(p[at + 3] == numbers_be(ns)[4 * k + 3]);
}

/// The acceptance of a login is read as it was written: the send interval stands behind an
/// unused position and the map seed.
pub proof fn acceptance_is_read_as_written(ns: Seq<u32>, after: Seq<u8>)
    requires
        ns.len() == 6,
    ensures
        command_event(0x03, numbers_be(ns) + after) == Some(
            EventView::AuthAccept { recommended_send_interval: ns[5] },
        ),
{
    number_in_a_row(ns, seq![], after, 5);
    assert(seq![] + numbers_be(ns) + after =~= numbers_be(ns) + after);
}

/// A player's move is read as it was written: the position along the three axes, the pitch
/// and the yaw.
pub proof fn move_player_is_read_as_written(ns: Seq<u32>, after: Seq<u8>)
    requires
        ns.len() == 5,
    ensures
        command_event(0x34, numbers_be(ns) + after) == Some(
            EventView::MovePlayer {
                pos: Vec3 { x: ns[0], y: ns[1], z: ns[2] },
                pitch_degrees: ns[3],
                yaw_degrees: ns[4],
            },
        ),
{
    assert(seq![] + numbers_be(ns) + after =~= numbers_be(ns) + after);
    number_in_a_row(ns, seq![], after, 0);
    number_in_a_row(ns, seq![], after, 1);
    number_in_a_row(ns, seq![], after, 2);
    number_in_a_row(ns, seq![], after, 3);
    number_in_a_row(ns, seq![], after, 4);
}

/// The movement settings are read as they were written, each of the twelve in its place.
#[verifier::rlimit(50)]
pub proof fn movement_is_read_as_written(ns: Seq<u32>, after: Seq<u8>)
    requires
        ns.len() == 12,
    ensures
        command_event(0x45, numbers_be(ns) + after) == Some(
            EventView::Movement(
                MovementSettings {
                    acceleration_default: ns[0],
                    acceleration_air: ns[1],
                    acceleration_fast: ns[2],
                    speed_walk: ns[3],
                    speed_crouch: ns[4],
                    speed_fast: ns[5],
                    speed_climb: ns[6],
                    speed_jump: ns[7],
                    liquid_fluidity: ns[8],
                    liquid_fluidity_smooth: ns[9],
                    liquid_sink: ns[10],
                    gravity: ns[11],
                },
            ),
        ),
{
    let p = numbers_be(ns) + after;
    assert(seq![] + numbers_be(ns) + after =~= p);
    number_in_a_row(ns, seq![], after, 0);
    number_in_a_row(ns, seq![], after, 1);
    number_in_a_row(ns, seq![], after, 2);
    number_in_a_row(ns, seq![], after, 3);
    number_in_a_row(ns, seq![], after, 4);
    number_in_a_row(ns, seq![], after, 5);
    number_in_a_row(ns, seq![], after, 6);
    number_in_a_row(ns, seq![], after, 7);
    number_in_a_row(ns, seq![], after, 8);
    number_in_a_row(ns, seq![], after, 9);
    number_in_a_row(ns, seq![], after, 10);
    number_in_a_row(ns, seq![], after, 11);
}

/// A block is read as it was written: its position, and all the data behind it.
#[verifier::rlimit(50)]
pub proof fn block_is_read_as_written(pos: BlockPos, data: Seq<u8>)
    ensures
        command_event(0x20, v3s16_field(pos) + data) == Some(EventView::BlockData { pos, data }),
{
    position_field_comes_back(seq![], pos, data);
    assert(seq![] + v3s16_field(pos) + data =~= v3s16_field(pos) + data);
    assert((v3s16_field(pos) + data).skip(6) =~= data);
}

/// Added objects as they are written: id, type, and data behind its length.
pub open spec fn inits_bytes(added: Seq<InitView>) -> Seq<u8>
    decreases added.len(),
{
    if added.len() == 0 {
        seq![]
    } else {
        be16(added[0].id) + seq![added[0].ao_type] + be32(added[0].data.len() as u32)
            + added[0].data + inits_bytes(added.drop_first())
    }
}

#[verifier::rlimit(50)]
proof fn init_comes_back(before: Seq<u8>, o: InitView, more: Seq<u8>)
    requires
        o.data.len() <= u32::MAX,
    ensures
        ({
            let front = be16(o.id) + seq![o.ao_type] + be32(o.data.len() as u32) + o.data;
            init_in(before + front + more, before.len() as int) == Some(
                (o, (before + front).len() as int),
            )
        }),
{
    let a = be16(o.id);
    let b = seq![o.ao_type];
    let c = be32(o.data.len() as u32);
    let d = o.data;
    let p = before + (a + b + c + d) + more;
    regrouped(before, a, b, c, d, more);
    assert(p == before + a + b + c + d + more);
    numbers_come_back(before, o.id, 0, b + c + d + more);
    part_between(before + a, b, c + d + more);
    numbers_come_back(before + a + b, 0, o.data.len() as u32, d + more);
    part_between(before + a + b + c, d, more);
    assert((before + a).len() == before.len() + 2);
    assert((before + a + b).len() == before.len() + 3);
    assert((before + a + b + c).len() == before.len() + 7);
}

#[verifier::rlimit(50)]
proof fn inits_come_back(before: Seq<u8>, added: Seq<InitView>, after: Seq<u8>)
    requires
        forall|i: int| 0 <= i < added.len() ==> (#[trigger] added[i]).data.len() <= u32::MAX,
    ensures
        inits_in(before + inits_bytes(added) + after, before.len() as int, added.len()) == Some(
            added,
        ),
    decreases added.len(),
{
    let p = before + inits_bytes(added) + after;
    let at = before.len() as int;
    if added.len() == 0 {
        assert(added =~= seq![]);
    } else {
        let o = added[0];
        let rest = added.drop_first();
        let n = o.data.len() as u32;
        assert forall|i: int| 0 <= i < rest.len() implies (#[trigger] rest[i]).data.len()
            <= u32::MAX by {
            assert(rest[i] == added[i + 1]);
        }
        let more = inits_bytes(rest) + after;
        init_comes_back(before, o, more);
        let front = be16(o.id) + seq![o.ao_type] + be32(n) + o.data;
        regrouped(before, front, inits_bytes(rest), after, seq![], seq![]);
        assert(inits_bytes(added) == front + inits_bytes(rest));
        inits_come_back(before + front, rest, after);
        assert(seq![o] + rest =~= added);
    }
}

/// The objects that come and go are read as they were written: the numbers of all that go,
/// and all that come with their types and data, in order.
#[verifier::rlimit(50)]
pub proof fn objects_are_read_as_written(removed: Seq<u16>, added: Seq<InitView>, after: Seq<u8>)
    requires
        removed.len() <= 65535,
        added.len() <= 65535,
        forall|i: int| 0 <= i < added.len() ==> (#[trigger] added[i]).data.len() <= u32::MAX,
    ensures
        command_event(
            0x31,
            be16(removed.len() as u16) + units_be(removed) + be16(added.len() as u16)
                + inits_bytes(added) + after,
        ) == Some(EventView::ActiveObjectRemoveAdd { removed, added }),
{
    let n = removed.len() as u16;
    let m = added.len() as u16;
    let a = be16(n);
    let b = units_be(removed);
    let c = be16(m);
    let d = inits_bytes(added);
    let p = a + b + c + d + after;
    regrouped(a, b, c, d, after, seq![]);
    regrouped(a, b + c + d + after, seq![], seq![], seq![], seq![]);
    numbers_come_back(seq![], n, 0, b + c + d + after);
    assert(Seq::<u8>::empty() + a =~= a);
    numbers_come_back(a + b, m, 0, d + after);
    inits_come_back(a + b + c, added, after);
    assert(a.len() == 2 && (a + b).len() == 2 + 2 * n && (a + b + c).len() == 4 + 2 * n);
    units_come_back(a, removed, c + d + after);
}

/// Object messages as they are written: id, and data behind its length.
pub open spec fn messages_bytes(messages: Seq<MessageView>) -> Seq<u8>
    decreases messages.len(),
{
    if messages.len() == 0 {
        seq![]
    } else {
        be16(messages[0].id) + be16(messages[0].data.len() as u16) + messages[0].data
            + messages_bytes(messages.drop_first())
    }
}

#[verifier::rlimit(50)]
proof fn messages_come_back(before: Seq<u8>, messages: Seq<MessageView>)
    requires
        forall|i: int| 0 <= i < messages.len() ==> (#[trigger] messages[i]).data.len() <= 65535,
    ensures
        messages_in(before + messages_bytes(messages), before.len() as int) == Some(messages),
    decreases messages.len(),
{
    let p = before + messages_bytes(messages);
    let at = before.len() as int;
    if messages.len() == 0 {
        assert(messages =~= seq![]);
    } else {
        let o = messages[0];
        let rest = messages.drop_first();
        let n = o.data.len() as u16;
        let front = be16(o.id) + be16(n) + o.data;
        assert(p =~= before + be16(o.id) + (be16(n) + o.data + messages_bytes(rest)));
        numbers_come_back(before, o.id, 0, be16(n) + o.data + messages_bytes(rest));
        assert(p =~= (before + be16(o.id)) + be16(n) + (o.data + messages_bytes(rest)));
        numbers_come_back(before + be16(o.id), n, 0, o.data + messages_bytes(rest));
        assert(p.subrange(at + 4, at + 4 + o.data.len()) =~= o.data);
        assert(p =~= (before + front) + messages_bytes(rest));
        assert forall|i: int| 0 <= i < rest.len() implies (#[trigger] rest[i]).data.len()
            <= 65535 by {
            assert(rest[i] == messages[i + 1]);
        }
        messages_come_back(before + front, rest);
        assert(seq![o] + rest =~= messages);
    }
}

/// Object messages are read as they were written, all of them and in order.
pub proof fn object_messages_are_read_as_written(messages: Seq<MessageView>)
    requires
        forall|i: int| 0 <= i < messages.len() ==> (#[trigger] messages[i]).data.len() <= 65535,
    ensures
        command_event(0x32, messages_bytes(messages)) == Some(
            EventView::ActiveObjectMessages { messages },
        ),
{
    messages_come_back(seq![], messages);
    assert(Seq::<u8>::empty() + messages_bytes(messages) =~= messages_bytes(messages));
}

#[verifier::rlimit(50)]
proof fn salt_and_value(salt: Seq<u8>, b: Seq<u8>, after: Seq<u8>)
    requires
        salt.len() <= 65535,
        b.len() <= 65535,
    ensures
        ({
            let p = bytes_field(salt) + bytes_field(b) + after;
            let next = 2 + salt.len() as int;
            &&& bytes_in(p, 0) == Some((salt, next))
            &&& bytes_in(p, next) == Some((b, next + 2 + b.len()))
        }),
{
    let x = bytes_field(salt);
    let y = bytes_field(b);
    assert(x.len() == 2 + salt.len());
    assert(x + y + after == Seq::<u8>::empty() + x + (y + after)) by {
        regrouped(x, y, after, seq![], seq![], seq![]);
    }
    assert(bytes_in(x + y + after, 0) == Some((salt, 2 + salt.len() as int))) by {
        short_bytes_are_whole(seq![], salt, y + after);
    }
    assert(bytes_in(x + y + after, x.len() as int) == Some(
        (b, x.len() as int + 2 + b.len()),
    )) by {
        short_bytes_are_whole(x, b, after);
    }
}

proof fn two_fields(p: Seq<u8>, salt: Seq<u8>, next: int, b: Seq<u8>, end: int)
    requires
        bytes_in(p, 0) == Some((salt, next)),
        bytes_in(p, next) == Some((b, end)),
    ensures
        command_event(0x60, p) == Some(EventView::SrpBytesSB { salt, b }),
{
}

/// The server's answer to a login is read as it was written: the salt, then its public value.
#[verifier::rlimit(50)]
pub proof fn srp_answer_is_read_as_written(salt: Seq<u8>, b: Seq<u8>, after: Seq<u8>)
    requires
        salt.len() <= 65535,
        b.len() <= 65535,
    ensures
        command_event(0x60, bytes_field(salt) + bytes_field(b) + after) == Some(
            EventView::SrpBytesSB { salt, b },
        ),
{
    let x = bytes_field(salt);
    let p = x + bytes_field(b) + after;
    salt_and_value(salt, b, after);
    two_fields(p, salt, 2 + salt.len() as int, b, 4 + salt.len() as int + b.len() as int);
}

/// Node definitions are read as they were written: the data behind its length.
#[verifier::rlimit(50)]
pub proof fn node_definitions_are_read_as_written(data: Seq<u8>, after: Seq<u8>)
    requires
        data.len() <= u32::MAX,
    ensures
        command_event(0x3a, be32(data.len() as u32) + data + after) == Some(
            EventView::NodeDef { data },
        ),
{
    let p = be32(data.len() as u32) + data + after;
    assert(p =~= Seq::<u8>::empty() + be32(data.len() as u32) + (data + after));
    numbers_come_back(seq![], 0, data.len() as u32, data + after);
    assert(p.subrange(4, 4 + data.len() as int) =~= data);
}

/// A chat message is read as it was written: its type, who sent it, and what it says.
#[verifier::rlimit(50)]
pub proof fn chat_is_read_as_written(
    version: u8,
    message_type: u8,
    sender: Seq<char>,
    message: Seq<char>,
    after: Seq<u8>,
)
    requires
        encode_utf16(sender).len() <= 65535,
        encode_utf16(message).len() <= 65535,
    ensures
        command_event(
            0x2f,
            seq![version, message_type] + wstring_field(sender) + wstring_field(message) + after,
        ) == Some(EventView::ChatMessage { message_type, sender, message }),
{
    let front = seq![version, message_type];
    let p = front + wstring_field(sender) + wstring_field(message) + after;
    assert(p =~= front + wstring_field(sender) + (wstring_field(message) + after));
    short_texts_are_whole(front, sender, wstring_field(message) + after);
    short_texts_are_whole(front + wstring_field(sender), message, after);
}

/// A refusal is read as it was written, and the commands without payload are known by
/// their number alone. No other number is a command.
pub proof fn other_commands_are_told_apart(cmd: u16, reason: u8, p: Seq<u8>)
    ensures
        command_event(0x0a, seq![reason] + p) == Some(EventView::AccessDenied { reason }),
        command_event(0x3d, p) == Some(EventView::ItemDef),
        command_event(0x3c, p) == Some(EventView::MediaAnnounce),
        command_event(cmd, p) is Some ==> {
            ||| cmd == 0x02 && command_event(cmd, p)->0 is ToClientHello
            ||| cmd == 0x03 && command_event(cmd, p)->0 is AuthAccept
            ||| cmd == 0x0a && command_event(cmd, p)->0 is AccessDenied
            ||| cmd == 0x20 && command_event(cmd, p)->0 is BlockData
            ||| cmd == 0x2f && command_event(cmd, p)->0 is ChatMessage
            ||| cmd == 0x31 && command_event(cmd, p)->0 is ActiveObjectRemoveAdd
            ||| cmd == 0x32 && command_event(cmd, p)->0 is ActiveObjectMessages
            ||| cmd == 0x34 && command_event(cmd, p)->0 is MovePlayer
            ||| cmd == 0x3a && command_event(cmd, p)->0 is NodeDef
            ||| cmd == 0x3c && command_event(cmd, p)->0 is MediaAnnounce
            ||| cmd == 0x3d && command_event(cmd, p)->0 is ItemDef
            ||| cmd == 0x45 && command_event(cmd, p)->0 is Movement
            ||| cmd == 0x60 && command_event(cmd, p)->0 is SrpBytesSB
        },
{
}

/// A payload that ends too early is no event.
pub proof fn short_payloads_are_no_events(p: Seq<u8>)
    ensures
        p.len() < 11 ==> command_event(0x02, p) is None,
        p.len() < 24 ==> command_event(0x03, p) is None,
        p.len() < 1 ==> command_event(0x0a, p) is None,
        p.len() < 6 ==> command_event(0x20, p) is None,
        p.len() < 6 ==> command_event(0x2f, p) is None,
        p.len() < 4 ==> command_event(0x31, p) is None,
        0 < p.len() < 4 ==> command_event(0x32, p) is None,
        p.len() < 20 ==> command_event(0x34, p) is None,
        p.len() < 4 ==> command_event(0x3a, p) is None,
        p.len() < 48 ==> command_event(0x45, p) is None,
        p.len() < 4 ==> command_event(0x60, p) is None,
{
}

} // verus!
