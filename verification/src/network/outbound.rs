//! Encode client commands; the connection owns reliability framing.

use super::connection::{sent_reliably, sent_unreliably, ConnectionView, MtpConnection};
use super::events::InventoryLocation;
use super::protocol::{
    CLIENT_PROTOCOL_VERSION_MIN, LATEST_PROTOCOL_VERSION, SER_FMT_VER_HIGHEST_READ,
    TOSERVER_CHAT_MESSAGE, TOSERVER_CLIENT_READY, TOSERVER_FIRST_SRP, TOSERVER_GOTBLOCKS,
    TOSERVER_HAVE_MEDIA, TOSERVER_INIT, TOSERVER_INIT2, TOSERVER_INTERACT,
    TOSERVER_INVENTORY_ACTION, TOSERVER_PLAYERITEM, TOSERVER_PLAYERPOS, TOSERVER_SRP_BYTES_A,
    TOSERVER_SRP_BYTES_M, VERSION_MAJOR, VERSION_MINOR, VERSION_PATCH,
};
use super::wire::{
    be16, be32, bytes_field, encode_utf16, numbers_come_back, part_between,
    position_field_comes_back, regrouped, short_bytes_are_whole, short_texts_are_whole,
    string_field, string_in, u16_at, u32_at, unsigned32, v3s16_field, v3s16_in, write_bytes,
    write_f32, write_s32, write_string, write_u16, write_u32, write_v3s16, write_wstring,
    wstring_field, wstring_in,
};
use crate::game::player::{is_sendable, sendable, PlayerState, WireFields};
use crate::text::{dec, push_all, push_dec, to_chars};
use crate::types::{BlockPos, IVec3};
use vstd::prelude::*;
use vstd::string::*;
use vstd::utf8::*;

verus! {

/// Why a command was not encoded.
#[derive(Debug)]
pub enum OutboundError {
    ZeroMoveCount,
    ZeroCraftCount,
    /// An inventory list with a name that is not an identifier.
    ListName(String),
    /// A node coordinate that does not fit the wire.
    Coordinate { label: Label, axis: Axis, value: i32 },
    /// A player state that is not finite or out of range, in words.
    UnsafeState(String),
}

/// What a rejected coordinate belongs to.
#[derive(Clone, Copy, Debug, PartialEq, Eq, Structural)]
pub enum Label {
    Under,
    Above,
    Inventory,
}

#[derive(Clone, Copy, Debug, PartialEq, Eq, Structural)]
pub enum Axis {
    X,
    Y,
    Z,
}

/// The value of an [`OutboundError`].
pub ghost enum OutboundErrorView {
    ZeroMoveCount,
    ZeroCraftCount,
    ListName(Seq<char>),
    Coordinate { label: Label, axis: Axis, value: i32 },
    UnsafeState(Seq<char>),
}

impl View for OutboundError {
    type V = OutboundErrorView;

    open spec fn view(&self) -> OutboundErrorView {
        match *self {
            OutboundError::ZeroMoveCount => OutboundErrorView::ZeroMoveCount,
            OutboundError::ZeroCraftCount => OutboundErrorView::ZeroCraftCount,
            OutboundError::ListName(name) => OutboundErrorView::ListName(name@),
            OutboundError::Coordinate { label, axis, value } => OutboundErrorView::Coordinate {
                label,
                axis,
                value,
            },
            OutboundError::UnsafeState(summary) => OutboundErrorView::UnsafeState(summary@),
        }
    }
}

pub open spec fn label_text(label: Label) -> Seq<char> {
    match label {
        Label::Under => "under"@,
        Label::Above => "above"@,
        Label::Inventory => "inventory"@,
    }
}

pub open spec fn axis_text(axis: Axis) -> Seq<char> {
    match axis {
        Axis::X => "x"@,
        Axis::Y => "y"@,
        Axis::Z => "z"@,
    }
}

/// An error in words.
pub open spec fn outbound_error_text(e: OutboundErrorView) -> Seq<char> {
    match e {
        OutboundErrorView::ZeroMoveCount => "inventory move count must be positive"@,
        OutboundErrorView::ZeroCraftCount => "inventory craft count must be positive"@,
        OutboundErrorView::ListName(name) => "invalid inventory list name '"@ + name + "'"@,
        OutboundErrorView::Coordinate { label, axis, value } => label_text(label) + " node "@
            + axis_text(axis) + " coordinate "@ + dec(value as int) + " does not fit i16"@,
        OutboundErrorView::UnsafeState(summary) => "refusing unsafe player state: "@ + summary,
    }
}

impl OutboundError {
    pub fn message(&self) -> (text: String)
        ensures
            text@ == outbound_error_text(self@),
    {
        match self {
            OutboundError::ZeroMoveCount => "inventory move count must be positive".to_owned(),
            OutboundError::ZeroCraftCount => "inventory craft count must be positive".to_owned(),
            OutboundError::ListName(name) => {
                let mut s = "invalid inventory list name '".to_owned();
                s.append(name.as_str());
                s.append("'");
                s
            },
            OutboundError::Coordinate { label, axis, value } => {
                let mut s = match label {
                    Label::Under => "under".to_owned(),
                    Label::Above => "above".to_owned(),
                    Label::Inventory => "inventory".to_owned(),
                };
                s.append(" node ");
                s.append(
                    match axis {
                        Axis::X => "x",
                        Axis::Y => "y",
                        Axis::Z => "z",
                    },
                );
                s.append(" coordinate ");
                push_dec(&mut s, *value as i64);
                s.append(" does not fit i16");
                s
            },
            OutboundError::UnsafeState(summary) => {
                let mut s = "refusing unsafe player state: ".to_owned();
                s.append(summary.as_str());
                s
            },
        }
    }
}

/// The 47 bytes of a player's state.
pub open spec fn player_state_fields(s: PlayerState, f: WireFields) -> Seq<u8> {
    be32(unsigned32(f.pos.x)) + be32(unsigned32(f.pos.y)) + be32(unsigned32(f.pos.z)) + be32(
        unsigned32(f.speed.x),
    ) + be32(unsigned32(f.speed.y)) + be32(unsigned32(f.speed.z)) + be32(unsigned32(f.pitch))
        + be32(unsigned32(f.yaw)) + be32(s.key_pressed) + seq![
        f.fov,
        f.wanted_range,
        if s.camera_inverted {
            1u8
        } else {
            0u8
        },
    ] + be32(s.movement_speed) + be32(s.movement_dir)
}

pub fn write_player_state_fields(buf: &mut Vec<u8>, state: &PlayerState, fields: &WireFields)
    ensures
        final(buf)@ == old(buf)@ + player_state_fields(*state, *fields),
        player_state_fields(*state, *fields).len() == 47,
{
    write_s32(buf, fields.pos.x);
    write_s32(buf, fields.pos.y);
    write_s32(buf, fields.pos.z);
    write_s32(buf, fields.speed.x);
    write_s32(buf, fields.speed.y);
    write_s32(buf, fields.speed.z);
    write_s32(buf, fields.pitch);
    write_s32(buf, fields.yaw);
    write_u32(buf, state.key_pressed);
    buf.push(fields.fov);
    buf.push(fields.wanted_range);
    buf.push(if state.camera_inverted { 1 } else { 0 });
    write_f32(buf, state.movement_speed);
    write_f32(buf, state.movement_dir);
    assert(buf@ =~= old(buf)@ + player_state_fields(*state, *fields));
}

/// Refuses a state that is not finite or out of range.
pub fn validate_outbound_player_state(state: &PlayerState, fields: &WireFields) -> (result: Result<
    (),
    OutboundError,
>)
    ensures
        match result {
            Ok(()) => sendable(*state),
            Err(e) => !sendable(*state) && e@ == OutboundErrorView::UnsafeState(fields.summary@),
        },
{
    if is_sendable(state) {
        Ok(())
    } else {
        Err(OutboundError::UnsafeState(fields.summary.clone()))
    }
}

pub open spec fn fits16(v: i32) -> bool {
    i16::MIN <= v <= i16::MAX
}

pub open spec fn fits_v3s16(p: IVec3) -> bool {
    fits16(p.x) && fits16(p.y) && fits16(p.z)
}

pub open spec fn to_v3s16(p: IVec3) -> BlockPos {
    BlockPos { x: p.x as i16, y: p.y as i16, z: p.z as i16 }
}

/// The error for a position that does not fit: its first coordinate that does not.
pub open spec fn misfit(p: IVec3, label: Label) -> OutboundErrorView {
    if !fits16(p.x) {
        OutboundErrorView::Coordinate { label, axis: Axis::X, value: p.x }
    } else if !fits16(p.y) {
        OutboundErrorView::Coordinate { label, axis: Axis::Y, value: p.y }
    } else {
        OutboundErrorView::Coordinate { label, axis: Axis::Z, value: p.z }
    }
}

fn fits(v: i32) -> (ok: bool)
    ensures
        ok == fits16(v),
{
    -0x8000 <= v && v <= 0x7fff
}

/// The position in the wire's 16 bits, if it fits.
pub fn checked_block_pos(pos: IVec3, label: Label) -> (result: Result<BlockPos, OutboundError>)
    ensures
        match result {
            Ok(p) => fits_v3s16(pos) && p == to_v3s16(pos),
            Err(e) => !fits_v3s16(pos) && e@ == misfit(pos, label),
        },
{
    if !fits(pos.x) {
        return Err(OutboundError::Coordinate { label, axis: Axis::X, value: pos.x });
    }
    if !fits(pos.y) {
        return Err(OutboundError::Coordinate { label, axis: Axis::Y, value: pos.y });
    }
    if !fits(pos.z) {
        return Err(OutboundError::Coordinate { label, axis: Axis::Z, value: pos.z });
    }
    Ok(BlockPos { x: pos.x as i16, y: pos.y as i16, z: pos.z as i16 })
}

pub open spec fn is_list_char(c: char) -> bool {
    ('a' <= c <= 'z') || ('A' <= c <= 'Z') || ('0' <= c <= '9') || c == '_'
}

/// A list name is an identifier: one or more ASCII letters, digits and underscores.
pub open spec fn valid_list_name(name: Seq<char>) -> bool {
    name.len() > 0 && forall|i: int| 0 <= i < name.len() ==> is_list_char(#[trigger] name[i])
}

pub fn validate_inventory_list_name(name: &str) -> (result: Result<(), OutboundError>)
    ensures
        match result {
            Ok(()) => valid_list_name(name@),
            Err(e) => !valid_list_name(name@) && e@ == OutboundErrorView::ListName(name@),
        },
{
    let chars: Vec<char> = to_chars(name);
    if chars.len() == 0 {
        return Err(OutboundError::ListName(name.to_owned()));
    }
    let mut i: usize = 0;
    while i < chars.len()
        invariant
            i <= chars.len(),
            chars@ == name@,
            forall|k: int| 0 <= k < i ==> is_list_char(#[trigger] name@[k]),
        decreases chars.len() - i,
    {
        let c: char = chars[i];
        if !(('a' <= c && c <= 'z') || ('A' <= c && c <= 'Z') || ('0' <= c && c <= '9') || c
            == '_') {
            return Err(OutboundError::ListName(name.to_owned()));
        }
        i = i + 1;
    }
    Ok(())
}

pub open spec fn location_fits(location: InventoryLocation) -> bool {
    match location {
        InventoryLocation::CurrentPlayer => true,
        InventoryLocation::NodeMeta(pos) => fits_v3s16(pos),
    }
}

pub open spec fn location_misfit(location: InventoryLocation) -> OutboundErrorView {
    match location {
        InventoryLocation::CurrentPlayer => OutboundErrorView::ZeroMoveCount,
        InventoryLocation::NodeMeta(pos) => misfit(pos, Label::Inventory),
    }
}

/// A location as inventory actions name it.
pub open spec fn location_text(location: InventoryLocation) -> Seq<char> {
    match location {
        InventoryLocation::CurrentPlayer => "current_player"@,
        InventoryLocation::NodeMeta(pos) => "nodemeta:"@ + dec(pos.x as int) + ","@ + dec(
            pos.y as int,
        ) + ","@ + dec(pos.z as int),
    }
}

pub fn serialize_inventory_location(location: InventoryLocation) -> (result: Result<
    String,
    OutboundError,
>)
    ensures
        match result {
            Ok(s) => location_fits(location) && s@ == location_text(location),
            Err(e) => !location_fits(location) && e@ == location_misfit(location),
        },
{
    match location {
        InventoryLocation::CurrentPlayer => Ok("current_player".to_owned()),
        InventoryLocation::NodeMeta(pos) => {
            let pos = checked_block_pos(pos, Label::Inventory)?;
            let mut s = "nodemeta:".to_owned();
            push_dec(&mut s, pos.x as i64);
            s.append(",");
            push_dec(&mut s, pos.y as i64);
            s.append(",");
            push_dec(&mut s, pos.z as i64);
            Ok(s)
        },
    }
}

/// Why a move between two inventories is refused, if it is: the first of its
/// faults in this order.
pub open spec fn move_error(
    count: u16,
    from: InventoryLocation,
    from_list: Seq<char>,
    to: InventoryLocation,
    to_list: Seq<char>,
) -> Option<OutboundErrorView> {
    if count == 0 {
        Some(OutboundErrorView::ZeroMoveCount)
    } else if !valid_list_name(from_list) {
        Some(OutboundErrorView::ListName(from_list))
    } else if !valid_list_name(to_list) {
        Some(OutboundErrorView::ListName(to_list))
    } else if !location_fits(from) {
        Some(location_misfit(from))
    } else if !location_fits(to) {
        Some(location_misfit(to))
    } else {
        None
    }
}

/// `<count> <from> <from list> <from index> <to> <to list>`
pub open spec fn move_text(
    count: u16,
    from: InventoryLocation,
    from_list: Seq<char>,
    from_index: u16,
    to: InventoryLocation,
    to_list: Seq<char>,
) -> Seq<char> {
    dec(count as int) + " "@ + location_text(from) + " "@ + from_list + " "@ + dec(
        from_index as int,
    ) + " "@ + location_text(to) + " "@ + to_list
}

/// An inventory action as the server parses it.
pub open spec fn action_payload(text: Seq<char>) -> Seq<u8> {
    be16(TOSERVER_INVENTORY_ACTION) + encode_utf8(text)
}

fn build_action_payload(text: &str) -> (payload: Vec<u8>)
    ensures
        payload@ == action_payload(text@),
{
    let mut payload: Vec<u8> = Vec::new();
    write_u16(&mut payload, TOSERVER_INVENTORY_ACTION);
    push_all(&mut payload, text.as_bytes());
    assert(payload@ =~= action_payload(text@));
    payload
}

fn push_move(
    text: &mut String,
    count: u16,
    from: InventoryLocation,
    from_list: &str,
    from_index: u16,
    to: InventoryLocation,
    to_list: &str,
) -> (result: Result<(), OutboundError>)
    ensures
        match result {
            Ok(()) => move_error(count, from, from_list@, to, to_list@) is None && final(text)@
                == old(text)@ + move_text(count, from, from_list@, from_index, to, to_list@),
            Err(e) => move_error(count, from, from_list@, to, to_list@) == Some(e@),
        },
{
    if count == 0 {
        return Err(OutboundError::ZeroMoveCount);
    }
    validate_inventory_list_name(from_list)?;
    validate_inventory_list_name(to_list)?;
    let from_text = serialize_inventory_location(from)?;
    let to_text = serialize_inventory_location(to)?;
    push_dec(text, count as i64);
    text.append(" ");
    text.append(from_text.as_str());
    text.append(" ");
    text.append(from_list);
    text.append(" ");
    push_dec(text, from_index as i64);
    text.append(" ");
    text.append(to_text.as_str());
    text.append(" ");
    text.append(to_list);
    assert(text@ =~= old(text)@ + move_text(count, from, from_list@, from_index, to, to_list@));
    Ok(())
}

/// The payload that moves items into any compatible destination slot.
pub open spec fn move_somewhere_payload(
    count: u16,
    from: InventoryLocation,
    from_list: Seq<char>,
    from_index: u16,
    to: InventoryLocation,
    to_list: Seq<char>,
) -> Seq<u8> {
    action_payload(
        "MoveSomewhere "@ + move_text(count, from, from_list, from_index, to, to_list),
    )
}

pub fn build_inventory_move_somewhere_payload(
    count: u16,
    from: InventoryLocation,
    from_list: &str,
    from_index: u16,
    to: InventoryLocation,
    to_list: &str,
) -> (result: Result<Vec<u8>, OutboundError>)
    ensures
        match result {
            Ok(payload) => move_error(count, from, from_list@, to, to_list@) is None && payload@
                == move_somewhere_payload(count, from, from_list@, from_index, to, to_list@),
            Err(e) => move_error(count, from, from_list@, to, to_list@) == Some(e@),
        },
{
    let mut text = "MoveSomewhere ".to_owned();
    push_move(&mut text, count, from, from_list, from_index, to, to_list)?;
    Ok(build_action_payload(text.as_str()))
}

/// The payload that moves items into one exact destination slot.
pub open spec fn move_payload(
    count: u16,
    from: InventoryLocation,
    from_list: Seq<char>,
    from_index: u16,
    to: InventoryLocation,
    to_list: Seq<char>,
    to_index: u16,
) -> Seq<u8> {
    action_payload(
        "Move "@ + move_text(count, from, from_list, from_index, to, to_list) + " "@ + dec(
            to_index as int,
        ),
    )
}

pub fn build_inventory_move_payload(
    count: u16,
    from: InventoryLocation,
    from_list: &str,
    from_index: u16,
    to: InventoryLocation,
    to_list: &str,
    to_index: u16,
) -> (result: Result<Vec<u8>, OutboundError>)
    ensures
        match result {
            Ok(payload) => move_error(count, from, from_list@, to, to_list@) is None && payload@
                == move_payload(count, from, from_list@, from_index, to, to_list@, to_index),
            Err(e) => move_error(count, from, from_list@, to, to_list@) == Some(e@),
        },
{
    let mut text = "Move ".to_owned();
    push_move(&mut text, count, from, from_list, from_index, to, to_list)?;
    text.append(" ");
    push_dec(&mut text, to_index as i64);
    Ok(build_action_payload(text.as_str()))
}

pub open spec fn craft_payload(count: u16) -> Seq<u8> {
    action_payload("Craft "@ + dec(count as int) + " current_player"@)
}

pub fn build_inventory_craft_payload(count: u16) -> (result: Result<Vec<u8>, OutboundError>)
    ensures
        match result {
            Ok(payload) => count > 0 && payload@ == craft_payload(count),
            Err(e) => count == 0 && e@ == OutboundErrorView::ZeroCraftCount,
        },
{
    if count == 0 {
        return Err(OutboundError::ZeroCraftCount);
    }
    let mut text = "Craft ".to_owned();
    push_dec(&mut text, count as i64);
    text.append(" current_player");
    Ok(build_action_payload(text.as_str()))
}

pub open spec fn wield_payload(wield_index: u16) -> Seq<u8> {
    be16(TOSERVER_PLAYERITEM) + be16(wield_index)
}

pub fn build_wield_selection_payload(wield_index: u16) -> (payload: Vec<u8>)
    ensures
        payload@ == wield_payload(wield_index),
{
    let mut payload: Vec<u8> = Vec::new();
    write_u16(&mut payload, TOSERVER_PLAYERITEM);
    write_u16(&mut payload, wield_index);
    assert(payload@ =~= wield_payload(wield_index));
    payload
}

/// Why an interaction with a node is refused, if it is.
pub open spec fn interact_error(
    under: IVec3,
    above: IVec3,
    state: PlayerState,
    fields: WireFields,
) -> Option<OutboundErrorView> {
    if !sendable(state) {
        Some(OutboundErrorView::UnsafeState(fields.summary@))
    } else if !fits_v3s16(under) {
        Some(misfit(under, Label::Under))
    } else if !fits_v3s16(above) {
        Some(misfit(above, Label::Above))
    } else {
        None
    }
}

/// A serialized `PointedThing`, version 0, that points at a node.
pub open spec fn pointed_node(under: IVec3, above: IVec3) -> Seq<u8> {
    seq![0u8, 1u8] + v3s16_field(to_v3s16(under)) + v3s16_field(to_v3s16(above))
}

pub open spec fn node_interact_payload(
    action: u8,
    wield_index: u16,
    under: IVec3,
    above: IVec3,
    state: PlayerState,
    fields: WireFields,
) -> Seq<u8> {
    be16(TOSERVER_INTERACT) + seq![action] + be16(wield_index) + be32(14) + pointed_node(
        under,
        above,
    ) + player_state_fields(state, fields)
}

pub fn build_node_interact_payload(
    action: u8,
    wield_index: u16,
    under: IVec3,
    above: IVec3,
    state: &PlayerState,
    fields: &WireFields,
) -> (result: Result<Vec<u8>, OutboundError>)
    ensures
        match result {
            Ok(payload) => interact_error(under, above, *state, *fields) is None && payload@
                == node_interact_payload(action, wield_index, under, above, *state, *fields),
            Err(e) => interact_error(under, above, *state, *fields) == Some(e@),
        },
{
    validate_outbound_player_state(state, fields)?;
    let under16 = checked_block_pos(under, Label::Under)?;
    let above16 = checked_block_pos(above, Label::Above)?;
    let mut payload: Vec<u8> = Vec::new();
    write_u16(&mut payload, TOSERVER_INTERACT);
    payload.push(action);
    write_u16(&mut payload, wield_index);
    write_u32(&mut payload, 14);
    payload.push(0);
    payload.push(1);
    write_v3s16(&mut payload, under16);
    write_v3s16(&mut payload, above16);
    write_player_state_fields(&mut payload, state, fields);
    assert(payload@ =~= node_interact_payload(action, wield_index, under, above, *state, *fields));
    Ok(payload)
}

/// An interaction with an active object: a `PointedThing` that names its id.
pub open spec fn object_interact_payload(
    action: u8,
    object_id: u16,
    state: PlayerState,
    fields: WireFields,
) -> Seq<u8> {
    be16(TOSERVER_INTERACT) + seq![action] + be16(0) + be32(4) + seq![0u8, 2u8] + be16(object_id)
        + player_state_fields(state, fields)
}

pub open spec fn init_payload(player: Seq<char>) -> Seq<u8> {
    be16(TOSERVER_INIT) + seq![SER_FMT_VER_HIGHEST_READ] + be16(0) + be16(
        CLIENT_PROTOCOL_VERSION_MIN,
    ) + be16(LATEST_PROTOCOL_VERSION) + string_field(player)
}

pub open spec fn first_srp_payload(salt: Seq<u8>, verifier: Seq<u8>, empty: bool) -> Seq<u8> {
    be16(TOSERVER_FIRST_SRP) + bytes_field(salt) + bytes_field(verifier) + seq![
        if empty {
            1u8
        } else {
            0u8
        },
    ]
}

pub open spec fn srp_a_payload(a: Seq<u8>) -> Seq<u8> {
    be16(TOSERVER_SRP_BYTES_A) + bytes_field(a) + seq![1u8]
}

pub open spec fn srp_m_payload(m: Seq<u8>) -> Seq<u8> {
    be16(TOSERVER_SRP_BYTES_M) + bytes_field(m)
}

pub open spec fn client_ready_payload() -> Seq<u8> {
    be16(TOSERVER_CLIENT_READY) + seq![VERSION_MAJOR, VERSION_MINOR, VERSION_PATCH, 0u8]
        + string_field("luanti-proto-bot"@)
}

pub open spec fn have_media_payload() -> Seq<u8> {
    be16(TOSERVER_HAVE_MEDIA) + seq![0u8]
}

pub open spec fn playerpos_payload(state: PlayerState, fields: WireFields) -> Seq<u8> {
    be16(TOSERVER_PLAYERPOS) + player_state_fields(state, fields)
}

/// The positions one behind the other.
pub open spec fn positions_field(blocks: Seq<BlockPos>) -> Seq<u8>
    decreases blocks.len(),
{
    if blocks.len() == 0 {
        seq![]
    } else {
        positions_field(blocks.drop_last()) + v3s16_field(blocks.last())
    }
}

/// At most 255 blocks, behind their count.
pub open spec fn gotblocks_payload(blocks: Seq<BlockPos>) -> Seq<u8> {
    let count = if blocks.len() < 255 { blocks.len() as int } else { 255 };
    be16(TOSERVER_GOTBLOCKS) + seq![count as u8] + positions_field(blocks.take(count))
}

pub open spec fn chat_payload(message: Seq<char>) -> Seq<u8> {
    be16(TOSERVER_CHAT_MESSAGE) + wstring_field(message)
}

/// The connection once a chat message has been sent.
pub open spec fn chat_sent(c: ConnectionView, message: Seq<char>) -> ConnectionView {
    sent_reliably(c, chat_payload(message))
}

impl MtpConnection {
    pub fn send_init(&mut self, player: &str)
        requires
            old(self).wf(),
        ensures
            final(self).wf(),
            final(self)@ == sent_reliably(old(self)@, init_payload(player@)),
    {
        let mut payload: Vec<u8> = Vec::new();
        write_u16(&mut payload, TOSERVER_INIT);
        payload.push(SER_FMT_VER_HIGHEST_READ);
        write_u16(&mut payload, 0);
        write_u16(&mut payload, CLIENT_PROTOCOL_VERSION_MIN);
        write_u16(&mut payload, LATEST_PROTOCOL_VERSION);
        write_string(&mut payload, player);
        assert(payload@ =~= init_payload(player@));
        self.send_reliable(payload)
    }

    /// Registers the player with a salt and a verifier.
    pub fn send_srp_registration(&mut self, salt: &[u8], verifier: &[u8], empty_password: bool)
        requires
            old(self).wf(),
        ensures
            final(self).wf(),
            final(self)@ == sent_reliably(
                old(self)@,
                first_srp_payload(salt@, verifier@, empty_password),
            ),
    {
        let mut payload: Vec<u8> = Vec::new();
        write_u16(&mut payload, TOSERVER_FIRST_SRP);
        write_bytes(&mut payload, salt);
        write_bytes(&mut payload, verifier);
        payload.push(if empty_password { 1 } else { 0 });
        assert(payload@ =~= first_srp_payload(salt@, verifier@, empty_password));
        self.send_reliable(payload)
    }

    pub fn send_srp_a(&mut self, a_bytes: &[u8])
        requires
            old(self).wf(),
        ensures
            final(self).wf(),
            final(self)@ == sent_reliably(old(self)@, srp_a_payload(a_bytes@)),
    {
        let mut payload: Vec<u8> = Vec::new();
        write_u16(&mut payload, TOSERVER_SRP_BYTES_A);
        write_bytes(&mut payload, a_bytes);
        payload.push(1);
        assert(payload@ =~= srp_a_payload(a_bytes@));
        self.send_reliable(payload)
    }

    pub fn send_srp_m(&mut self, m: &[u8])
        requires
            old(self).wf(),
        ensures
            final(self).wf(),
            final(self)@ == sent_reliably(old(self)@, srp_m_payload(m@)),
    {
        let mut payload: Vec<u8> = Vec::new();
        write_u16(&mut payload, TOSERVER_SRP_BYTES_M);
        write_bytes(&mut payload, m);
        assert(payload@ =~= srp_m_payload(m@));
        self.send_reliable(payload)
    }

    pub fn send_init2(&mut self)
        requires
            old(self).wf(),
        ensures
            final(self).wf(),
            final(self)@ == sent_reliably(old(self)@, be16(TOSERVER_INIT2)),
    {
        let mut payload: Vec<u8> = Vec::new();
        write_u16(&mut payload, TOSERVER_INIT2);
        assert(payload@ =~= be16(TOSERVER_INIT2));
        self.send_reliable(payload)
    }

    pub fn send_client_ready(&mut self)
        requires
            old(self).wf(),
        ensures
            final(self).wf(),
            final(self)@ == sent_reliably(old(self)@, client_ready_payload()),
    {
        let mut payload: Vec<u8> = Vec::new();
        write_u16(&mut payload, TOSERVER_CLIENT_READY);
        payload.push(VERSION_MAJOR);
        payload.push(VERSION_MINOR);
        payload.push(VERSION_PATCH);
        payload.push(0);
        write_string(&mut payload, "luanti-proto-bot");
        assert(payload@ =~= client_ready_payload());
        self.send_reliable(payload)
    }

    pub fn send_have_media(&mut self)
        requires
            old(self).wf(),
        ensures
            final(self).wf(),
            final(self)@ == sent_reliably(old(self)@, have_media_payload()),
    {
        let mut payload: Vec<u8> = Vec::new();
        write_u16(&mut payload, TOSERVER_HAVE_MEDIA);
        payload.push(0);
        assert(payload@ =~= have_media_payload());
        self.send_reliable(payload)
    }

    /// Reports where the player is; a state that may not be sent is refused, and
    /// nothing is sent.
    pub fn send_playerpos(&mut self, state: &PlayerState, fields: &WireFields) -> (result: Result<
        (),
        OutboundError,
    >)
        requires
            old(self).wf(),
        ensures
            final(self).wf(),
            match result {
                Ok(()) => sendable(*state) && final(self)@ == sent_unreliably(
                    old(self)@,
                    playerpos_payload(*state, *fields),
                ),
                Err(e) => !sendable(*state) && e@ == OutboundErrorView::UnsafeState(
                    fields.summary@,
                ) && final(self)@ == old(self)@,
            },
    {
        validate_outbound_player_state(state, fields)?;
        let mut payload: Vec<u8> = Vec::new();
        write_u16(&mut payload, TOSERVER_PLAYERPOS);
        write_player_state_fields(&mut payload, state, fields);
        assert(payload@ =~= playerpos_payload(*state, *fields));
        self.send_unreliable(payload);
        Ok(())
    }

    /// Selects the zero-based inventory slot reported as the player's wielded item.
    pub fn select_wield_index(&mut self, wield_index: u16)
        requires
            old(self).wf(),
        ensures
            final(self).wf(),
            final(self)@ == sent_reliably(old(self)@, wield_payload(wield_index)),
    {
        let payload: Vec<u8> = build_wield_selection_payload(wield_index);
        self.send_reliable(payload)
    }

    /// Selects the wielded item.
    pub fn send_playeritem(&mut self, item: u16)
        requires
            old(self).wf(),
        ensures
            final(self).wf(),
            final(self)@ == sent_reliably(old(self)@, wield_payload(item)),
    {
        self.select_wield_index(item)
    }

    /// Sends a node interaction using Luanti's serialized `PointedThing` format.
    pub fn send_node_interact(
        &mut self,
        action: u8,
        wield_index: u16,
        under: IVec3,
        above: IVec3,
        state: &PlayerState,
        fields: &WireFields,
    ) -> (result: Result<(), OutboundError>)
        requires
            old(self).wf(),
        ensures
            final(self).wf(),
            match result {
                Ok(()) => interact_error(under, above, *state, *fields) is None && final(self)@
                    == sent_reliably(
                    old(self)@,
                    node_interact_payload(action, wield_index, under, above, *state, *fields),
                ),
                Err(e) => interact_error(under, above, *state, *fields) == Some(e@) && final(self)@
                    == old(self)@,
            },
    {
        let payload: Vec<u8> = build_node_interact_payload(
            action,
            wield_index,
            under,
            above,
            state,
            fields,
        )?;
        self.send_reliable(payload);
        Ok(())
    }

    /// Sends an interaction with an active object.
    pub fn send_interact_object(
        &mut self,
        action: u8,
        object_id: u16,
        state: &PlayerState,
        fields: &WireFields,
    ) -> (result: Result<(), OutboundError>)
        requires
            old(self).wf(),
        ensures
            final(self).wf(),
            match result {
                Ok(()) => sendable(*state) && final(self)@ == sent_reliably(
                    old(self)@,
                    object_interact_payload(action, object_id, *state, *fields),
                ),
                Err(e) => !sendable(*state) && e@ == OutboundErrorView::UnsafeState(
                    fields.summary@,
                ) && final(self)@ == old(self)@,
            },
    {
        validate_outbound_player_state(state, fields)?;
        let mut payload: Vec<u8> = Vec::new();
        write_u16(&mut payload, TOSERVER_INTERACT);
        payload.push(action);
        write_u16(&mut payload, 0);
        write_u32(&mut payload, 4);
        payload.push(0);
        payload.push(2);
        write_u16(&mut payload, object_id);
        write_player_state_fields(&mut payload, state, fields);
        assert(payload@ =~= object_interact_payload(action, object_id, *state, *fields));
        self.send_reliable(payload);
        Ok(())
    }

    /// Moves a positive number of items from one zero-based inventory slot into any
    /// compatible destination slot. The server applies its normal reach, privilege,
    /// protection, callback and rollback rules.
    pub fn send_inventory_move_somewhere(
        &mut self,
        count: u16,
        from: InventoryLocation,
        from_list: &str,
        from_index: u16,
        to: InventoryLocation,
        to_list: &str,
    ) -> (result: Result<(), OutboundError>)
        requires
            old(self).wf(),
        ensures
            final(self).wf(),
            match result {
                Ok(()) => move_error(count, from, from_list@, to, to_list@) is None && final(self)@
                    == sent_reliably(
                    old(self)@,
                    move_somewhere_payload(count, from, from_list@, from_index, to, to_list@),
                ),
                Err(e) => move_error(count, from, from_list@, to, to_list@) == Some(e@) && final(self)@
                    == old(self)@,
            },
    {
        let payload: Vec<u8> = build_inventory_move_somewhere_payload(
            count,
            from,
            from_list,
            from_index,
            to,
            to_list,
        )?;
        self.send_reliable(payload);
        Ok(())
    }

    /// Moves items into one exact zero-based destination slot, as the crafting grid
    /// needs it.
    pub fn send_inventory_move(
        &mut self,
        count: u16,
        from: InventoryLocation,
        from_list: &str,
        from_index: u16,
        to: InventoryLocation,
        to_list: &str,
        to_index: u16,
    ) -> (result: Result<(), OutboundError>)
        requires
            old(self).wf(),
        ensures
            final(self).wf(),
            match result {
                Ok(()) => move_error(count, from, from_list@, to, to_list@) is None && final(self)@
                    == sent_reliably(
                    old(self)@,
                    move_payload(count, from, from_list@, from_index, to, to_list@, to_index),
                ),
                Err(e) => move_error(count, from, from_list@, to, to_list@) == Some(e@) && final(self)@
                    == old(self)@,
            },
    {
        let payload: Vec<u8> = build_inventory_move_payload(
            count,
            from,
            from_list,
            from_index,
            to,
            to_list,
            to_index,
        )?;
        self.send_reliable(payload);
        Ok(())
    }

    /// Asks the server to craft a bounded number of times from the player's grid.
    pub fn send_inventory_craft(&mut self, count: u16) -> (result: Result<(), OutboundError>)
        requires
            old(self).wf(),
        ensures
            final(self).wf(),
            match result {
                Ok(()) => count > 0 && final(self)@ == sent_reliably(
                    old(self)@,
                    craft_payload(count),
                ),
                Err(e) => count == 0 && e@ == OutboundErrorView::ZeroCraftCount && final(self)@
                    == old(self)@,
            },
    {
        let payload: Vec<u8> = build_inventory_craft_payload(count)?;
        self.send_reliable(payload);
        Ok(())
    }

    /// Acknowledges map blocks; without blocks nothing is sent.
    pub fn send_gotblocks(&mut self, blocks: &[BlockPos])
        requires
            old(self).wf(),
        ensures
            final(self).wf(),
            final(self)@ == (if blocks@.len() == 0 {
                old(self)@
            } else {
                sent_reliably(old(self)@, gotblocks_payload(blocks@))
            }),
    {
        if blocks.len() == 0 {
            return;
        }
        let count: usize = if blocks.len() < 255 { blocks.len() } else { 255 };
        let mut payload: Vec<u8> = Vec::new();
        write_u16(&mut payload, TOSERVER_GOTBLOCKS);
        payload.push(count as u8);
        let ghost head = be16(TOSERVER_GOTBLOCKS) + seq![count as u8];
        let mut i: usize = 0;
        assert(payload@ =~= head + positions_field(blocks@.take(0)));
        while i < count
            invariant
                i <= count <= blocks.len(),
                payload@ == head + positions_field(blocks@.take(i as int)),
            decreases count - i,
        {
            write_v3s16(&mut payload, blocks[i]);
            assert(blocks@.take(i + 1).drop_last() =~= blocks@.take(i as int));
            i = i + 1;
            assert(payload@ =~= head + positions_field(blocks@.take(i as int)));
        }
        assert(payload@ =~= gotblocks_payload(blocks@));
        self.send_reliable(payload)
    }

    pub fn send_chat_message(&mut self, message: &str)
        requires
            old(self).wf(),
        ensures
            final(self).wf(),
            final(self)@ == chat_sent(old(self)@, message@),
    {
        let mut payload: Vec<u8> = Vec::new();
        write_u16(&mut payload, TOSERVER_CHAT_MESSAGE);
        write_wstring(&mut payload, message);
        assert(payload@ =~= chat_payload(message@));
        self.send_reliable(payload)
    }
}

/// Everything in a player's state stands in its own place: position, speed, pitch and yaw,
/// the keys, the view, whether the camera is turned round, and the two numbers of the
/// analog movement.
#[verifier::rlimit(50)]
pub proof fn player_state_stands_in_its_fields(s: PlayerState, f: WireFields)
    ensures
        ({
            let p = player_state_fields(s, f);
            &&& p.len() == 47
            &&& u32_at(p, 0) == unsigned32(f.pos.x)
            &&& u32_at(p, 4) == unsigned32(f.pos.y)
            &&& u32_at(p, 8) == unsigned32(f.pos.z)
            &&& u32_at(p, 12) == unsigned32(f.speed.x)
            &&& u32_at(p, 16) == unsigned32(f.speed.y)
            &&& u32_at(p, 20) == unsigned32(f.speed.z)
            &&& u32_at(p, 24) == unsigned32(f.pitch)
            &&& u32_at(p, 28) == unsigned32(f.yaw)
            &&& u32_at(p, 32) == s.key_pressed
            &&& p[36] == f.fov
            &&& p[37] == f.wanted_range
            &&& p[38] == 1 <==> s.camera_inverted
            &&& p[38] <= 1
            &&& u32_at(p, 39) == s.movement_speed
            &&& u32_at(p, 43) == s.movement_dir
        }),
{
    let m = seq![
        f.fov,
        f.wanted_range,
        if s.camera_inverted {
            1u8
        } else {
            0u8
        },
    ];
    let q0 = Seq::<u8>::empty();
    let q1 = be32(unsigned32(f.pos.x));
    let q2 = q1 + be32(unsigned32(f.pos.y));
    let q3 = q2 + be32(unsigned32(f.pos.z));
    let q4 = q3 + be32(unsigned32(f.speed.x));
    let q5 = q4 + be32(unsigned32(f.speed.y));
    let q6 = q5 + be32(unsigned32(f.speed.z));
    let q7 = q6 + be32(unsigned32(f.pitch));
    let q8 = q7 + be32(unsigned32(f.yaw));
    let q9 = q8 + be32(s.key_pressed);
    let q10 = q9 + m;
    let q11 = q10 + be32(s.movement_speed);
    let q12 = q11 + be32(s.movement_dir);
    let r11 = Seq::<u8>::empty();
    let r10 = be32(s.movement_dir) + r11;
    let r9 = be32(s.movement_speed) + r10;
    let r8 = m + r9;
    let r7 = be32(s.key_pressed) + r8;
    let r6 = be32(unsigned32(f.yaw)) + r7;
    let r5 = be32(unsigned32(f.pitch)) + r6;
    let r4 = be32(unsigned32(f.speed.z)) + r5;
    let r3 = be32(unsigned32(f.speed.y)) + r4;
    let r2 = be32(unsigned32(f.speed.x)) + r3;
    let r1 = be32(unsigned32(f.pos.z)) + r2;
    let r0 = be32(unsigned32(f.pos.y)) + r1;
    assert(q0 + q1 =~= q1);
    assert(q12 + r11 =~= q12);
    regrouped(q11, be32(s.movement_dir), r11, seq![], seq![], seq![]);
    regrouped(q10, be32(s.movement_speed), r10, seq![], seq![], seq![]);
    regrouped(q9, m, r9, seq![], seq![], seq![]);
    regrouped(q8, be32(s.key_pressed), r8, seq![], seq![], seq![]);
    regrouped(q7, be32(unsigned32(f.yaw)), r7, seq![], seq![], seq![]);
    regrouped(q6, be32(unsigned32(f.pitch)), r6, seq![], seq![], seq![]);
    regrouped(q5, be32(unsigned32(f.speed.z)), r5, seq![], seq![], seq![]);
    regrouped(q4, be32(unsigned32(f.speed.y)), r4, seq![], seq![], seq![]);
    regrouped(q3, be32(unsigned32(f.speed.x)), r3, seq![], seq![], seq![]);
    regrouped(q2, be32(unsigned32(f.pos.z)), r2, seq![], seq![], seq![]);
    regrouped(q1, be32(unsigned32(f.pos.y)), r1, seq![], seq![], seq![]);
    regrouped(q0, be32(unsigned32(f.pos.x)), r0, seq![], seq![], seq![]);
    numbers_come_back(q0, 0, unsigned32(f.pos.x), r0);
    numbers_come_back(q1, 0, unsigned32(f.pos.y), r1);
    numbers_come_back(q2, 0, unsigned32(f.pos.z), r2);
    numbers_come_back(q3, 0, unsigned32(f.speed.x), r3);
    numbers_come_back(q4, 0, unsigned32(f.speed.y), r4);
    numbers_come_back(q5, 0, unsigned32(f.speed.z), r5);
    numbers_come_back(q6, 0, unsigned32(f.pitch), r6);
    numbers_come_back(q7, 0, unsigned32(f.yaw), r7);
    numbers_come_back(q8, 0, s.key_pressed, r8);
    part_between(q9, m, r9);
    assert(q9.len() == 36);
    assert((q9 + m + r9)[37] == m[1] && (q9 + m + r9)[38] == m[2]);
    numbers_come_back(q10, 0, s.movement_speed, r10);
    numbers_come_back(q11, 0, s.movement_dir, r11);
    assert(player_state_fields(s, f) == q12);
}

/// The first message names the format, the range of protocol versions and the player.
#[verifier::rlimit(50)]
pub proof fn init_names_versions_and_player(player: Seq<char>)
    ensures
        init_payload(player) == seq![0u8, 0x02, 29, 0, 0, 0, 37, 0, 46] + string_field(player),
        encode_utf8(player).len() <= 65535 ==> string_in(init_payload(player), 9) == Some(
            (player, 11 + encode_utf8(player).len() as int),
        ),
{
    let front = seq![0u8, 0x02, 29, 0, 0, 0, 37, 0, 46];
    assert(init_payload(player) =~= front + string_field(player));
    assert(front + string_field(player) + Seq::<u8>::empty() =~= front + string_field(player));
    short_texts_are_whole(front, player, seq![]);
}

/// A new player's registration carries the salt, then the verifier, then whether the
/// password is empty.
#[verifier::rlimit(50)]
pub proof fn registration_carries_salt_and_verifier(
    salt: Seq<u8>,
    verifier: Seq<u8>,
    empty: bool,
)
    requires
        salt.len() <= 65535,
        verifier.len() <= 65535,
    ensures
        first_srp_payload(salt, verifier, empty) == seq![0u8, 0x50] + be16(salt.len() as u16) + salt
            + be16(verifier.len() as u16) + verifier + seq![
            if empty {
                1u8
            } else {
                0u8
            },
        ],
{
    short_bytes_are_whole(seq![], salt, seq![]);
    short_bytes_are_whole(seq![], verifier, seq![]);
    assert(first_srp_payload(salt, verifier, empty) =~= seq![0u8, 0x50] + be16(salt.len() as u16)
        + salt + be16(verifier.len() as u16) + verifier + seq![
        if empty {
            1u8
        } else {
            0u8
        },
    ]);
}

/// A login carries the public value, and then the proof.
pub proof fn login_carries_value_and_proof(a: Seq<u8>, m: Seq<u8>)
    requires
        a.len() <= 65535,
        m.len() <= 65535,
    ensures
        srp_a_payload(a) == seq![0u8, 0x51] + be16(a.len() as u16) + a + seq![1u8],
        srp_m_payload(m) == seq![0u8, 0x52] + be16(m.len() as u16) + m,
{
    short_bytes_are_whole(seq![], a, seq![]);
    short_bytes_are_whole(seq![], m, seq![]);
    assert(srp_a_payload(a) =~= seq![0u8, 0x51] + be16(a.len() as u16) + a + seq![1u8]);
    assert(srp_m_payload(m) =~= seq![0u8, 0x52] + be16(m.len() as u16) + m);
}

/// The messages that report the client's state say what it is.
pub proof fn client_reports_are_fixed(index: u16)
    ensures
        client_ready_payload() == seq![0u8, 0x43, 5, 10, 0, 0] + string_field(
            "luanti-proto-bot"@,
        ),
        have_media_payload() == seq![0u8, 0x41, 0],
        wield_payload(index) == seq![0u8, 0x37] + be16(index),
{
    assert(client_ready_payload() =~= seq![0u8, 0x43, 5, 10, 0, 0] + string_field(
        "luanti-proto-bot"@,
    ));
    assert(have_media_payload() =~= seq![0u8, 0x41, 0]);
    assert(wield_payload(index) =~= seq![0u8, 0x37] + be16(index));
}

/// A chat message is what the server reads back, character by character.
#[verifier::rlimit(50)]
pub proof fn chat_message_comes_back(message: Seq<char>)
    ensures
        u16_at(chat_payload(message), 0) == 0x32,
        encode_utf16(message).len() <= 65535 ==> wstring_in(chat_payload(message), 2) == Some(
            (message, 4 + 2 * (encode_utf16(message).len() as int)),
        ),
{
    let front = be16(0x32);
    assert(chat_payload(message) =~= front + wstring_field(message) + Seq::<u8>::empty());
    short_texts_are_whole(front, message, seq![]);
}

#[verifier::rlimit(50)]
proof fn positions_stand_in_order(blocks: Seq<BlockPos>, k: int)
    requires
        0 <= k < blocks.len(),
    ensures
        positions_field(blocks).len() == 6 * blocks.len(),
        positions_field(blocks).subrange(6 * k, 6 * k + 6) == v3s16_field(blocks[k]),
    decreases blocks.len(),
{
    let before = blocks.drop_last();
    let last = v3s16_field(blocks.last());
    position_field_comes_back(seq![], blocks.last(), seq![]);
    if before.len() > 0 {
        positions_stand_in_order(before, if k < before.len() { k } else { 0 });
    } else {
        assert(positions_field(before).len() == 0);
    }
    if k < before.len() {
        assert(positions_field(blocks).subrange(6 * k, 6 * k + 6) =~= positions_field(
            before,
        ).subrange(6 * k, 6 * k + 6));
    } else {
        assert(positions_field(blocks).subrange(6 * k, 6 * k + 6) =~= last);
    }
}

/// The blocks that were received are acknowledged one by one: the first 255 of them, each
/// once and in order, behind their number.
#[verifier::rlimit(50)]
pub proof fn received_blocks_are_acknowledged(blocks: Seq<BlockPos>, k: int)
    requires
        0 <= k < blocks.len(),
        k < 255,
    ensures
        ({
            let p = gotblocks_payload(blocks);
            let count = if blocks.len() < 255 {
                blocks.len() as int
            } else {
                255
            };
            &&& u16_at(p, 0) == 0x24
            &&& p[2] == count
            &&& p.len() == 3 + 6 * count
            &&& v3s16_in(p, 3 + 6 * k) == Some((blocks[k], 9 + 6 * k))
        }),
{
    let count = if blocks.len() < 255 {
        blocks.len() as int
    } else {
        255
    };
    let taken = blocks.take(count);
    let p = gotblocks_payload(blocks);
    let body = positions_field(taken);
    positions_stand_in_order(taken, k);
    let field = v3s16_field(blocks[k]);
    let before = p.take(3 + 6 * k);
    let after = p.skip(9 + 6 * k);
    assert(p =~= be16(0x24) + seq![count as u8] + body);
    assert(p.subrange(3 + 6 * k, 9 + 6 * k) =~= body.subrange(6 * k, 6 * k + 6));
    assert(p =~= before + field + after);
    position_field_comes_back(before, blocks[k], after);
}

proof fn pointed_parts(action: u8, slot: Seq<u8>, at: Seq<u8>, on: Seq<u8>, st: Seq<u8>)
    ensures
        be16(0x39) + seq![action] + slot + be32(14) + (seq![0u8, 1u8] + at + on) + st == seq![
            0u8,
            0x39,
            action,
        ] + slot + seq![0u8, 0, 0, 14, 0, 1] + at + on + st,
{
    let a = seq![0u8, 0x39, action] + slot;
    assert(be16(0x39) + seq![action] + slot =~= a);
    assert(be32(14) =~= seq![0u8, 0, 0, 14]);
    assert(a + seq![0u8, 0, 0, 14] + (seq![0u8, 1u8] + at + on) =~= a + seq![0u8, 0, 0, 14, 0, 1]
        + at + on);
}

proof fn pointed_object(action: u8, id: Seq<u8>, st: Seq<u8>)
    ensures
        be16(0x39) + seq![action] + be16(0) + be32(4) + seq![0u8, 2u8] + id + st == seq![
            0u8,
            0x39,
            action,
            0,
            0,
            0,
            0,
            0,
            4,
            0,
            2,
        ] + id + st,
{
    assert(be16(0x39) + seq![action] + be16(0) + be32(4) + seq![0u8, 2u8] =~= seq![
        0u8,
        0x39,
        action,
        0,
        0,
        0,
        0,
        0,
        4,
        0,
        2,
    ]);
}

/// An interaction with a node carries the action, the slot, the node and the node above
/// it, and the player's state; one with an object carries its number.
#[verifier::rlimit(50)]
pub proof fn interactions_carry_their_target(
    action: u8,
    wield_index: u16,
    under: IVec3,
    above: IVec3,
    object_id: u16,
    state: PlayerState,
    fields: WireFields,
)
    requires
        interact_error(under, above, state, fields) is None,
    ensures
        ({
            let p = node_interact_payload(action, wield_index, under, above, state, fields);
            &&& p.len() == 70
            &&& p == seq![0u8, 0x39, action] + be16(wield_index) + seq![0u8, 0, 0, 14, 0, 1]
                + v3s16_field(
                BlockPos { x: under.x as i16, y: under.y as i16, z: under.z as i16 },
            ) + v3s16_field(BlockPos { x: above.x as i16, y: above.y as i16, z: above.z as i16 })
                + player_state_fields(state, fields)
            &&& -32768 <= under.x <= 32767 && -32768 <= under.y <= 32767 && -32768 <= under.z
                <= 32767
            &&& -32768 <= above.x <= 32767 && -32768 <= above.y <= 32767 && -32768 <= above.z
                <= 32767
            &&& sendable(state)
        }),
        object_interact_payload(action, object_id, state, fields) == seq![0u8, 0x39, action, 0, 0, 0,
            0, 0, 4, 0, 2] + be16(object_id) + player_state_fields(state, fields),
        playerpos_payload(state, fields) == seq![0u8, 0x23] + player_state_fields(state, fields),
{
    let st = player_state_fields(state, fields);
    player_state_stands_in_its_fields(state, fields);
    let at = v3s16_field(BlockPos { x: under.x as i16, y: under.y as i16, z: under.z as i16 });
    let on = v3s16_field(BlockPos { x: above.x as i16, y: above.y as i16, z: above.z as i16 });
    pointed_parts(action, be16(wield_index), at, on, st);
    pointed_object(action, be16(object_id), st);
    assert(be16(0x23) =~= seq![0u8, 0x23]);
}

/// An interaction is refused exactly where a coordinate does not fit into 16 bits or the
/// player's state cannot be sent.
pub proof fn interactions_are_refused_out_of_range(
    under: IVec3,
    above: IVec3,
    state: PlayerState,
    fields: WireFields,
)
    ensures
        interact_error(under, above, state, fields) is Some <==> !(sendable(state) && -32768
            <= under.x <= 32767 && -32768 <= under.y <= 32767 && -32768 <= under.z <= 32767
            && -32768 <= above.x <= 32767 && -32768 <= above.y <= 32767 && -32768 <= above.z
            <= 32767),
        !sendable(state) ==> interact_error(under, above, state, fields) == Some(
            OutboundErrorView::UnsafeState(fields.summary@),
        ),
{
}

/// Where an inventory is, in an action's text: the player's own, or that of a node by its
/// three coordinates.
pub proof fn inventories_are_named(pos: IVec3)
    ensures
        location_text(InventoryLocation::CurrentPlayer) == "current_player"@,
        location_text(InventoryLocation::NodeMeta(pos)) == "nodemeta:"@ + dec(pos.x as int) + ","@
            + dec(pos.y as int) + ","@ + dec(pos.z as int),
{
}

proof fn spliced(a: Seq<char>, b: Seq<char>, c: Seq<char>)
    ensures
        a + (b + c) == a + b + c,
{
    assert(a + (b + c) =~= a + b + c);
}

/// Inventory actions are texts of words in a fixed order: the action, the count, where from
/// with list and slot, and where to with list and, where it is given, slot.
#[verifier::rlimit(50)]
pub proof fn inventory_actions_are_words(
    count: u16,
    from: InventoryLocation,
    from_list: Seq<char>,
    from_index: u16,
    to: InventoryLocation,
    to_list: Seq<char>,
    to_index: u16,
)
    ensures
        move_somewhere_payload(count, from, from_list, from_index, to, to_list) == seq![0u8, 0x31]
            + encode_utf8(
            "MoveSomewhere "@ + dec(count as int) + " "@ + location_text(from) + " "@ + from_list
                + " "@ + dec(from_index as int) + " "@ + location_text(to) + " "@ + to_list,
        ),
        move_payload(count, from, from_list, from_index, to, to_list, to_index) == seq![0u8, 0x31]
            + encode_utf8(
            "Move "@ + dec(count as int) + " "@ + location_text(from) + " "@ + from_list + " "@
                + dec(from_index as int) + " "@ + location_text(to) + " "@ + to_list + " "@ + dec(
                to_index as int,
            ),
        ),
        craft_payload(count) == seq![0u8, 0x31] + encode_utf8(
            "Craft "@ + dec(count as int) + " current_player"@,
        ),
{
    assert(be16(0x31) =~= seq![0u8, 0x31]);
    let q1 = dec(count as int);
    let q2 = q1 + " "@;
    let q3 = q2 + location_text(from);
    let q4 = q3 + " "@;
    let q5 = q4 + from_list;
    let q6 = q5 + " "@;
    let q7 = q6 + dec(from_index as int);
    let q8 = q7 + " "@;
    let q9 = q8 + location_text(to);
    let q10 = q9 + " "@;
    let q11 = q10 + to_list;
    spliced("MoveSomewhere "@, q1, " "@);
    spliced("MoveSomewhere "@, q2, location_text(from));
    spliced("MoveSomewhere "@, q3, " "@);
    spliced("MoveSomewhere "@, q4, from_list);
    spliced("MoveSomewhere "@, q5, " "@);
    spliced("MoveSomewhere "@, q6, dec(from_index as int));
    spliced("MoveSomewhere "@, q7, " "@);
    spliced("MoveSomewhere "@, q8, location_text(to));
    spliced("MoveSomewhere "@, q9, " "@);
    spliced("MoveSomewhere "@, q10, to_list);
    spliced("Move "@, q1, " "@);
    spliced("Move "@, q2, location_text(from));
    spliced("Move "@, q3, " "@);
    spliced("Move "@, q4, from_list);
    spliced("Move "@, q5, " "@);
    spliced("Move "@, q6, dec(from_index as int));
    spliced("Move "@, q7, " "@);
    spliced("Move "@, q8, location_text(to));
    spliced("Move "@, q9, " "@);
    spliced("Move "@, q10, to_list);
    assert(move_text(count, from, from_list, from_index, to, to_list) == q11);
}

/// A move is refused exactly where it moves nothing, a list is not named by letters, digits
/// and underscores, or a node's coordinate does not fit into 16 bits.
pub proof fn moves_are_refused_when_malformed(
    count: u16,
    from: InventoryLocation,
    from_list: Seq<char>,
    to: InventoryLocation,
    to_list: Seq<char>,
)
    ensures
        move_error(count, from, from_list, to, to_list) is None <==> {
            &&& count > 0
            &&& from_list.len() > 0 && to_list.len() > 0
            &&& forall|i: int|
                0 <= i < from_list.len() ==> is_list_char(#[trigger] from_list[i])
            &&& forall|i: int| 0 <= i < to_list.len() ==> is_list_char(#[trigger] to_list[i])
            &&& match from {
                InventoryLocation::CurrentPlayer => true,
                InventoryLocation::NodeMeta(p) => -32768 <= p.x <= 32767 && -32768 <= p.y <= 32767
                    && -32768 <= p.z <= 32767,
            }
            &&& match to {
                InventoryLocation::CurrentPlayer => true,
                InventoryLocation::NodeMeta(p) => -32768 <= p.x <= 32767 && -32768 <= p.y <= 32767
                    && -32768 <= p.z <= 32767,
            }
        },
        forall|c: char|
            #[trigger] is_list_char(c) <==> ('a' <= c <= 'z') || ('A' <= c <= 'Z') || ('0' <= c
                <= '9') || c == '_',
        count == 0 ==> move_error(count, from, from_list, to, to_list) == Some(
            OutboundErrorView::ZeroMoveCount,
        ),
{
}

/// Why a command was not encoded is said in words, with the name, the number or the state that was
/// wrong.
pub proof fn refusals_say_what_is_wrong(name: Seq<char>, value: i32)
    ensures
        outbound_error_text(OutboundErrorView::ListName(name)) == "invalid inventory list name '"@
            + name + "'"@,
        outbound_error_text(OutboundErrorView::UnsafeState(name))
            == "refusing unsafe player state: "@ + name,
        outbound_error_text(
            OutboundErrorView::Coordinate { label: Label::Under, axis: Axis::X, value },
        ) == "under"@ + " node "@ + "x"@ + " coordinate "@ + dec(value as int)
            + " does not fit i16"@,
        outbound_error_text(
            OutboundErrorView::Coordinate { label: Label::Above, axis: Axis::Y, value },
        ) == "above"@ + " node "@ + "y"@ + " coordinate "@ + dec(value as int)
            + " does not fit i16"@,
        outbound_error_text(
            OutboundErrorView::Coordinate { label: Label::Inventory, axis: Axis::Z, value },
        ) == "inventory"@ + " node "@ + "z"@ + " coordinate "@ + dec(value as int)
            + " does not fit i16"@,
{
}

/// The coordinate that is named is the first one that does not fit.
pub proof fn first_misfit_is_named(p: IVec3, label: Label)
    requires
        !fits_v3s16(p),
    ensures
        match misfit(p, label) {
            OutboundErrorView::Coordinate { label: l, axis, value } => {
                &&& l == label
                &&& value < -32768 || value > 32767
                &&& match axis {
                    Axis::X => value == p.x,
                    Axis::Y => value == p.y && -32768 <= p.x <= 32767,
                    Axis::Z => value == p.z && -32768 <= p.x <= 32767 && -32768 <= p.y <= 32767,
                }
            },
            _ => false,
        },
{
}

} // verus!
