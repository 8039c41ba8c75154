//! Events and values exchanged between the transport and the bot.

use crate::game::player::MovementSettings;
use crate::types::{BlockPos, IVec3, Vec3};
use vstd::prelude::*;

verus! {

/// Where an inventory lives.
#[derive(Clone, Copy, Debug, PartialEq, Eq, Structural)]
pub enum InventoryLocation {
    CurrentPlayer,
    NodeMeta(IVec3),
}

/// A server command, decoded. Numbers in single precision are bit patterns. The
/// angles of a moved player are as they are sent, in degrees; whoever takes the event
/// turns them into radians, which is floating point arithmetic.
#[allow(inconsistent_fields)]
#[derive(Debug)]
pub enum MtpEvent {
    SetPeerId(u16),
    ToClientHello { auth_mechs: u32, proto_ver: u16, ser_ver: u8 },
    AuthAccept { recommended_send_interval: u32 },
    Movement(MovementSettings),
    MovePlayer { pos: Vec3, pitch_degrees: u32, yaw_degrees: u32 },
    SrpBytesSB { salt: Vec<u8>, b: Vec<u8> },
    NodeDef { data: Vec<u8> },
    ItemDef,
    MediaAnnounce,
    BlockData { pos: BlockPos, data: Vec<u8> },
    ActiveObjectRemoveAdd { removed: Vec<u16>, added: Vec<ActiveObjectInit> },
    ActiveObjectMessages { messages: Vec<ActiveObjectMessage> },
    ChatMessage { message_type: u8, sender: String, message: String },
    AccessDenied { reason: u8 },
}

/// A new active object with its initialisation data.
#[derive(Clone, Debug)]
pub struct ActiveObjectInit {
    pub id: u16,
    pub ao_type: u8,
    pub data: Vec<u8>,
}

/// A message to one active object.
#[derive(Clone, Debug)]
pub struct ActiveObjectMessage {
    pub id: u16,
    pub data: Vec<u8>,
}

/// The value of an [`ActiveObjectInit`].
pub ghost struct InitView {
    pub id: u16,
    pub ao_type: u8,
    pub data: Seq<u8>,
}

impl View for ActiveObjectInit {
    type V = InitView;

    open spec fn view(&self) -> InitView {
        InitView { id: self.id, ao_type: self.ao_type, data: self.data@ }
    }
}

/// The value of an [`ActiveObjectMessage`].
pub ghost struct MessageView {
    pub id: u16,
    pub data: Seq<u8>,
}

impl View for ActiveObjectMessage {
    type V = MessageView;

    open spec fn view(&self) -> MessageView {
        MessageView { id: self.id, data: self.data@ }
    }
}

/// The value of an [`MtpEvent`].
#[allow(inconsistent_fields)]
pub ghost enum EventView {
    SetPeerId(u16),
    ToClientHello { auth_mechs: u32, proto_ver: u16, ser_ver: u8 },
    AuthAccept { recommended_send_interval: u32 },
    Movement(MovementSettings),
    MovePlayer { pos: Vec3, pitch_degrees: u32, yaw_degrees: u32 },
    SrpBytesSB { salt: Seq<u8>, b: Seq<u8> },
    NodeDef { data: Seq<u8> },
    ItemDef,
    MediaAnnounce,
    BlockData { pos: BlockPos, data: Seq<u8> },
    ActiveObjectRemoveAdd { removed: Seq<u16>, added: Seq<InitView> },
    ActiveObjectMessages { messages: Seq<MessageView> },
    ChatMessage { message_type: u8, sender: Seq<char>, message: Seq<char> },
    AccessDenied { reason: u8 },
}

impl View for MtpEvent {
    type V = EventView;

    open spec fn view(&self) -> EventView {
        match *self {
            MtpEvent::SetPeerId(id) => EventView::SetPeerId(id),
            MtpEvent::ToClientHello { auth_mechs, proto_ver, ser_ver } => EventView::ToClientHello {
                auth_mechs,
                proto_ver,
                ser_ver,
            },
            MtpEvent::AuthAccept { recommended_send_interval } => EventView::AuthAccept {
                recommended_send_interval,
            },
            MtpEvent::Movement(m) => EventView::Movement(m),
            MtpEvent::MovePlayer { pos, pitch_degrees, yaw_degrees } => EventView::MovePlayer {
                pos,
                pitch_degrees,
                yaw_degrees,
            },
            MtpEvent::SrpBytesSB { salt, b } => EventView::SrpBytesSB { salt: salt@, b: b@ },
            MtpEvent::NodeDef { data } => EventView::NodeDef { data: data@ },
            MtpEvent::ItemDef => EventView::ItemDef,
            MtpEvent::MediaAnnounce => EventView::MediaAnnounce,
            MtpEvent::BlockData { pos, data } => EventView::BlockData { pos, data: data@ },
            MtpEvent::ActiveObjectRemoveAdd { removed, added } => {
                EventView::ActiveObjectRemoveAdd {
                    removed: removed@,
                    added: added@.map_values(|o: ActiveObjectInit| o@),
                }
            },
            MtpEvent::ActiveObjectMessages { messages } => EventView::ActiveObjectMessages {
                messages: messages@.map_values(|m: ActiveObjectMessage| m@),
            },
            MtpEvent::ChatMessage { message_type, sender, message } => EventView::ChatMessage {
                message_type,
                sender: sender@,
                message: message@,
            },
            MtpEvent::AccessDenied { reason } => EventView::AccessDenied { reason },
        }
    }
}

/// The view of an optional event.
pub open spec fn event_view(event: Option<MtpEvent>) -> Option<EventView> {
    match event {
        Some(e) => Some(e@),
        None => None,
    }
}

/// What was seen of one datagram.
#[derive(Clone, Copy, Debug, PartialEq, Eq)]
pub struct TracePacket {
    pub channel: u8,
    pub packet_type: u8,
    pub reliable_seq: Option<u16>,
    pub control_type: Option<u8>,
    pub split_seq: Option<u16>,
    pub split_chunk: Option<u16>,
    pub split_count: Option<u16>,
    pub cmd: Option<u16>,
    pub payload_len: Option<usize>,
}

} // verus!
