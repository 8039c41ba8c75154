//! A connection to a server from its first datagram on: peer id, authentication,
//! definitions, and the moment when the client is ready.

use crate::game::player::{
    sendable, PlayerState, WireFields, DEFAULT_FOV, DEFAULT_WANTED_RANGE,
};
use crate::network::auth::{
    answer_srp_challenge, answered, authentication_started, client_view, offers,
    should_send_client_ready, start_authentication,
};
use crate::network::connection::{
    control_packet, fresh_connection, packets_are_sent_in_order, sent_reliably, sent_unreliably,
    ConnectionView, MtpConnection,
};
use crate::network::events::{EventView, MtpEvent};
use crate::network::outbound::{
    chat_sent, client_ready_payload, client_reports_are_fixed, have_media_payload, init_payload,
    playerpos_payload, OutboundError, OutboundErrorView,
};
use crate::network::protocol::{
    AUTH_MECHANISM_FIRST_SRP, AUTH_MECHANISM_SRP, CONTROLTYPE_DISCO, CONTROLTYPE_PING,
    PEER_ID_INEXISTENT, TOSERVER_INIT2,
};
use crate::network::srp::{SrpClient, SrpView};
use crate::network::wire::be16;
use crate::types::Vec3;
use vstd::prelude::*;

verus! {

/// What a session is for.
#[derive(Clone, Copy, Debug, PartialEq, Eq, Structural)]
pub enum Mode {
    /// See whether the server answers.
    Handshake,
    /// See whether the server accepts the player.
    Login,
    /// Say one thing.
    Chat,
    /// Stay.
    Stay,
}

/// How a session goes on.
#[derive(Clone, Copy, Debug, PartialEq, Eq, Structural)]
pub enum Outcome {
    Continue,
    /// The session has done what it is for.
    Finished,
    /// The server has denied access, for the given reason.
    Denied(u8),
    /// The server offers none of the known ways to authenticate.
    Unsupported(u32),
}

/// A session. Times are in milliseconds.
pub struct Session {
    pub mode: Mode,
    pub player: String,
    pub password: String,
    pub conn: MtpConnection,
    pub srp: Option<SrpClient>,
    pub state: PlayerState,
    pub saw_hello: bool,
    pub ready: bool,
    pub need_client_ready: bool,
    pub sent_client_ready: bool,
    pub got_itemdef: bool,
    pub got_nodedef: bool,
    pub got_spawn: bool,
    pub ser_ver: Option<u8>,
    pub proto_ver: Option<u16>,
    pub last_send: u64,
    pub last_ping: u64,
}

/// The value of a [`Session`].
pub ghost struct SessionView {
    pub mode: Mode,
    pub player: Seq<char>,
    pub password: Seq<char>,
    pub conn: ConnectionView,
    pub client: Option<SrpView>,
    pub state: PlayerState,
    pub saw_hello: bool,
    pub ready: bool,
    pub need_client_ready: bool,
    pub sent_client_ready: bool,
    pub got_itemdef: bool,
    pub got_nodedef: bool,
    pub got_spawn: bool,
    pub ser_ver: Option<u8>,
    pub proto_ver: Option<u16>,
    pub last_send: u64,
    pub last_ping: u64,
}

impl View for Session {
    type V = SessionView;

    open spec fn view(&self) -> SessionView {
        SessionView {
            mode: self.mode,
            player: self.player@,
            password: self.password@,
            conn: self.conn@,
            client: client_view(self.srp),
            state: self.state,
            saw_hello: self.saw_hello,
            ready: self.ready,
            need_client_ready: self.need_client_ready,
            sent_client_ready: self.sent_client_ready,
            got_itemdef: self.got_itemdef,
            got_nodedef: self.got_nodedef,
            got_spawn: self.got_spawn,
            ser_ver: self.ser_ver,
            proto_ver: self.proto_ver,
            last_send: self.last_send,
            last_ping: self.last_ping,
        }
    }
}

pub open spec fn disconnected(c: ConnectionView) -> ConnectionView {
    ConnectionView { outbox: c.outbox.push(control_packet(c.peer_id, CONTROLTYPE_DISCO)), ..c }
}

pub open spec fn pinged(c: ConnectionView) -> ConnectionView {
    ConnectionView { outbox: c.outbox.push(control_packet(c.peer_id, CONTROLTYPE_PING)), ..c }
}

/// A peer id is taken on, and the player introduced.
pub open spec fn introduced(c: ConnectionView, peer_id: u16, player: Seq<char>) -> ConnectionView {
    sent_reliably(ConnectionView { peer_id, ..c }, init_payload(player))
}

/// The server has accepted the player.
pub open spec fn accepted(s: SessionView) -> (SessionView, Outcome) {
    let greeted = sent_reliably(s.conn, be16(TOSERVER_INIT2));
    match s.mode {
        Mode::Handshake => (
            SessionView { conn: disconnected(s.conn), ..s },
            Outcome::Finished,
        ),
        Mode::Login => (
            SessionView {
                conn: disconnected(sent_reliably(greeted, client_ready_payload())),
                ..s
            },
            Outcome::Finished,
        ),
        Mode::Chat => (
            SessionView {
                conn: sent_reliably(greeted, client_ready_payload()),
                sent_client_ready: true,
                ready: true,
                ..s
            },
            Outcome::Continue,
        ),
        Mode::Stay => (
            SessionView { conn: greeted, need_client_ready: true, ready: true, ..s },
            Outcome::Continue,
        ),
    }
}

/// The first position that the server gives is where the player spawns.
pub open spec fn spawned(s: SessionView, pos: Vec3, pitch: u32, yaw: u32) -> SessionView {
    if s.got_spawn {
        s
    } else {
        SessionView {
            state: PlayerState { pos, pitch, yaw, ..s.state },
            got_spawn: true,
            ..s
        }
    }
}

/// The server has said hello, and the authentication that it offers is started.
/// One that only shakes hands leaves instead.
pub open spec fn greeted(
    before: SessionView,
    after: SessionView,
    outcome: Outcome,
    auth_mechs: u32,
    proto_ver: u16,
    ser_ver: u8,
) -> bool {
    if before.mode == Mode::Handshake {
        &&& after == (SessionView { conn: disconnected(before.conn), ..before })
        &&& outcome == Outcome::Finished
    } else {
        &&& after == (SessionView {
            conn: after.conn,
            client: after.client,
            saw_hello: true,
            ser_ver: Some(ser_ver),
            proto_ver: Some(proto_ver),
            ..before
        })
        &&& authentication_started(
            (before.conn, before.client),
            (after.conn, after.client),
            before.player,
            before.password,
            auth_mechs,
        )
        &&& outcome == (if offers(auth_mechs, AUTH_MECHANISM_FIRST_SRP) || offers(
            auth_mechs,
            AUTH_MECHANISM_SRP,
        ) {
            Outcome::Continue
        } else {
            Outcome::Unsupported(auth_mechs)
        })
    }
}

/// The session once an event other than a hello has come in. `pitch` and `yaw` are
/// the angles of a player that is moved, in radians.
pub open spec fn session_after(s: SessionView, event: EventView, pitch: u32, yaw: u32) -> (
    SessionView,
    Outcome,
) {
    match event {
        EventView::SetPeerId(peer_id) => (
            SessionView { conn: introduced(s.conn, peer_id, s.player), ..s },
            Outcome::Continue,
        ),
        EventView::SrpBytesSB { salt, b } => (
            SessionView {
                conn: match s.client {
                    Some(client) => if s.mode == Mode::Handshake {
                        s.conn
                    } else {
                        answered(s.conn, client, salt, b)
                    },
                    None => s.conn,
                },
                ..s
            },
            Outcome::Continue,
        ),
        EventView::AuthAccept { .. } => accepted(s),
        EventView::AccessDenied { reason } => (s, Outcome::Denied(reason)),
        EventView::ItemDef => (
            SessionView { got_itemdef: s.got_itemdef || s.mode == Mode::Stay, ..s },
            Outcome::Continue,
        ),
        EventView::NodeDef { .. } => (
            SessionView { got_nodedef: s.got_nodedef || s.mode == Mode::Stay, ..s },
            Outcome::Continue,
        ),
        EventView::MediaAnnounce => (
            SessionView {
                conn: if s.mode == Mode::Stay {
                    sent_reliably(s.conn, have_media_payload())
                } else {
                    s.conn
                },
                ..s
            },
            Outcome::Continue,
        ),
        EventView::MovePlayer { pos, .. } => (
            if s.mode == Mode::Stay {
                spawned(s, pos, pitch, yaw)
            } else {
                s
            },
            Outcome::Continue,
        ),
        _ => (s, Outcome::Continue),
    }
}

/// The client is reported ready once it has the definitions, and only once.
pub open spec fn ready_reported(s: SessionView) -> SessionView {
    if s.need_client_ready && !s.sent_client_ready && s.got_itemdef && s.got_nodedef {
        SessionView {
            conn: sent_reliably(s.conn, client_ready_payload()),
            sent_client_ready: true,
            ..s
        }
    } else {
        s
    }
}

/// How much time has passed since `then`.
pub open spec fn passed(now: u64, then: u64) -> int {
    if now >= then {
        now - then
    } else {
        0
    }
}

/// Positions are sent so often, in milliseconds.
pub const SEND_INTERVAL_MS: u64 = 200;

/// Pings are sent so often, in milliseconds.
pub const PING_INTERVAL_MS: u64 = 5_000;

/// So long a server may take to say hello, in milliseconds.
pub const HANDSHAKE_TIMEOUT_MS: u64 = 6_000;

/// So long a server may take to accept the player, in milliseconds.
pub const READY_TIMEOUT_MS: u64 = 30_000;

/// The server has taken too long, from `started` on.
pub open spec fn too_late(s: SessionView, started: u64, now: u64) -> bool {
    match s.mode {
        Mode::Handshake => passed(now, started) >= HANDSHAKE_TIMEOUT_MS,
        Mode::Login => passed(now, started) >= READY_TIMEOUT_MS,
        Mode::Chat => passed(now, started) >= READY_TIMEOUT_MS,
        Mode::Stay => !s.ready && passed(now, started) > READY_TIMEOUT_MS,
    }
}

/// What is said of a session that has taken too long.
pub open spec fn timeout_text(s: SessionView) -> Seq<char> {
    match s.mode {
        Mode::Handshake => "handshake timed out"@,
        Mode::Login => if s.saw_hello {
            "login timed out waiting for auth accept"@
        } else {
            "login timed out before hello"@
        },
        Mode::Chat => "chat timed out before ready"@,
        Mode::Stay => "connect timed out before ready"@,
    }
}

/// The position is due.
pub open spec fn position_due(s: SessionView, now: u64) -> bool {
    s.ready && s.got_spawn && passed(now, s.last_send) >= SEND_INTERVAL_MS
}

/// A ping is sent when one is due.
pub open spec fn ping_sent(s: SessionView, now: u64) -> SessionView {
    if s.ready && passed(now, s.last_ping) >= PING_INTERVAL_MS {
        SessionView { conn: pinged(s.conn), last_ping: now, ..s }
    } else {
        s
    }
}

/// Leaving is announced to a server that has assigned a peer id.
pub open spec fn left(s: SessionView) -> SessionView {
    if s.conn.peer_id != PEER_ID_INEXISTENT {
        SessionView { conn: disconnected(s.conn), ..s }
    } else {
        s
    }
}

fn elapsed(now: u64, then: u64) -> (ms: u64)
    ensures
        ms == passed(now, then),
{
    now.saturating_sub(then)
}

/// A session that asks the server for a peer id.
pub open spec fn new_session(
    mode: Mode,
    player: Seq<char>,
    password: Seq<char>,
    now: u64,
) -> SessionView {
    SessionView {
        mode,
        player,
        password,
        conn: sent_reliably(fresh_connection(), seq![]),
        client: None,
        state: PlayerState {
            pos: Vec3 { x: 0, y: 0, z: 0 },
            speed: Vec3 { x: 0, y: 0, z: 0 },
            pitch: 0,
            yaw: 0,
            movement_speed: 0,
            movement_dir: 0,
            key_pressed: 0,
            fov: DEFAULT_FOV,
            wanted_range: DEFAULT_WANTED_RANGE,
            camera_inverted: false,
        },
        saw_hello: false,
        ready: false,
        need_client_ready: false,
        sent_client_ready: false,
        got_itemdef: false,
        got_nodedef: false,
        got_spawn: false,
        ser_ver: None,
        proto_ver: None,
        last_send: now,
        last_ping: now,
    }
}

impl Session {
    pub open spec fn wf(&self) -> bool {
        self.conn.wf()
    }

    pub fn new(mode: Mode, player: &str, password: &str, now: u64) -> (s: Self)
        ensures
            s.wf(),
            s@ == new_session(mode, player@, password@, now),
    {
        let mut conn = MtpConnection::new();
        conn.send_dummy_reliable();
        Session {
            mode,
            player: player.to_owned(),
            password: password.to_owned(),
            conn,
            srp: None,
            state: PlayerState::default(),
            saw_hello: false,
            ready: false,
            need_client_ready: false,
            sent_client_ready: false,
            got_itemdef: false,
            got_nodedef: false,
            got_spawn: false,
            ser_ver: None,
            proto_ver: None,
            last_send: now,
            last_ping: now,
        }
    }

    /// Takes an event. `pitch` and `yaw` are the angles of a player that is moved,
    /// in radians.
    pub fn take_event(&mut self, event: &MtpEvent, pitch: u32, yaw: u32) -> (outcome: Outcome)
        requires
            old(self).wf(),
        ensures
            final(self).wf(),
            match event@ {
                EventView::ToClientHello { auth_mechs, proto_ver, ser_ver } => greeted(
                    old(self)@,
                    final(self)@,
                    outcome,
                    auth_mechs,
                    proto_ver,
                    ser_ver,
                ),
                _ => (final(self)@, outcome) == session_after(old(self)@, event@, pitch, yaw),
            },
    {
        match event {
            MtpEvent::SetPeerId(peer_id) => {
                self.conn.set_peer_id(*peer_id);
                self.conn.send_init(self.player.as_str());
                Outcome::Continue
            },
            MtpEvent::ToClientHello { auth_mechs, proto_ver, ser_ver } => self.take_hello(
                *auth_mechs,
                *proto_ver,
                *ser_ver,
            ),
            MtpEvent::SrpBytesSB { salt, b } => {
                if self.mode != Mode::Handshake {
                    answer_srp_challenge(
                        &mut self.conn,
                        &self.srp,
                        salt.as_slice(),
                        b.as_slice(),
                    );
                }
                Outcome::Continue
            },
            MtpEvent::AuthAccept { .. } => self.take_acceptance(),
            MtpEvent::AccessDenied { reason } => Outcome::Denied(*reason),
            MtpEvent::ItemDef => {
                if self.mode == Mode::Stay {
                    self.got_itemdef = true;
                }
                Outcome::Continue
            },
            MtpEvent::NodeDef { .. } => {
                if self.mode == Mode::Stay {
                    self.got_nodedef = true;
                }
                Outcome::Continue
            },
            MtpEvent::MediaAnnounce => {
                if self.mode == Mode::Stay {
                    self.conn.send_have_media();
                }
                Outcome::Continue
            },
            MtpEvent::MovePlayer { pos, .. } => {
                if self.mode == Mode::Stay && !self.got_spawn {
                    self.state.pos = *pos;
                    self.state.pitch = pitch;
                    self.state.yaw = yaw;
                    self.got_spawn = true;
                }
                Outcome::Continue
            },
            _ => Outcome::Continue,
        }
    }

    fn take_hello(&mut self, auth_mechs: u32, proto_ver: u16, ser_ver: u8) -> (outcome: Outcome)
        requires
            old(self).wf(),
        ensures
            final(self).wf(),
            greeted(old(self)@, final(self)@, outcome, auth_mechs, proto_ver, ser_ver),
    {
        if self.mode == Mode::Handshake {
            self.conn.send_control_disco();
            return Outcome::Finished;
        }
        self.saw_hello = true;
        self.ser_ver = Some(ser_ver);
        self.proto_ver = Some(proto_ver);
        match start_authentication(
            &mut self.conn,
            self.player.as_str(),
            self.password.as_str(),
            auth_mechs,
            &mut self.srp,
        ) {
            Ok(()) => Outcome::Continue,
            Err(offer) => Outcome::Unsupported(offer),
        }
    }

    fn take_acceptance(&mut self) -> (outcome: Outcome)
        requires
            old(self).wf(),
        ensures
            final(self).wf(),
            (final(self)@, outcome) == accepted(old(self)@),
    {
        if self.mode == Mode::Handshake {
            self.conn.send_control_disco();
            return Outcome::Finished;
        }
        self.conn.send_init2();
        match self.mode {
            Mode::Login => {
                self.conn.send_client_ready();
                self.conn.send_control_disco();
                Outcome::Finished
            },
            Mode::Chat => {
                self.conn.send_client_ready();
                self.sent_client_ready = true;
                self.ready = true;
                Outcome::Continue
            },
            _ => {
                self.need_client_ready = true;
                self.ready = true;
                Outcome::Continue
            },
        }
    }

    /// Reports the client ready once it has the definitions.
    pub fn report_ready(&mut self)
        requires
            old(self).wf(),
        ensures
            final(self).wf(),
            final(self)@ == ready_reported(old(self)@),
    {
        if self.need_client_ready && !self.sent_client_ready && should_send_client_ready(
            self.got_itemdef,
            self.got_nodedef,
        ) {
            self.conn.send_client_ready();
            self.sent_client_ready = true;
        }
    }

    /// Says one thing and leaves, once the client is ready.
    pub fn say_when_ready(&mut self, message: &str) -> (said: bool)
        requires
            old(self).wf(),
        ensures
            final(self).wf(),
            said == (old(self)@.ready && old(self)@.sent_client_ready),
            final(self)@ == (if said {
                SessionView {
                    conn: disconnected(chat_sent(old(self)@.conn, message@)),
                    ..old(self)@
                }
            } else {
                old(self)@
            }),
    {
        if self.ready && self.sent_client_ready {
            self.conn.send_chat_message(message);
            self.conn.send_control_disco();
            true
        } else {
            false
        }
    }

    /// Whether the server has taken too long, from `started` on.
    pub fn timed_out(&self, started: u64, now: u64) -> (late: bool)
        ensures
            late == too_late(self@, started, now),
    {
        let ms: u64 = elapsed(now, started);
        match self.mode {
            Mode::Handshake => ms >= HANDSHAKE_TIMEOUT_MS,
            Mode::Login => ms >= READY_TIMEOUT_MS,
            Mode::Chat => ms >= READY_TIMEOUT_MS,
            Mode::Stay => !self.ready && ms > READY_TIMEOUT_MS,
        }
    }

    /// Says what became of a session that has taken too long.
    pub fn timeout_message(&self) -> (text: &'static str)
        ensures
            text@ == timeout_text(self@),
    {
        match self.mode {
            Mode::Handshake => "handshake timed out",
            Mode::Login => if self.saw_hello {
                "login timed out waiting for auth accept"
            } else {
                "login timed out before hello"
            },
            Mode::Chat => "chat timed out before ready",
            Mode::Stay => "connect timed out before ready",
        }
    }

    /// Sends a ping when one is due.
    pub fn send_ping(&mut self, now: u64)
        requires
            old(self).wf(),
        ensures
            final(self).wf(),
            final(self)@ == ping_sent(old(self)@, now),
    {
        if self.ready && elapsed(now, self.last_ping) >= PING_INTERVAL_MS {
            self.conn.send_control_ping();
            self.last_ping = now;
        }
    }

    /// Whether the position is due.
    pub fn is_position_due(&self, now: u64) -> (due: bool)
        ensures
            due == position_due(self@, now),
    {
        self.ready && self.got_spawn && elapsed(now, self.last_send) >= SEND_INTERVAL_MS
    }

    /// Sends the position.
    pub fn send_position(&mut self, fields: &WireFields, now: u64) -> (result: Result<
        (),
        OutboundError,
    >)
        requires
            old(self).wf(),
        ensures
            final(self).wf(),
            match result {
                Ok(()) => sendable(old(self)@.state) && final(self)@ == (SessionView {
                    conn: sent_unreliably(
                        old(self)@.conn,
                        playerpos_payload(old(self)@.state, *fields),
                    ),
                    last_send: now,
                    ..old(self)@
                }),
                Err(e) => !sendable(old(self)@.state) && e@ == OutboundErrorView::UnsafeState(
                    fields.summary@,
                ) && final(self)@ == old(self)@,
            },
    {
        self.conn.send_playerpos(&self.state, fields)?;
        self.last_send = now;
        Ok(())
    }

    /// Announces that the player leaves.
    pub fn leave(&mut self)
        requires
            old(self).wf(),
        ensures
            final(self).wf(),
            final(self)@ == left(old(self)@),
    {
        if self.conn.peer_id() != PEER_ID_INEXISTENT {
            self.conn.send_control_disco();
        }
    }

    /// Announces that the player leaves, whatever the server has assigned.
    pub fn disconnect(&mut self)
        requires
            old(self).wf(),
        ensures
            final(self).wf(),
            final(self)@ == (SessionView { conn: disconnected(old(self)@.conn), ..old(self)@ }),
    {
        self.conn.send_control_disco();
    }
}

/// The client reports itself ready at most once: having reported, it does not again.
pub proof fn ready_is_reported_once(s: SessionView)
    ensures
        ready_reported(ready_reported(s)) == ready_reported(s),
        s.sent_client_ready ==> ready_reported(s) == s,
{
}

/// A session that stays is not ready before the server has accepted the player:
/// only an acceptance makes it ready.
pub proof fn only_acceptance_makes_ready(s: SessionView, event: EventView, pitch: u32, yaw: u32)
    requires
        !s.ready,
        !(event is AuthAccept),
        !(event is ToClientHello),
    ensures
        !session_after(s, event, pitch, yaw).0.ready,
{
}

/// What is sent when the server accepts the player depends on what the session is for: a
/// handshake only leaves, a login answers, reports ready and leaves, one that
/// chats answers and reports ready at once, and one that stays answers and waits
/// for the definitions.
pub proof fn acceptance_is_answered(s: SessionView, interval: u32, pitch: u32, yaw: u32)
    ensures
        ({
            let (after, outcome) = session_after(
                s,
                EventView::AuthAccept { recommended_send_interval: interval },
                pitch,
                yaw,
            );
            let answered_to = sent_reliably(s.conn, seq![0u8, 0x11]);
            let reported = sent_reliably(answered_to, client_ready_payload());
            &&& outcome is Finished <==> s.mode is Handshake || s.mode is Login
            &&& outcome is Finished || outcome is Continue
            &&& after.conn == match s.mode {
                Mode::Handshake => disconnected(s.conn),
                Mode::Login => disconnected(reported),
                Mode::Chat => reported,
                Mode::Stay => answered_to,
            }
            &&& after.ready == (s.ready || s.mode is Chat || s.mode is Stay)
            &&& after.sent_client_ready == (s.sent_client_ready || s.mode is Chat)
            &&& after.need_client_ready == (s.need_client_ready || s.mode is Stay)
            &&& after.state == s.state && after.client == s.client && after.got_spawn
                == s.got_spawn
        }),
{
    assert(be16(TOSERVER_INIT2) =~= seq![0u8, 0x11]);
}

/// A player spawns once, where the server first puts it: later moves, and those of a session
/// that does not stay, change nothing.
pub proof fn player_spawns_once(
    s: SessionView,
    pos: Vec3,
    degrees: (u32, u32),
    pitch: u32,
    yaw: u32,
)
    ensures
        ({
            let (after, outcome) = session_after(
                s,
                EventView::MovePlayer { pos, pitch_degrees: degrees.0, yaw_degrees: degrees.1 },
                pitch,
                yaw,
            );
            &&& outcome is Continue
            &&& s.got_spawn || !(s.mode is Stay) ==> after == s
            &&& !s.got_spawn && s.mode is Stay ==> {
                &&& after.got_spawn
                &&& after.state.pos == pos
                &&& after.state.pitch == pitch
                &&& after.state.yaw == yaw
                &&& after.state.speed == s.state.speed
                &&& after.state.key_pressed == s.state.key_pressed
                &&& after.conn == s.conn
                &&& after.ready == s.ready
            }
        }),
{
}

/// The other events of a session: a peer number is taken on before the player is introduced
/// with it, a refusal ends the session with its reason, the definitions are
/// remembered, and announced media are reported as had.
pub proof fn events_are_answered(
    s: SessionView,
    peer_id: u16,
    reason: u8,
    data: Seq<u8>,
    salt: Seq<u8>,
    b: Seq<u8>,
    pitch: u32,
    yaw: u32,
)
    ensures
        ({
            let (after, outcome) = session_after(s, EventView::SetPeerId(peer_id), pitch, yaw);
            &&& outcome is Continue
            &&& after.conn.peer_id == peer_id
            &&& after.conn == sent_reliably(
                ConnectionView { peer_id, ..s.conn },
                init_payload(s.player),
            )
            &&& after.ready == s.ready && after.client == s.client
        }),
        session_after(s, EventView::AccessDenied { reason }, pitch, yaw) == (
            s,
            Outcome::Denied(reason),
        ),
        ({
            let (after, outcome) = session_after(s, EventView::ItemDef, pitch, yaw);
            &&& outcome is Continue
            &&& after.got_itemdef <==> s.got_itemdef || s.mode is Stay
            &&& after.got_nodedef == s.got_nodedef && after.conn == s.conn
        }),
        ({
            let (after, outcome) = session_after(s, EventView::NodeDef { data }, pitch, yaw);
            &&& outcome is Continue
            &&& after.got_nodedef <==> s.got_nodedef || s.mode is Stay
            &&& after.got_itemdef == s.got_itemdef && after.conn == s.conn
        }),
        ({
            let (after, outcome) = session_after(s, EventView::MediaAnnounce, pitch, yaw);
            &&& outcome is Continue
            &&& after.conn == if s.mode is Stay {
                sent_reliably(s.conn, seq![0u8, 0x41, 0])
            } else {
                s.conn
            }
        }),
        ({
            let (after, outcome) = session_after(s, EventView::SrpBytesSB { salt, b }, pitch, yaw);
            &&& outcome is Continue
            &&& s.mode is Handshake || s.client is None ==> after.conn == s.conn
            &&& !(s.mode is Handshake) && s.client is Some ==> after.conn == answered(
                s.conn,
                s.client->0,
                salt,
                b,
            )
        }),
{
    client_reports_are_fixed(0);
}

/// The client is reported ready exactly when that is still owed and both kinds of
/// definitions are there.
pub proof fn readiness_needs_both_definitions(s: SessionView)
    ensures
        ({
            let due = s.need_client_ready && !s.sent_client_ready && s.got_itemdef && s.got_nodedef;
            let after = ready_reported(s);
            &&& after.sent_client_ready <==> s.sent_client_ready || due
            &&& after.conn == if due {
                sent_reliably(s.conn, client_ready_payload())
            } else {
                s.conn
            }
        }),
{
}

/// A server is waited for six seconds in a handshake and thirty otherwise, and one that has
/// accepted a player who stays is waited for without end.
pub proof fn patience_is_limited(s: SessionView, started: u64, waited: u64)
    requires
        started + waited <= u64::MAX,
    ensures
        too_late(s, started, (started + waited) as u64) <==> match s.mode {
            Mode::Handshake => waited >= 6000,
            Mode::Login => waited >= 30_000,
            Mode::Chat => waited >= 30_000,
            Mode::Stay => waited > 30_000 && !s.ready,
        },
{
}

/// Pings go out every five seconds once the player is accepted, and positions are due every
/// fifth of a second once the player has spawned too.
pub proof fn signs_of_life_are_regular(s: SessionView, waited: u64)
    requires
        s.last_ping + waited <= u64::MAX,
        s.last_send + waited <= u64::MAX,
    ensures
        ({
            let now = (s.last_ping + waited) as u64;
            let after = ping_sent(s, now);
            if s.ready && waited >= 5000 {
                &&& after.last_ping == now
                &&& after.conn.outbox == s.conn.outbox.push(control_packet(s.conn.peer_id, 2))
                &&& after.conn.send_seq == s.conn.send_seq
                &&& after.last_send == s.last_send
            } else {
                after == s
            }
        }),
        position_due(s, (s.last_send + waited) as u64) <==> s.ready && s.got_spawn && waited
            >= 200,
{
}

/// Whoever has a peer number says farewell; a server that has assigned none is told nothing.
pub proof fn farewell_is_for_acquaintances(s: SessionView)
    ensures
        left(s).conn.outbox == if s.conn.peer_id != 0 {
            s.conn.outbox.push(control_packet(s.conn.peer_id, 3))
        } else {
            s.conn.outbox
        },
        left(s).conn.send_seq == s.conn.send_seq,
        disconnected(s.conn).outbox == s.conn.outbox.push(control_packet(s.conn.peer_id, 3)),
{
}

/// A new session has sent one empty reliable packet and nothing else has happened.
pub proof fn sessions_begin_with_an_empty_packet(
    mode: Mode,
    player: Seq<char>,
    password: Seq<char>,
    now: u64,
)
    ensures
        ({
            let s = new_session(mode, player, password, now);
            &&& s.mode == mode && s.player == player && s.password == password
            &&& s.conn.peer_id == 0
            &&& s.conn.send_seq == 65501
            &&& s.conn.outbox.len() == 1
            &&& s.conn.outbox[0] == seq![0x4fu8, 0x45, 0x74, 0x03, 0, 0, 0, 3, 0xff, 0xdc, 1]
            &&& !s.saw_hello && !s.ready && !s.need_client_ready && !s.sent_client_ready
            &&& !s.got_itemdef && !s.got_nodedef && !s.got_spawn
            &&& s.client is None
            &&& s.last_send == now && s.last_ping == now
        }),
{
    packets_are_sent_in_order(fresh_connection(), seq![]);
    let s = new_session(mode, player, password, now);
    assert(s.conn.outbox[0] =~= seq![0x4fu8, 0x45, 0x74, 0x03, 0, 0, 0, 3, 0xff, 0xdc, 1]);
}

/// A greeting that offers registration or login starts it, and remembers the versions; one
/// that offers neither is reported as unsupported with what it offers. A handshake
/// is over with the greeting.
pub proof fn greetings_are_answered(
    before: SessionView,
    after: SessionView,
    outcome: Outcome,
    auth_mechs: u32,
    proto_ver: u16,
    ser_ver: u8,
)
    requires
        greeted(before, after, outcome, auth_mechs, proto_ver, ser_ver),
    ensures
        before.mode is Handshake ==> outcome is Finished && after.conn == disconnected(before.conn),
        !(before.mode is Handshake) ==> {
            &&& after.saw_hello
            &&& after.ser_ver == Some(ser_ver)
            &&& after.proto_ver == Some(proto_ver)
            &&& after.ready == before.ready
            &&& (outcome == Outcome::Unsupported(auth_mechs) <==> (auth_mechs as int / 2) % 2 == 0
                && (auth_mechs as int / 4) % 2 == 0)
            &&& outcome is Continue || outcome is Unsupported
        },
{
    assert((auth_mechs & 2 != 0) == ((auth_mechs / 2) % 2 == 1)) by (bit_vector);
    assert((auth_mechs & 4 != 0) == ((auth_mechs / 4) % 2 == 1)) by (bit_vector);
    let m = auth_mechs;
    assert(AUTH_MECHANISM_SRP == 2 && AUTH_MECHANISM_FIRST_SRP == 4);
}

/// Whoever waits too long is told for what.
pub proof fn timeouts_are_told(s: SessionView)
    ensures
        timeout_text(s) == match s.mode {
            Mode::Handshake => "handshake timed out"@,
            Mode::Chat => "chat timed out before ready"@,
            Mode::Stay => "connect timed out before ready"@,
            Mode::Login => if s.saw_hello {
                "login timed out waiting for auth accept"@
            } else {
                "login timed out before hello"@
            },
        },
{
}

} // verus!
