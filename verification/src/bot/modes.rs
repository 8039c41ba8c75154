//! Modes for trying things out: walking for a while, following whoever speaks first,
//! and handing that player's name to chat commands.

use super::chat::{extract_chat_player, joined_player, normalize_player_name, normalized};
use super::entities::{find_target_id, player_with_id, target_id};
use super::events::{event_taken, outcome_of, EventFacts};
use super::motion::{
    keys_pressed, step_reported, wanted_keys, Heading, StepFacts,
};
use super::messages::{ChatFault, ChatFaultView};
use super::runtime::{with_player_name, Bot, BotView};
use crate::game::player::WireFields;
use crate::network::events::{EventView, MtpEvent};
use crate::network::outbound::{chat_sent, OutboundError, OutboundErrorView};
use crate::scan::{replace, replaced};
use crate::session::{
    disconnected, greeted, new_session, ready_reported, session_after, too_late, Mode, Outcome,
    Session, SessionView,
};
use crate::text::text_view;
use crate::types::Vec3;
use vstd::prelude::*;
use vstd::string::*;

verus! {

/// The player whom a chat message makes known: who sent it, or else who joined the
/// game; but not the bot itself.
pub open spec fn speaker(own_name: Seq<char>, sender: Seq<char>, message: Seq<char>) -> Option<
    Seq<char>,
> {
    if sender.len() > 0 && sender != own_name {
        Some(sender)
    } else {
        match joined_player(message) {
            Some(name) => if name != own_name {
                Some(name)
            } else {
                None
            },
            None => None,
        }
    }
}

/// Finds the player whom a chat message makes known.
pub fn chat_speaker(own_name: &String, sender: &String, message: &str) -> (name: Option<String>)
    ensures
        text_view(name) == speaker(own_name@, sender@, message@),
{
    if !sender.as_str().is_empty() && *sender != *own_name {
        return Some(sender.clone());
    }
    let name = extract_chat_player(message)?;
    if name != *own_name {
        Some(name)
    } else {
        None
    }
}

/// A bot that walks straight on, or follows the first player who speaks.
pub struct Walker {
    pub bot: Bot,
    pub follows: bool,
    /// When the connection was opened, in milliseconds.
    pub started: u64,
}

/// The value of a [`Walker`].
pub ghost struct WalkerView {
    pub bot: BotView,
    pub follows: bool,
    pub started: u64,
}

impl View for Walker {
    type V = WalkerView;

    open spec fn view(&self) -> WalkerView {
        WalkerView { bot: self.bot@, follows: self.follows, started: self.started }
    }
}

/// Somebody has spoken: the first one is followed from then on.
pub open spec fn speaker_noted(b: BotView, sender: Seq<char>, message: Seq<char>) -> BotView {
    let name = match b.follow_target_name {
        Some(name) => Some(name),
        None => speaker(b.session.player, sender, message),
    };
    if name is Some {
        BotView { follow_target_name: name, follow_target_id: target_id(b.players, name), ..b }
    } else {
        b
    }
}

/// The walker once an event other than a hello has come in. Only the first position
/// that the server gives counts.
pub open spec fn walker_after(w: WalkerView, event: EventView, facts: EventFacts, now: u64) -> (
    WalkerView,
    Result<Outcome, ChatFaultView>,
) {
    match event {
        EventView::MovePlayer { .. } => {
            let (session, outcome) = session_after(w.bot.session, event, facts.pitch, facts.yaw);
            (WalkerView { bot: BotView { session, ..w.bot }, ..w }, Ok(outcome))
        },
        EventView::ChatMessage { sender, message, .. } => (
            if w.follows {
                WalkerView { bot: speaker_noted(w.bot, sender, message), ..w }
            } else {
                w
            },
            Ok(Outcome::Continue),
        ),
        _ => {
            let (bot, outcome) = event_taken(w.bot, event, facts, now);
            (WalkerView { bot, ..w }, outcome)
        },
    }
}

/// Where a walker that follows somebody heads.
pub open spec fn walker_heading(w: WalkerView) -> Heading {
    match w.bot.follow_target_id {
        Some(id) => match player_with_id(w.bot.players, id) {
            Some(p) => Heading::Player(p.pos),
            None => Heading::Nowhere,
        },
        None => Heading::Nowhere,
    }
}

/// The walker has taken a step and, if that was the last one, has left.
pub open spec fn walked(
    w: WalkerView,
    forward: bool,
    jump: bool,
    over: bool,
    fields: WireFields,
    now: u64,
) -> Option<WalkerView> {
    match step_reported(keys_pressed(w.bot, forward, jump, false), fields, now) {
        Some(b) => Some(
            WalkerView {
                bot: if over {
                    BotView {
                        session: SessionView { conn: disconnected(b.session.conn), ..b.session },
                        ..b
                    }
                } else {
                    b
                },
                ..w
            },
        ),
        None => None,
    }
}

impl Walker {
    pub open spec fn wf(&self) -> bool {
        self.bot.wf()
    }

    pub fn new(player: &str, password: &str, speed: u32, follows: bool, now: u64) -> (w: Self)
        ensures
            w.wf(),
            w@.bot == super::events::new_bot(
                player@,
                password@,
                ""@,
                ""@,
                ""@,
                ""@,
                speed,
                now,
            ),
            w@.follows == follows,
            w@.started == now,
    {
        Walker { bot: Bot::new(player, password, "", "", "", "", speed, now), follows, started: now }
    }

    fn note_speaker(&mut self, sender: &String, message: &str)
        requires
            old(self).wf(),
        ensures
            final(self).wf(),
            final(self)@ == (WalkerView {
                bot: speaker_noted(old(self)@.bot, sender@, message@),
                ..old(self)@
            }),
    {
        if self.bot.follow_target_name.is_none() {
            self.bot.follow_target_name = chat_speaker(&self.bot.session.player, sender, message);
        }
        if let Some(name) = &self.bot.follow_target_name {
            self.bot.follow_target_id = find_target_id(&self.bot.players, Some(name.as_str()));
        }
    }

    /// Takes an event of the connection.
    pub fn take_event(&mut self, event: &MtpEvent, facts: &EventFacts, now: u64) -> (result: Result<
        Outcome,
        ChatFault,
    >)
        requires
            old(self).wf(),
        ensures
            final(self).wf(),
            match event@ {
                EventView::ToClientHello { auth_mechs, proto_ver, ser_ver } => {
                    &&& result is Ok
                    &&& final(self)@ == (WalkerView {
                        bot: BotView { session: final(self)@.bot.session, ..old(self)@.bot },
                        ..old(self)@
                    })
                    &&& greeted(
                        old(self)@.bot.session,
                        final(self)@.bot.session,
                        result->Ok_0,
                        auth_mechs,
                        proto_ver,
                        ser_ver,
                    )
                },
                _ => {
                    let (after, outcome) = walker_after(old(self)@, event@, *facts, now);
                    final(self)@ == after && outcome_of(result) == outcome
                },
            },
    {
        match event {
            MtpEvent::MovePlayer { .. } => Ok(
                self.bot.session.take_event(event, facts.pitch, facts.yaw),
            ),
            MtpEvent::ChatMessage { sender, message, .. } => {
                if self.follows {
                    self.note_speaker(sender, message.as_str());
                }
                Ok(Outcome::Continue)
            },
            _ => self.bot.take_event(event, facts, now),
        }
    }

    /// Whether the server has not accepted the player in time.
    pub fn timed_out(&self, now: u64) -> (late: bool)
        ensures
            late == too_late(self@.bot.session, self@.started, now),
    {
        self.bot.session.timed_out(self.started, now)
    }

    /// Says where the player is who is followed.
    pub fn heading(&self) -> (heading: Heading)
        ensures
            heading == walker_heading(self@),
    {
        match self.bot.follow_target_id {
            Some(id) => match self.bot.players.get(id) {
                Some(p) => Heading::Player(p.pos),
                None => Heading::Nowhere,
            },
            None => Heading::Nowhere,
        }
    }

    /// Says which keys lead to the player who is followed.
    pub fn keys(&self, f: &StepFacts) -> (keys: (bool, bool))
        ensures
            keys == wanted_keys(walker_heading(self@), *f),
    {
        match self.heading() {
            Heading::Player(_) => (f.far || (f.above && f.apart), f.above),
            _ => (false, false),
        }
    }

    /// Takes a step, and leaves if it is the last one.
    pub fn step(&mut self, forward: bool, jump: bool, over: bool, fields: &WireFields, now: u64) -> (result:
        Result<Outcome, OutboundError>)
        requires
            old(self).wf(),
        ensures
            final(self).wf(),
            match walked(old(self)@, forward, jump, over, *fields, now) {
                Some(w) => result == Ok::<Outcome, OutboundError>(
                    if over {
                        Outcome::Finished
                    } else {
                        Outcome::Continue
                    },
                ) && final(self)@ == w,
                None => result is Err && result->Err_0@ == OutboundErrorView::UnsafeState(
                    fields.summary@,
                ) && final(self)@ == (WalkerView {
                    bot: keys_pressed(old(self)@.bot, forward, jump, false),
                    ..old(self)@
                }),
            },
    {
        self.bot.report_step(forward, jump, false, fields, now)?;
        if over {
            self.bot.session.conn.send_control_disco();
            return Ok(Outcome::Finished);
        }
        Ok(Outcome::Continue)
    }
}

/// A session that waits for the first player to speak and hands that player's name
/// to two chat commands.
pub struct Herald {
    pub session: Session,
    pub target: Option<String>,
    pub sent_tp: bool,
    pub sent_follow: bool,
    pub tp_cmd: String,
    pub follow_cmd: String,
}

/// The value of a [`Herald`].
pub ghost struct HeraldView {
    pub session: SessionView,
    pub target: Option<Seq<char>>,
    pub sent_tp: bool,
    pub sent_follow: bool,
    pub tp_cmd: Seq<char>,
    pub follow_cmd: Seq<char>,
}

impl View for Herald {
    type V = HeraldView;

    open spec fn view(&self) -> HeraldView {
        HeraldView {
            session: self.session@,
            target: text_view(self.target),
            sent_tp: self.sent_tp,
            sent_follow: self.sent_follow,
            tp_cmd: self.tp_cmd@,
            follow_cmd: self.follow_cmd@,
        }
    }
}

/// The first player who speaks is the target.
pub open spec fn target_noted(h: HeraldView, sender: Seq<char>, message: Seq<char>) -> HeraldView {
    match (h.target, speaker(h.session.player, sender, message)) {
        (None, Some(name)) => HeraldView { target: Some(normalized(name)), ..h },
        _ => h,
    }
}

pub open spec fn herald_after(h: HeraldView, event: EventView) -> (HeraldView, Outcome) {
    match event {
        EventView::ChatMessage { sender, message, .. } => (
            target_noted(h, sender, message),
            Outcome::Continue,
        ),
        EventView::MovePlayer { .. } => (h, Outcome::Continue),
        _ => {
            let (session, outcome) = session_after(h.session, event, 0, 0);
            (HeraldView { session, ..h }, outcome)
        },
    }
}

/// The command to teleport is sent, once.
pub open spec fn teleport_asked(h: HeraldView, name: Seq<char>) -> HeraldView {
    if !h.sent_tp && h.tp_cmd.len() > 0 {
        HeraldView {
            session: SessionView {
                conn: chat_sent(h.session.conn, with_player_name(h.tp_cmd, name)),
                ..h.session
            },
            sent_tp: true,
            ..h
        }
    } else {
        h
    }
}

/// The command to follow is sent, once.
pub open spec fn follow_asked(h: HeraldView, name: Seq<char>) -> HeraldView {
    if !h.sent_follow && h.follow_cmd.len() > 0 {
        HeraldView {
            session: SessionView {
                conn: chat_sent(h.session.conn, with_player_name(h.follow_cmd, name)),
                ..h.session
            },
            sent_follow: true,
            ..h
        }
    } else {
        h
    }
}

/// Once the client is ready and the target is known, both commands are sent; when
/// they are, the session is over.
pub open spec fn heralded(h: HeraldView) -> (HeraldView, Outcome) {
    let ready = HeraldView { session: ready_reported(h.session), ..h };
    match ready.target {
        Some(name) => if ready.session.ready && ready.session.sent_client_ready {
            let asked = follow_asked(teleport_asked(ready, name), name);
            if asked.sent_tp && asked.sent_follow {
                (
                    HeraldView {
                        session: SessionView {
                            conn: disconnected(asked.session.conn),
                            ..asked.session
                        },
                        ..asked
                    },
                    Outcome::Finished,
                )
            } else {
                (asked, Outcome::Continue)
            }
        } else {
            (ready, Outcome::Continue)
        },
        None => (ready, Outcome::Continue),
    }
}

impl Herald {
    pub open spec fn wf(&self) -> bool {
        self.session.wf()
    }

    pub fn new(player: &str, password: &str, tp_cmd: &str, follow_cmd: &str, now: u64) -> (h: Self)
        ensures
            h.wf(),
            h@ == (HeraldView {
                session: new_session(Mode::Stay, player@, password@, now),
                target: None,
                sent_tp: false,
                sent_follow: false,
                tp_cmd: tp_cmd@,
                follow_cmd: follow_cmd@,
            }),
    {
        Herald {
            session: Session::new(Mode::Stay, player, password, now),
            target: None,
            sent_tp: false,
            sent_follow: false,
            tp_cmd: tp_cmd.to_owned(),
            follow_cmd: follow_cmd.to_owned(),
        }
    }

    /// Takes an event of the connection.
    pub fn take_event(&mut self, event: &MtpEvent) -> (outcome: Outcome)
        requires
            old(self).wf(),
        ensures
            final(self).wf(),
            match event@ {
                EventView::ToClientHello { auth_mechs, proto_ver, ser_ver } => {
                    &&& final(self)@ == (HeraldView {
                        session: final(self)@.session,
                        ..old(self)@
                    })
                    &&& greeted(
                        old(self)@.session,
                        final(self)@.session,
                        outcome,
                        auth_mechs,
                        proto_ver,
                        ser_ver,
                    )
                },
                _ => (final(self)@, outcome) == herald_after(old(self)@, event@),
            },
    {
        match event {
            MtpEvent::ChatMessage { sender, message, .. } => {
                if self.target.is_none() {
                    if let Some(name) = chat_speaker(
                        &self.session.player,
                        sender,
                        message.as_str(),
                    ) {
                        self.target = Some(normalize_player_name(name.as_str()));
                    }
                }
                Outcome::Continue
            },
            MtpEvent::MovePlayer { .. } => Outcome::Continue,
            _ => self.session.take_event(event, 0, 0),
        }
    }

    fn ask_teleport(&mut self, name: &str)
        requires
            old(self).wf(),
        ensures
            final(self).wf(),
            final(self)@ == teleport_asked(old(self)@, name@),
    {
        if !self.sent_tp && !self.tp_cmd.as_str().is_empty() {
            proof {
                reveal_strlit("{player}");
                assert("{player}"@.len() == 8);
            }
            let line = replace(self.tp_cmd.as_str(), "{player}", name);
            self.session.conn.send_chat_message(line.as_str());
            self.sent_tp = true;
        }
    }

    fn ask_follow(&mut self, name: &str)
        requires
            old(self).wf(),
        ensures
            final(self).wf(),
            final(self)@ == follow_asked(old(self)@, name@),
    {
        if !self.sent_follow && !self.follow_cmd.as_str().is_empty() {
            proof {
                reveal_strlit("{player}");
                assert("{player}"@.len() == 8);
            }
            let line = replace(self.follow_cmd.as_str(), "{player}", name);
            self.session.conn.send_chat_message(line.as_str());
            self.sent_follow = true;
        }
    }

    /// Sends the commands once that is possible.
    pub fn advance(&mut self) -> (outcome: Outcome)
        requires
            old(self).wf(),
        ensures
            final(self).wf(),
            (final(self)@, outcome) == heralded(old(self)@),
    {
        self.session.report_ready();
        if !self.session.ready || !self.session.sent_client_ready {
            return Outcome::Continue;
        }
        let name = match &self.target {
            Some(name) => name.clone(),
            None => return Outcome::Continue,
        };
        self.ask_teleport(name.as_str());
        self.ask_follow(name.as_str());
        if self.sent_tp && self.sent_follow {
            self.session.conn.send_control_disco();
            return Outcome::Finished;
        }
        Outcome::Continue
    }
}

/// Whoever speaks first stays the target, whoever speaks later.
pub proof fn first_speaker_stays(h: HeraldView, event: EventView)
    requires
        h.target is Some,
        !(event is ToClientHello),
    ensures
        herald_after(h, event).0.target == h.target,
{
}

/// Each command is sent at most once, however often the session goes on.
pub proof fn commands_are_sent_once(h: HeraldView)
    requires
        h.sent_tp,
        h.sent_follow,
    ensures
        heralded(h).0.session.conn == (if h.target is Some && ready_reported(h.session).ready
            && ready_reported(h.session).sent_client_ready {
            disconnected(ready_reported(h.session).conn)
        } else {
            ready_reported(h.session).conn
        }),
{
}

/// A chat message makes a player known: its sender, where it has one other than the bot, or else
/// whoever it says has joined.
pub proof fn messages_make_players_known(
    own_name: Seq<char>,
    sender: Seq<char>,
    message: Seq<char>,
)
    ensures
        sender.len() > 0 && sender != own_name ==> speaker(own_name, sender, message) == Some(
            sender,
        ),
        sender.len() == 0 || sender == own_name ==> speaker(own_name, sender, message)
            == match joined_player(message) {
            Some(name) => if name == own_name {
                None
            } else {
                Some(name)
            },
            None => None,
        },
        speaker(own_name, sender, message) != Some(own_name),
{
}

/// Whoever is known first is followed and stays so; by what number is looked up with every
/// message.
pub proof fn first_known_player_is_followed(b: BotView, sender: Seq<char>, message: Seq<char>)
    ensures
        ({
            let after = speaker_noted(b, sender, message);
            let name = if b.follow_target_name is Some {
                b.follow_target_name
            } else {
                speaker(b.session.player, sender, message)
            };
            &&& after.follow_target_name == name
            &&& name is Some ==> after.follow_target_id == target_id(b.players, name)
            &&& name is None ==> after == b
            &&& after.session == b.session && after.players == b.players
        }),
{
}

/// A walker takes the first position as its own, listens to chat only to learn whom to follow, and
/// takes everything else as a bot does.
pub proof fn walkers_take_events(
    w: WalkerView,
    pos: Vec3,
    degrees: (u32, u32),
    message_type: u8,
    sender: Seq<char>,
    message: Seq<char>,
    data: Seq<u8>,
    facts: EventFacts,
    now: u64,
)
    ensures
        ({
            let moved = EventView::MovePlayer {
                pos,
                pitch_degrees: degrees.0,
                yaw_degrees: degrees.1,
            };
            let (after, outcome) = walker_after(w, moved, facts, now);
            &&& after.bot.session == session_after(
                w.bot.session,
                moved,
                facts.pitch,
                facts.yaw,
            ).0
            &&& after.follows == w.follows && after.started == w.started
        }),
        ({
            let said = EventView::ChatMessage { message_type, sender, message };
            let (after, outcome) = walker_after(w, said, facts, now);
            &&& after.bot == if w.follows {
                speaker_noted(w.bot, sender, message)
            } else {
                w.bot
            }
            &&& outcome == Ok::<Outcome, ChatFaultView>(Outcome::Continue)
        }),
        ({
            let defs = EventView::NodeDef { data };
            let (after, outcome) = walker_after(w, defs, facts, now);
            &&& after.bot == event_taken(w.bot, defs, facts, now).0
            &&& outcome == event_taken(w.bot, defs, facts, now).1
        }),
{
}

/// A walker heads for whom it follows, where that player is in view.
pub proof fn walkers_head_for_whom_they_follow(w: WalkerView)
    ensures
        match w.bot.follow_target_id {
            Some(id) => match player_with_id(w.bot.players, id) {
                Some(p) => walker_heading(w) == Heading::Player(p.pos),
                None => walker_heading(w) == Heading::Nowhere,
            },
            None => walker_heading(w) == Heading::Nowhere,
        },
{
}

/// A step is reported, and the last one is followed by a farewell.
pub proof fn last_steps_say_farewell(
    w: WalkerView,
    forward: bool,
    jump: bool,
    fields: WireFields,
    now: u64,
)
    ensures
        match step_reported(keys_pressed(w.bot, forward, jump, false), fields, now) {
            Some(b) => {
                let on = walked(w, forward, jump, false, fields, now);
                let last = walked(w, forward, jump, true, fields, now);
                &&& on is Some && on->0.bot == b
                &&& last is Some && last->0.bot.session.conn == disconnected(b.session.conn)
                &&& last->0.bot.session.state == b.session.state
            },
            None => walked(w, forward, jump, false, fields, now) is None && walked(
                w,
                forward,
                jump,
                true,
                fields,
                now,
            ) is None,
        },
{
}

/// Once the client is ready and somebody is known, the command to teleport is said and then the
/// command to follow, each with that player's name and only if it was not said before;
/// when both are said the session ends with a farewell.
pub proof fn heralds_hand_the_name_on(h: HeraldView, name: Seq<char>)
    requires
        h.target == Some(name),
        h.session.ready,
        h.session.sent_client_ready,
        h.tp_cmd.len() > 0,
        h.follow_cmd.len() > 0,
    ensures
        ({
            let (after, outcome) = heralded(h);
            let first = if h.sent_tp {
                h.session.conn
            } else {
                chat_sent(h.session.conn, replaced(h.tp_cmd, "{player}"@, name))
            };
            let second = if h.sent_follow {
                first
            } else {
                chat_sent(first, replaced(h.follow_cmd, "{player}"@, name))
            };
            &&& outcome == Outcome::Finished
            &&& after.sent_tp && after.sent_follow
            &&& after.session.conn == disconnected(second)
            &&& after.target == h.target
        }),
{
}

/// Before that nothing is said, and a command that is empty is never said.
pub proof fn heralds_wait(h: HeraldView)
    requires
        h.session.sent_client_ready,
    ensures
        h.target is None || !h.session.ready ==> heralded(h).0.session.conn == h.session.conn
            && heralded(h).1 == Outcome::Continue,
        h.tp_cmd.len() == 0 && !h.sent_tp ==> heralded(h).1 == Outcome::Continue
            && !heralded(h).0.sent_tp,
{
}

/// The first player who is known is the herald's target, by the bare name.
pub proof fn heralds_note_the_first_player(
    h: HeraldView,
    message_type: u8,
    sender: Seq<char>,
    message: Seq<char>,
)
    ensures
        ({
            let said = EventView::ChatMessage { message_type, sender, message };
            let (after, outcome) = herald_after(h, said);
            &&& outcome == Outcome::Continue
            &&& after.session == h.session
            &&& after.target == match h.target {
                Some(name) => Some(name),
                None => match speaker(h.session.player, sender, message) {
                    Some(name) => Some(normalized(name)),
                    None => None,
                },
            }
        }),
{
}

} // verus!
