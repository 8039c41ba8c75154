//! What the events of a connection do to the bot, and the work that is due in every
//! turn.

use super::chat::{allowed_names, parse_allowlist, ChatLog, LogView};
use super::entities::{
    find_target_id, init_info_in, parse_active_object_init, parse_active_object_update_position,
    place_is_first, player_moved, player_with_id, players_are_known_by_their_number, target_id,
    updated_position, with_player, without_player, Players, RemotePlayer, RemoteView,
};
use super::messages::{chat_taken, ChatFacts, ChatFault, ChatFaultView};
use super::navigation::{navigation_begun, NavigationSnapshot};
use super::replies::{PendingReplies, RepliesView};
use super::runtime::{
    craft_part, mining_part, transfer_part, with_conn, with_craft, with_mining, with_transfer, Bot,
    BotView,
};
use super::tasks::crafting::{advance_native_craft, craft_advanced, CraftState};
use super::tasks::inventory::{
    advance_native_inventory_transfer, transfer_advanced, TaskIds, TransferState,
};
use super::tasks::mining::{advance_native_mining, mining_advanced};
use crate::compress::zstd_content;
use crate::game::navigation::{fresh, AntiStuck};
use crate::game::player::{standard_movement, MovementSettings, PlayerState, WireFields};
use crate::json::str_view;
use crate::network::connection::sent_reliably;
use crate::network::events::{
    ActiveObjectInit, ActiveObjectMessage, EventView, InitView, MessageView, MtpEvent,
};
use crate::network::outbound::{gotblocks_payload, OutboundError, OutboundErrorView};
use crate::network::protocol::{LATEST_PROTOCOL_VERSION, SER_FMT_VER_HIGHEST_READ};
use crate::nodedef::{nodedef_of, parse_nodedef_zstd};
use crate::scan::pieces;
use crate::session::{greeted, new_session, session_after, Mode, Outcome, Session, SessionView};
use crate::types::{BlockPos, Vec3};
use crate::world::{block_nodes, World, WorldView};
use vstd::prelude::*;

verus! {

/// What the caller computes for an event.
pub struct EventFacts {
    /// The angles of a player that the server moves, in radians.
    pub pitch: u32,
    pub yaw: u32,
    pub chat: ChatFacts,
}

/// The server has put the player somewhere.
#[verifier::opaque]
pub open spec fn moved_by_server(b: BotView, pos: Vec3, pitch: u32, yaw: u32) -> BotView {
    BotView {
        session: SessionView {
            state: PlayerState {
                pos,
                pitch,
                yaw,
                speed: Vec3 { x: 0, y: 0, z: 0 },
                ..b.session.state
            },
            got_spawn: true,
            ..b.session
        },
        last_server_pos: Some(pos),
        last_sent_pos: Some(pos),
        ..b
    }
}

/// The definitions of the nodes have come; those that cannot be read are dropped.
#[verifier::opaque]
pub open spec fn defined(b: BotView, data: Seq<u8>) -> BotView {
    match zstd_content(data) {
        Ok(content) => match nodedef_of(content) {
            Ok(m) => BotView { world: WorldView { nodedef: Some(m), ..b.world }, ..b },
            Err(_) => b,
        },
        Err(_) => b,
    }
}

/// A block has come; one that can be read is kept and will be confirmed.
#[verifier::opaque]
pub open spec fn block_taken(b: BotView, pos: BlockPos, data: Seq<u8>) -> BotView {
    match block_nodes(data) {
        Ok(nodes) => BotView {
            world: WorldView { blocks: b.world.blocks.insert(pos, nodes), ..b.world },
            gotblocks_pending: b.gotblocks_pending.push(pos),
            ..b
        },
        Err(_) => b,
    }
}

/// Objects have left the view; who was followed among them is lost.
pub open spec fn objects_removed(b: BotView, ids: Seq<u16>) -> BotView
    decreases ids.len(),
{
    if ids.len() == 0 {
        b
    } else {
        let before = objects_removed(b, ids.drop_last());
        BotView {
            players: without_player(before.players, ids.last()),
            follow_target_id: if before.follow_target_id == Some(ids.last()) {
                None
            } else {
                before.follow_target_id
            },
            ..before
        }
    }
}

/// The players in view once objects have come in; those that are no players, the
/// bot itself, and those that cannot be read are passed over.
pub open spec fn players_added(
    players: Seq<(u16, RemoteView)>,
    own_name: Seq<char>,
    added: Seq<InitView>,
) -> Seq<(u16, RemoteView)>
    decreases added.len(),
{
    if added.len() == 0 {
        players
    } else {
        let before = players_added(players, own_name, added.drop_last());
        match init_info_in(added.last().data) {
            Ok(info) => if info.is_player && info.name != own_name {
                with_player(
                    before,
                    added.last().id,
                    RemoteView { name: info.name, pos: info.pos },
                )
            } else {
                before
            },
            Err(_) => before,
        }
    }
}

/// The bot looks for the player that it follows among those in view.
pub open spec fn looked_for_target(b: BotView) -> BotView {
    if b.follow_target_id is None {
        BotView { follow_target_id: target_id(b.players, b.follow_target_name), ..b }
    } else {
        b
    }
}

/// Objects have left the view and others have come.
#[verifier::opaque]
pub open spec fn objects_changed(b: BotView, removed: Seq<u16>, added: Seq<InitView>) -> BotView {
    let left = objects_removed(b, removed);
    looked_for_target(
        BotView { players: players_added(left.players, left.session.player, added), ..left },
    )
}

/// The players once messages of their objects have said where they are.
pub open spec fn players_moved(players: Seq<(u16, RemoteView)>, messages: Seq<MessageView>) -> Seq<
    (u16, RemoteView),
>
    decreases messages.len(),
{
    if messages.len() == 0 {
        players
    } else {
        let before = players_moved(players, messages.drop_last());
        match updated_position(messages.last().data) {
            Ok(Some(pos)) => player_moved(before, messages.last().id, pos),
            _ => before,
        }
    }
}

/// An event that concerns the session alone has come in.
#[verifier::opaque]
pub open spec fn session_event_taken(b: BotView, event: EventView) -> (BotView, Outcome) {
    let (session, outcome) = session_after(b.session, event, 0, 0);
    (BotView { session, ..b }, outcome)
}

/// The bot once an event other than a hello has come in, and how its session goes on.
pub open spec fn event_taken(b: BotView, event: EventView, facts: EventFacts, now: u64) -> (
    BotView,
    Result<Outcome, ChatFaultView>,
) {
    match event {
        EventView::MovePlayer { pos, .. } => (
            moved_by_server(b, pos, facts.pitch, facts.yaw),
            Ok(Outcome::Continue),
        ),
        EventView::NodeDef { data } => {
            let (after, outcome) = session_event_taken(b, event);
            (defined(after, data), Ok(outcome))
        },
        EventView::Movement(movement) => (BotView { movement, ..b }, Ok(Outcome::Continue)),
        EventView::BlockData { pos, data } => (block_taken(b, pos, data), Ok(Outcome::Continue)),
        EventView::ActiveObjectRemoveAdd { removed, added } => (
            objects_changed(b, removed, added),
            Ok(Outcome::Continue),
        ),
        EventView::ActiveObjectMessages { messages } => (
            BotView { players: players_moved(b.players, messages), ..b },
            Ok(Outcome::Continue),
        ),
        EventView::ChatMessage { sender, message, .. } => {
            let (after, fault) = chat_taken(b, sender, message, facts.chat, now);
            (
                after,
                match fault {
                    Some(e) => Err(e),
                    None => Ok(Outcome::Continue),
                },
            )
        },
        _ => {
            let (after, outcome) = session_event_taken(b, event);
            (after, Ok(outcome))
        },
    }
}

/// How a session goes on, or what stopped it.
pub open spec fn outcome_of(result: Result<Outcome, ChatFault>) -> Result<Outcome, ChatFaultView> {
    match result {
        Ok(outcome) => Ok(outcome),
        Err(e) => Err(e@),
    }
}

/// A bot that has just connected.
pub open spec fn new_bot(
    player: Seq<char>,
    password: Seq<char>,
    allow: Seq<char>,
    tp_cmd: Seq<char>,
    follow_cmd: Seq<char>,
    stop_cmd: Seq<char>,
    follow_speed: u32,
    now: u64,
) -> BotView {
    BotView {
        session: new_session(Mode::Stay, player, password, now),
        replies: RepliesView { waiting: Map::empty(), next_ticket: 0, delivered: seq![] },
        chat_log: LogView { next_id: 1, entries: seq![] },
        world: WorldView { blocks: Map::empty(), nodedef: None },
        players: seq![],
        movement: standard_movement(),
        follow_enabled: false,
        follow_target_name: None,
        follow_target_id: None,
        move_goal: None,
        mining: None,
        transfer: None,
        craft: None,
        transfer_ids: 1,
        craft_ids: 1,
        anti_stuck: fresh(),
        navigation: navigation_begun("idle"@),
        gotblocks_pending: seq![],
        last_sent_pos: None,
        last_server_pos: None,
        allow_list: allowed_names(pieces(allow, ',')),
        tp_cmd,
        follow_cmd,
        stop_cmd,
        follow_speed,
    }
}

/// At most so many blocks are confirmed at once.
pub const CONFIRMED_AT_ONCE: usize = 10;

/// The blocks that came first are confirmed.
pub open spec fn blocks_confirmed(b: BotView) -> BotView {
    let count = if b.gotblocks_pending.len() < CONFIRMED_AT_ONCE {
        b.gotblocks_pending.len() as int
    } else {
        CONFIRMED_AT_ONCE as int
    };
    if count == 0 {
        b
    } else {
        with_conn(
            BotView { gotblocks_pending: b.gotblocks_pending.skip(count), ..b },
            sent_reliably(b.session.conn, gotblocks_payload(b.gotblocks_pending.take(count))),
        )
    }
}

/// The tasks go on as far as time allows.
#[verifier::opaque]
pub open spec fn tasks_advanced(b: BotView, fields: WireFields, in_reach: bool, now: u64) -> Result<
    BotView,
    OutboundErrorView,
> {
    match mining_advanced(mining_part(b), b.session.state, fields, in_reach, now) {
        Err(e) => Err(e),
        Ok(mining) => {
            let b1 = with_mining(b, mining);
            let b2 = with_transfer(b1, transfer_advanced(transfer_part(b1), now));
            Ok(with_craft(b2, craft_advanced(craft_part(b2), now)))
        },
    }
}

impl Bot {
    pub fn new(
        player: &str,
        password: &str,
        allow: &str,
        tp_cmd: &str,
        follow_cmd: &str,
        stop_cmd: &str,
        follow_speed: u32,
        now: u64,
    ) -> (bot: Self)
        ensures
            bot.wf(),
            bot@ == new_bot(
                player@,
                password@,
                allow@,
                tp_cmd@,
                follow_cmd@,
                stop_cmd@,
                follow_speed,
                now,
            ),
    {
        Bot {
            session: Session::new(Mode::Stay, player, password, now),
            replies: PendingReplies::default(),
            chat_log: ChatLog::default(),
            world: World::new(),
            players: Players::new(),
            movement: MovementSettings::default(),
            follow_enabled: false,
            follow_target_name: None,
            follow_target_id: None,
            move_goal: None,
            mining: None,
            transfer: None,
            craft: None,
            transfer_ids: TaskIds::new(),
            craft_ids: TaskIds::new(),
            anti_stuck: AntiStuck::default(),
            navigation: NavigationSnapshot::default(),
            gotblocks_pending: Vec::new(),
            last_sent_pos: None,
            last_server_pos: None,
            allow_list: parse_allowlist(allow),
            tp_cmd: tp_cmd.to_owned(),
            follow_cmd: follow_cmd.to_owned(),
            stop_cmd: stop_cmd.to_owned(),
            follow_speed,
        }
    }

    fn take_move(&mut self, pos: Vec3, pitch: u32, yaw: u32)
        requires
            old(self).wf(),
        ensures
            final(self).wf(),
            final(self)@ == moved_by_server(old(self)@, pos, pitch, yaw),
    {
        proof {
            reveal(moved_by_server);
        }
        self.last_server_pos = Some(pos);
        self.session.state.pos = pos;
        self.session.state.pitch = pitch;
        self.session.state.yaw = yaw;
        self.session.state.speed = Vec3 { x: 0, y: 0, z: 0 };
        self.last_sent_pos = Some(pos);
        self.session.got_spawn = true;
    }

    fn take_definitions(&mut self, data: &[u8])
        requires
            old(self).wf(),
        ensures
            final(self).wf(),
            final(self)@ == defined(old(self)@, data@),
    {
        proof {
            reveal(defined);
        }
        let version: u16 = match self.session.proto_ver {
            Some(v) => v,
            None => LATEST_PROTOCOL_VERSION,
        };
        if let Ok(manager) = parse_nodedef_zstd(data, version) {
            self.world.set_nodedef(manager);
        }
    }

    fn take_block(&mut self, pos: BlockPos, data: &[u8])
        requires
            old(self).wf(),
        ensures
            final(self).wf(),
            final(self)@ == block_taken(old(self)@, pos, data@),
    {
        proof {
            reveal(block_taken);
        }
        let version: u8 = match self.session.ser_ver {
            Some(v) => v,
            None => SER_FMT_VER_HIGHEST_READ,
        };
        if self.world.ingest_block(pos, data, version).is_ok() {
            self.gotblocks_pending.push(pos);
        }
    }

    fn remove_objects(&mut self, ids: &[u16])
        requires
            old(self).wf(),
        ensures
            final(self).wf(),
            final(self)@ == objects_removed(old(self)@, ids@),
    {
        let mut i: usize = 0;
        assert(ids@.take(0) =~= Seq::empty());
        while i < ids.len()
            invariant
                i <= ids.len(),
                self.wf(),
                self@ == objects_removed(old(self)@, ids@.take(i as int)),
            decreases ids.len() - i,
        {
            let id: u16 = ids[i];
            self.players.remove(id);
            if self.follow_target_id == Some(id) {
                self.follow_target_id = None;
            }
            proof {
                assert(ids@.take(i + 1).drop_last() =~= ids@.take(i as int));
            }
            i = i + 1;
        }
        assert(ids@.take(ids@.len() as int) =~= ids@);
    }

    fn add_objects(&mut self, added: &Vec<ActiveObjectInit>)
        requires
            old(self).wf(),
        ensures
            final(self).wf(),
            final(self)@ == (BotView {
                players: players_added(
                    old(self)@.players,
                    old(self)@.session.player,
                    added@.map_values(|o: ActiveObjectInit| o@),
                ),
                ..old(self)@
            }),
    {
        let ghost views = added@.map_values(|o: ActiveObjectInit| o@);
        let ghost own_name = self@.session.player;
        let mut i: usize = 0;
        assert(views.take(0) =~= Seq::empty());
        while i < added.len()
            invariant
                i <= added.len(),
                views == added@.map_values(|o: ActiveObjectInit| o@),
                self.wf(),
                own_name == old(self)@.session.player,
                self@ == (BotView {
                    players: players_added(old(self)@.players, own_name, views.take(i as int)),
                    ..old(self)@
                }),
            decreases added.len() - i,
        {
            proof {
                assert(views.take(i + 1).drop_last() =~= views.take(i as int));
                assert(views.take(i + 1).last() == added@[i as int]@);
            }
            if let Ok(info) = parse_active_object_init(added[i].data.as_slice()) {
                if info.is_player && info.name != self.session.player {
                    self.players.insert(
                        added[i].id,
                        RemotePlayer { name: info.name, pos: info.pos },
                    );
                }
            }
            i = i + 1;
        }
        assert(views.take(views.len() as int) =~= views);
    }

    pub(crate) fn look_for_target(&mut self)
        requires
            old(self).wf(),
        ensures
            final(self).wf(),
            final(self)@ == looked_for_target(old(self)@),
    {
        if self.follow_target_id.is_none() {
            let name = match &self.follow_target_name {
                Some(name) => Some(name.as_str()),
                None => None,
            };
            assert(str_view(name) == self@.follow_target_name);
            self.follow_target_id = find_target_id(&self.players, name);
        }
    }

    fn change_objects(&mut self, removed: &[u16], added: &Vec<ActiveObjectInit>)
        requires
            old(self).wf(),
        ensures
            final(self).wf(),
            final(self)@ == objects_changed(
                old(self)@,
                removed@,
                added@.map_values(|o: ActiveObjectInit| o@),
            ),
    {
        proof {
            reveal(objects_changed);
        }
        self.remove_objects(removed);
        self.add_objects(added);
        self.look_for_target();
    }

    fn move_players(&mut self, messages: &Vec<ActiveObjectMessage>)
        requires
            old(self).wf(),
        ensures
            final(self).wf(),
            final(self)@ == (BotView {
                players: players_moved(
                    old(self)@.players,
                    messages@.map_values(|m: ActiveObjectMessage| m@),
                ),
                ..old(self)@
            }),
    {
        let ghost views = messages@.map_values(|m: ActiveObjectMessage| m@);
        let mut i: usize = 0;
        assert(views.take(0) =~= Seq::empty());
        while i < messages.len()
            invariant
                i <= messages.len(),
                views == messages@.map_values(|m: ActiveObjectMessage| m@),
                self.wf(),
                self@ == (BotView {
                    players: players_moved(old(self)@.players, views.take(i as int)),
                    ..old(self)@
                }),
            decreases messages.len() - i,
        {
            proof {
                assert(views.take(i + 1).drop_last() =~= views.take(i as int));
                assert(views.take(i + 1).last() == messages@[i as int]@);
            }
            if let Ok(Some(pos)) = parse_active_object_update_position(
                messages[i].data.as_slice(),
            ) {
                self.players.set_pos(messages[i].id, pos);
            }
            i = i + 1;
        }
        assert(views.take(views.len() as int) =~= views);
    }

    fn take_session_event(&mut self, event: &MtpEvent) -> (outcome: Outcome)
        requires
            old(self).wf(),
        ensures
            final(self).wf(),
            final(self)@ == (BotView { session: final(self)@.session, ..old(self)@ }),
            match event@ {
                EventView::ToClientHello { auth_mechs, proto_ver, ser_ver } => greeted(
                    old(self)@.session,
                    final(self)@.session,
                    outcome,
                    auth_mechs,
                    proto_ver,
                    ser_ver,
                ),
                _ => (final(self)@, outcome) == session_event_taken(old(self)@, event@),
            },
    {
        proof {
            reveal(session_event_taken);
        }
        self.session.take_event(event, 0, 0)
    }

    /// Takes an event of the connection.
    pub fn take_event(&mut self, event: &MtpEvent, facts: &EventFacts, now: u64) -> (result: Result<
        Outcome,
        ChatFault,
    >)
        requires
            old(self).wf(),
        ensures
            final(self).wf(),
            match event@ {
                EventView::ToClientHello { auth_mechs, proto_ver, ser_ver } => {
                    &&& result is Ok
                    &&& final(self)@ == (BotView { session: final(self)@.session, ..old(self)@ })
                    &&& greeted(
                        old(self)@.session,
                        final(self)@.session,
                        result->Ok_0,
                        auth_mechs,
                        proto_ver,
                        ser_ver,
                    )
                },
                _ => {
                    let (after, outcome) = event_taken(old(self)@, event@, *facts, now);
                    final(self)@ == after && outcome_of(result) == outcome
                },
            },
    {
        match event {
            MtpEvent::MovePlayer { pos, .. } => {
                self.take_move(*pos, facts.pitch, facts.yaw);
                Ok(Outcome::Continue)
            },
            MtpEvent::NodeDef { data } => {
                let outcome = self.take_session_event(event);
                self.take_definitions(data.as_slice());
                Ok(outcome)
            },
            MtpEvent::Movement(settings) => {
                self.movement = *settings;
                Ok(Outcome::Continue)
            },
            MtpEvent::BlockData { pos, data } => {
                self.take_block(*pos, data.as_slice());
                Ok(Outcome::Continue)
            },
            MtpEvent::ActiveObjectRemoveAdd { removed, added } => {
                self.change_objects(removed.as_slice(), added);
                Ok(Outcome::Continue)
            },
            MtpEvent::ActiveObjectMessages { messages } => {
                self.move_players(messages);
                Ok(Outcome::Continue)
            },
            MtpEvent::ChatMessage { sender, message, .. } => match self.take_chat(
                sender.as_str(),
                message.as_str(),
                &facts.chat,
                now,
            ) {
                Ok(()) => Ok(Outcome::Continue),
                Err(e) => Err(e),
            },
            _ => Ok(self.take_session_event(event)),
        }
    }

    /// Confirms the blocks that came first, at most [`CONFIRMED_AT_ONCE`] of them.
    pub fn confirm_blocks(&mut self)
        requires
            old(self).wf(),
        ensures
            final(self).wf(),
            final(self)@ == blocks_confirmed(old(self)@),
    {
        let count: usize = if self.gotblocks_pending.len() < CONFIRMED_AT_ONCE {
            self.gotblocks_pending.len()
        } else {
            CONFIRMED_AT_ONCE
        };
        if count == 0 {
            return ;
        }
        let rest = self.gotblocks_pending.split_off(count);
        self.session.conn.send_gotblocks(self.gotblocks_pending.as_slice());
        self.gotblocks_pending = rest;
        proof {
            let all = old(self)@.gotblocks_pending;
            assert(rest@ =~= all.skip(count as int));
            assert(all.subrange(0, count as int) =~= all.take(count as int));
        }
    }

    fn advance_mining(&mut self, fields: &WireFields, in_reach: bool, now: u64) -> (result: Result<
        (),
        OutboundError,
    >)
        requires
            old(self).wf(),
        ensures
            final(self).wf(),
            match mining_advanced(
                mining_part(old(self)@),
                old(self)@.session.state,
                *fields,
                in_reach,
                now,
            ) {
                Ok(s) => result is Ok && final(self)@ == with_mining(old(self)@, s),
                Err(e) => result is Err && result->Err_0@ == e && final(self)@ == old(self)@,
            },
    {
        let state: PlayerState = self.session.state;
        advance_native_mining(
            &mut self.mining,
            &mut self.session.conn,
            &state,
            fields,
            in_reach,
            &mut self.replies,
            &mut self.navigation,
            now,
        )
    }

    /// Lets the tasks go on as far as time allows. `in_reach` says that the node
    /// being dug can be reached from here.
    pub fn advance_tasks(&mut self, fields: &WireFields, in_reach: bool, now: u64) -> (result: Result<
        (),
        OutboundError,
    >)
        requires
            old(self).wf(),
        ensures
            final(self).wf(),
            match tasks_advanced(old(self)@, *fields, in_reach, now) {
                Ok(b) => result is Ok && final(self)@ == b,
                Err(e) => result is Err && result->Err_0@ == e && final(self)@ == old(self)@,
            },
    {
        proof {
            reveal(tasks_advanced);
        }
        self.advance_mining(fields, in_reach, now)?;
        advance_native_inventory_transfer(
            &mut self.transfer,
            &mut self.session.conn,
            &mut self.replies,
            now,
        );
        advance_native_craft(
            &mut self.craft,
            &mut self.session.conn,
            &mut self.replies,
            now,
        );
        Ok(())
    }
}

/// No two players in view have the same id.
pub open spec fn distinct_ids(players: Seq<(u16, RemoteView)>) -> bool {
    forall|i: int, j: int| 0 <= i < j < players.len() ==> players[i].0 != players[j].0
}

/// Nobody in view has the given name.
pub open spec fn nobody_named(players: Seq<(u16, RemoteView)>, name: Seq<char>) -> bool {
    forall|i: int| 0 <= i < players.len() ==> (#[trigger] players[i]).1.name != name
}

/// Where no two players have the same id, no two have after objects have come in;
/// and the bot does not come to see itself.
pub proof fn added_players_are_told_apart(
    players: Seq<(u16, RemoteView)>,
    own_name: Seq<char>,
    added: Seq<InitView>,
)
    requires
        distinct_ids(players),
        nobody_named(players, own_name),
    ensures
        distinct_ids(players_added(players, own_name, added)),
        nobody_named(players_added(players, own_name, added), own_name),
    decreases added.len(),
{
    if added.len() > 0 {
        let before = players_added(players, own_name, added.drop_last());
        added_players_are_told_apart(players, own_name, added.drop_last());
        place_is_first(before, added.last().id, 0);
    }
}

/// A player that has left is not in view any more, where no two have the same id.
pub proof fn removed_player_is_gone(players: Seq<(u16, RemoteView)>, id: u16)
    requires
        distinct_ids(players),
    ensures
        distinct_ids(without_player(players, id)),
        player_with_id(without_player(players, id), id) is None,
{
    place_is_first(players, id, 0);
    place_is_first(without_player(players, id), id, 0);
}

/// Where the server puts the player, there it is: at rest, with the angles that were computed,
/// and known as the last position on both sides.
pub proof fn server_moves_the_player(
    b: BotView,
    pos: Vec3,
    degrees: (u32, u32),
    facts: EventFacts,
    now: u64,
)
    ensures
        ({
            let (after, outcome) = event_taken(
                b,
                EventView::MovePlayer { pos, pitch_degrees: degrees.0, yaw_degrees: degrees.1 },
                facts,
                now,
            );
            &&& outcome == Ok::<Outcome, ChatFaultView>(Outcome::Continue)
            &&& after.session.state.pos == pos
            &&& after.session.state.pitch == facts.pitch
            &&& after.session.state.yaw == facts.yaw
            &&& after.session.state.speed == (Vec3 { x: 0, y: 0, z: 0 })
            &&& after.session.state.key_pressed == b.session.state.key_pressed
            &&& after.session.got_spawn
            &&& after.session.conn == b.session.conn
            &&& after.last_server_pos == Some(pos)
            &&& after.last_sent_pos == Some(pos)
            &&& after.move_goal == b.move_goal && after.mining == b.mining
        }),
{
    reveal(moved_by_server);
}

/// A block that can be read is what the map holds at its place from then on, and waits for its
/// confirmation; one that cannot be read changes nothing.
pub proof fn received_blocks_are_kept(
    b: BotView,
    pos: BlockPos,
    data: Seq<u8>,
    facts: EventFacts,
    now: u64,
)
    ensures
        ({
            let (after, outcome) = event_taken(b, EventView::BlockData { pos, data }, facts, now);
            &&& outcome == Ok::<Outcome, ChatFaultView>(Outcome::Continue)
            &&& match block_nodes(data) {
                Ok(nodes) => {
                    &&& after.world.blocks.dom().contains(pos)
                    &&& after.world.blocks[pos] == nodes
                    &&& after.world.blocks.remove(pos) == b.world.blocks.remove(pos)
                    &&& after.world.nodedef == b.world.nodedef
                    &&& after.gotblocks_pending == b.gotblocks_pending.push(pos)
                    &&& after.session == b.session && after.players == b.players
                },
                Err(_) => after == b,
            }
        }),
{
    reveal(block_taken);
    if let Ok(nodes) = block_nodes(data) {
        assert(b.world.blocks.insert(pos, nodes).remove(pos) =~= b.world.blocks.remove(pos));
    }
}

/// Definitions that can be read are the map's from then on; those that cannot are dropped.
pub proof fn received_definitions_are_kept(
    b: BotView,
    data: Seq<u8>,
    facts: EventFacts,
    now: u64,
)
    ensures
        ({
            let (after, outcome) = event_taken(b, EventView::NodeDef { data }, facts, now);
            &&& after.session == session_after(b.session, EventView::NodeDef { data }, 0, 0).0
            &&& outcome is Ok
            &&& after.world.blocks == b.world.blocks
            &&& after.world.nodedef == match zstd_content(data) {
                Ok(content) => match nodedef_of(content) {
                    Ok(m) => Some(m),
                    Err(_) => b.world.nodedef,
                },
                Err(_) => b.world.nodedef,
            }
        }),
{
    reveal(session_event_taken);
    reveal(defined);
}

/// Blocks are confirmed in the order in which they came, ten at a time, and each once: what is
/// confirmed and what still waits make up what waited.
pub proof fn blocks_are_confirmed_once(b: BotView)
    ensures
        ({
            let after = blocks_confirmed(b);
            let n = if b.gotblocks_pending.len() < 10 {
                b.gotblocks_pending.len() as int
            } else {
                10
            };
            let confirmed = b.gotblocks_pending.take(n);
            &&& confirmed + after.gotblocks_pending == b.gotblocks_pending
            &&& n == 0 ==> after == b
            &&& n > 0 ==> after.session.conn == sent_reliably(
                b.session.conn,
                gotblocks_payload(confirmed),
            )
        }),
{
    let n = if b.gotblocks_pending.len() < 10 {
        b.gotblocks_pending.len() as int
    } else {
        10
    };
    let after = blocks_confirmed(b);
    assert(b.gotblocks_pending.take(n) + after.gotblocks_pending =~= b.gotblocks_pending);
}

/// The objects that come are taken in order: a player who is not the bot itself is in view under
/// its number with the name and the position that it gives; everything else is passed
/// over.
pub proof fn players_come_into_view(
    players: Seq<(u16, RemoteView)>,
    own_name: Seq<char>,
    added: Seq<InitView>,
    o: InitView,
)
    ensures
        players_added(players, own_name, seq![]) == players,
        ({
            let before = players_added(players, own_name, added);
            let after = players_added(players, own_name, added.push(o));
            match init_info_in(o.data) {
                Ok(info) => if info.is_player && info.name != own_name {
                    player_with_id(after, o.id) == Some(
                        RemoteView { name: info.name, pos: info.pos },
                    ) && forall|other: u16|
                        other != o.id ==> #[trigger] player_with_id(after, other)
                            == player_with_id(before, other)
                } else {
                    after == before
                },
                Err(_) => after == before,
            }
        }),
{
    assert(added.push(o).drop_last() =~= added);
    let before = players_added(players, own_name, added);
    if let Ok(info) = init_info_in(o.data) {
        let p = RemoteView { name: info.name, pos: info.pos };
        if info.is_player && info.name != own_name {
            let after = with_player(before, o.id, p);
            assert forall|other: u16| other != o.id implies #[trigger] player_with_id(after, other)
                == player_with_id(before, other) by {
                players_are_known_by_their_number(before, o.id, p, p.pos, other);
            }
            let other = if o.id == 0 {
                1u16
            } else {
                0u16
            };
            players_are_known_by_their_number(before, o.id, p, p.pos, other);
        }
    }
}

/// The messages of objects are taken in order: one that moves a player in view puts it where it
/// says, under the same name; every other one changes nothing.
pub proof fn players_move_as_they_say(
    players: Seq<(u16, RemoteView)>,
    messages: Seq<MessageView>,
    m: MessageView,
)
    ensures
        players_moved(players, seq![]) == players,
        ({
            let before = players_moved(players, messages);
            let after = players_moved(players, messages.push(m));
            match updated_position(m.data) {
                Ok(Some(pos)) => player_with_id(after, m.id) == match player_with_id(before, m.id) {
                    Some(q) => Some(RemoteView { name: q.name, pos }),
                    None => None,
                },
                _ => after == before,
            }
        }),
{
    assert(messages.push(m).drop_last() =~= messages);
    let before = players_moved(players, messages);
    if let Ok(Some(pos)) = updated_position(m.data) {
        let other = if m.id == 0 {
            1u16
        } else {
            0u16
        };
        players_are_known_by_their_number(
            before,
            m.id,
            RemoteView { name: seq![], pos },
            pos,
            other,
        );
    }
}

/// An object that leaves is out of view, and if it was followed it is lost.
pub proof fn objects_that_leave_are_lost(b: BotView, ids: Seq<u16>, id: u16)
    ensures
        objects_removed(b, seq![]) == b,
        ({
            let before = objects_removed(b, ids);
            let after = objects_removed(b, ids.push(id));
            &&& after.players == without_player(before.players, id)
            &&& after.follow_target_id == if before.follow_target_id == Some(id) {
                None
            } else {
                before.follow_target_id
            }
            &&& after.follow_target_name == before.follow_target_name
            &&& after.session == before.session
        }),
{
    assert(ids.push(id).drop_last() =~= ids);
}

/// When objects have come and gone, who is followed is looked for by name where it is not in
/// view.
pub proof fn followed_player_is_looked_for(b: BotView, removed: Seq<u16>, added: Seq<InitView>)
    ensures
        ({
            let left = objects_removed(b, removed);
            let after = objects_changed(b, removed, added);
            &&& after.players == players_added(left.players, left.session.player, added)
            &&& after.follow_target_id == if left.follow_target_id is Some {
                left.follow_target_id
            } else {
                target_id(after.players, left.follow_target_name)
            }
        }),
{
    reveal(objects_changed);
}

/// All tasks go on with time: the mining first, then the transfer, then the craft, each on what
/// those before it have left.
pub proof fn time_passes_for_every_task(
    b: BotView,
    fields: WireFields,
    in_reach: bool,
    now: u64,
)
    ensures
        match mining_advanced(mining_part(b), b.session.state, fields, in_reach, now) {
            Err(e) => tasks_advanced(b, fields, in_reach, now) == Err::<BotView, OutboundErrorView>(
                e,
            ),
            Ok(m) => {
                let t = transfer_advanced(
                    TransferState { task: b.transfer, conn: m.conn, replies: m.replies },
                    now,
                );
                let c = craft_advanced(
                    CraftState { task: b.craft, conn: t.conn, replies: t.replies },
                    now,
                );
                let after = tasks_advanced(b, fields, in_reach, now)->Ok_0;
                &&& tasks_advanced(b, fields, in_reach, now) is Ok
                &&& after.mining == m.task && after.transfer == t.task && after.craft == c.task
                &&& after.session.conn == c.conn
                &&& after.replies == c.replies
                &&& after.navigation == m.navigation
                &&& after.session.state == b.session.state
            },
        },
{
    reveal(tasks_advanced);
}

/// Chat goes to the chat, movement settings are taken as they are, object messages move players,
/// and everything that concerns the session goes to the session.
pub proof fn events_go_where_they_belong(
    b: BotView,
    movement: MovementSettings,
    message_type: u8,
    sender: Seq<char>,
    message: Seq<char>,
    messages: Seq<MessageView>,
    removed: Seq<u16>,
    added: Seq<InitView>,
    interval: u32,
    facts: EventFacts,
    now: u64,
)
    ensures
        event_taken(b, EventView::Movement(movement), facts, now).0.movement == movement,
        event_taken(b, EventView::Movement(movement), facts, now).0.session == b.session,
        event_taken(b, EventView::ChatMessage { message_type, sender, message }, facts, now).0
            == chat_taken(b, sender, message, facts.chat, now).0,
        event_taken(b, EventView::ActiveObjectMessages { messages }, facts, now).0.players
            == players_moved(b.players, messages),
        event_taken(b, EventView::ActiveObjectRemoveAdd { removed, added }, facts, now).0
            == objects_changed(b, removed, added),
        ({
            let accepted = EventView::AuthAccept { recommended_send_interval: interval };
            let (after, outcome) = event_taken(b, accepted, facts, now);
            &&& after.session == session_after(b.session, accepted, 0, 0).0
            &&& after.mining == b.mining && after.players == b.players
        }),
        event_taken(b, EventView::ItemDef, facts, now).0.session == session_after(
            b.session,
            EventView::ItemDef,
            0,
            0,
        ).0,
{
    reveal(session_event_taken);
}

/// A bot that has just connected knows nothing and does nothing, and its tasks and messages are
/// numbered from one.
pub proof fn new_bots_do_nothing(
    player: Seq<char>,
    password: Seq<char>,
    allow: Seq<char>,
    tp_cmd: Seq<char>,
    follow_cmd: Seq<char>,
    stop_cmd: Seq<char>,
    follow_speed: u32,
    now: u64,
)
    ensures
        ({
            let b = new_bot(
                player,
                password,
                allow,
                tp_cmd,
                follow_cmd,
                stop_cmd,
                follow_speed,
                now,
            );
            &&& b.session.mode is Stay && b.session.player == player && b.session.password
                == password
            &&& b.mining is None && b.transfer is None && b.craft is None
            &&& b.move_goal is None && !b.follow_enabled && b.follow_target_name is None
            &&& b.players.len() == 0 && b.chat_log.entries.len() == 0 && b.chat_log.next_id == 1
            &&& b.transfer_ids == 1 && b.craft_ids == 1
            &&& b.world.blocks.dom() =~= Set::empty() && b.world.nodedef is None
            &&& b.navigation.status == "idle"@
            &&& b.tp_cmd == tp_cmd && b.follow_cmd == follow_cmd && b.stop_cmd == stop_cmd
            &&& b.follow_speed == follow_speed
            &&& b.gotblocks_pending.len() == 0
        }),
{
}

} // verus!
