//! The bot: everything that a session in the game keeps, and what events do to it.

use super::chat::{normalize_player_name, normalized, string_views, ChatLog, LogView};
use super::entities::{find_target_id, target_id, Players, RemoteView};
use super::navigation::{
    goal_view, navigation_begun, GoalView, MoveGoal, NavigationSnapshot, NavigationView,
    MAX_ROUTE_WAYPOINTS,
};
use super::replies::{PendingReplies, RepliesView};
use super::tasks::crafting::{
    cancel_native_craft, craft_failed, craft_view, craft_wf, CraftState, CraftView, NativeCraftTask,
};
use super::tasks::inventory::{
    cancel_native_inventory_transfer, transfer_cancelled, transfer_view,
    NativeInventoryTransferTask, TaskIds, TransferState, TransferView,
};
use super::tasks::mining::{
    cancel_native_mining, mining_cancelled, mining_view, MiningState, MiningView, NativeMiningTask,
};
use crate::game::navigation::{fresh, AntiStuck};
use crate::game::player::{MovementSettings, PlayerState, WireFields};
use crate::network::connection::ConnectionView;
use crate::network::outbound::{chat_sent, OutboundError, OutboundErrorView};
use crate::scan::replaced;
use crate::session::{Session, SessionView};
use crate::text::text_view;
use crate::types::{BlockPos, Vec3};
use crate::world::{World, WorldView};
use vstd::prelude::*;
use vstd::string::*;

verus! {

/// A bot in the game.
pub struct Bot {
    pub session: Session,
    pub replies: PendingReplies,
    pub chat_log: ChatLog,
    pub world: World,
    pub players: Players,
    pub movement: MovementSettings,
    pub follow_enabled: bool,
    pub follow_target_name: Option<String>,
    pub follow_target_id: Option<u16>,
    pub move_goal: Option<MoveGoal>,
    pub mining: Option<NativeMiningTask>,
    pub transfer: Option<NativeInventoryTransferTask>,
    pub craft: Option<NativeCraftTask>,
    pub transfer_ids: TaskIds,
    pub craft_ids: TaskIds,
    pub anti_stuck: AntiStuck,
    pub navigation: NavigationSnapshot,
    pub gotblocks_pending: Vec<BlockPos>,
    pub last_sent_pos: Option<Vec3>,
    pub last_server_pos: Option<Vec3>,
    pub allow_list: Vec<String>,
    /// Chat commands with a place for a player's name.
    pub tp_cmd: String,
    pub follow_cmd: String,
    pub stop_cmd: String,
    /// Nodes per second, as a single precision bit pattern.
    pub follow_speed: u32,
}

/// The value of a [`Bot`].
pub ghost struct BotView {
    pub session: SessionView,
    pub replies: RepliesView,
    pub chat_log: LogView,
    pub world: WorldView,
    pub players: Seq<(u16, RemoteView)>,
    pub movement: MovementSettings,
    pub follow_enabled: bool,
    pub follow_target_name: Option<Seq<char>>,
    pub follow_target_id: Option<u16>,
    pub move_goal: Option<GoalView>,
    pub mining: Option<MiningView>,
    pub transfer: Option<TransferView>,
    pub craft: Option<CraftView>,
    pub transfer_ids: u64,
    pub craft_ids: u64,
    pub anti_stuck: AntiStuck,
    pub navigation: NavigationView,
    pub gotblocks_pending: Seq<BlockPos>,
    pub last_sent_pos: Option<Vec3>,
    pub last_server_pos: Option<Vec3>,
    pub allow_list: Seq<Seq<char>>,
    pub tp_cmd: Seq<char>,
    pub follow_cmd: Seq<char>,
    pub stop_cmd: Seq<char>,
    pub follow_speed: u32,
}

impl View for Bot {
    type V = BotView;

    open spec fn view(&self) -> BotView {
        BotView {
            session: self.session@,
            replies: self.replies@,
            chat_log: self.chat_log@,
            world: self.world@,
            players: self.players@,
            movement: self.movement,
            follow_enabled: self.follow_enabled,
            follow_target_name: text_view(self.follow_target_name),
            follow_target_id: self.follow_target_id,
            move_goal: goal_view(self.move_goal),
            mining: mining_view(self.mining),
            transfer: transfer_view(self.transfer),
            craft: craft_view(self.craft),
            transfer_ids: self.transfer_ids.next,
            craft_ids: self.craft_ids.next,
            anti_stuck: self.anti_stuck,
            navigation: self.navigation@,
            gotblocks_pending: self.gotblocks_pending@,
            last_sent_pos: self.last_sent_pos,
            last_server_pos: self.last_server_pos,
            allow_list: string_views(self.allow_list@),
            tp_cmd: self.tp_cmd@,
            follow_cmd: self.follow_cmd@,
            stop_cmd: self.stop_cmd@,
            follow_speed: self.follow_speed,
        }
    }
}

/// The bot with another state of its connection.
pub open spec fn with_conn(b: BotView, conn: ConnectionView) -> BotView {
    BotView { session: SessionView { conn, ..b.session }, ..b }
}

/// The bot says something in chat.
pub open spec fn said(b: BotView, text: Seq<char>) -> BotView {
    with_conn(b, chat_sent(b.session.conn, text))
}

/// The place for a player's name in a chat command.
pub open spec fn with_player_name(command: Seq<char>, player: Seq<char>) -> Seq<char> {
    replaced(command, "{player}"@, player)
}

/// What mining acts on.
pub open spec fn mining_part(b: BotView) -> MiningState {
    MiningState {
        task: b.mining,
        conn: b.session.conn,
        replies: b.replies,
        navigation: b.navigation,
    }
}

pub open spec fn with_mining(b: BotView, s: MiningState) -> BotView {
    with_conn(
        BotView { mining: s.task, replies: s.replies, navigation: s.navigation, ..b },
        s.conn,
    )
}

/// What a transfer acts on.
pub open spec fn transfer_part(b: BotView) -> TransferState {
    TransferState { task: b.transfer, conn: b.session.conn, replies: b.replies }
}

pub open spec fn with_transfer(b: BotView, s: TransferState) -> BotView {
    with_conn(BotView { transfer: s.task, replies: s.replies, ..b }, s.conn)
}

/// What a craft acts on.
pub open spec fn craft_part(b: BotView) -> CraftState {
    CraftState { task: b.craft, conn: b.session.conn, replies: b.replies }
}

pub open spec fn with_craft(b: BotView, s: CraftState) -> BotView {
    with_conn(BotView { craft: s.task, replies: s.replies, ..b }, s.conn)
}

/// The bot is at work on a task.
pub open spec fn busy(b: BotView) -> bool {
    b.mining is Some || b.transfer is Some || b.craft is Some
}

/// The bot follows a player.
pub open spec fn following(b: BotView, target: Seq<char>) -> BotView {
    let name = normalized(target);
    BotView {
        follow_target_name: Some(name),
        follow_target_id: target_id(b.players, Some(name)),
        follow_enabled: true,
        anti_stuck: fresh(),
        navigation: navigation_begun(
            if b.move_goal is Some {
                "moving"@
            } else {
                "following"@
            },
        ),
        ..b
    }
}

/// The bot has no target and no goal any more, and passes the order to stop on.
pub open spec fn made_idle(b: BotView) -> BotView {
    let idle = BotView {
        follow_enabled: false,
        follow_target_id: None,
        follow_target_name: None,
        move_goal: None,
        anti_stuck: fresh(),
        navigation: navigation_begun("idle"@),
        ..b
    };
    if b.stop_cmd.len() > 0 {
        said(idle, b.stop_cmd)
    } else {
        idle
    }
}

/// The bot drops everything that it does, and tells those who wait for it.
#[verifier::opaque]
pub open spec fn stopped(b: BotView, fields: WireFields, now: u64) -> Result<
    BotView,
    OutboundErrorView,
> {
    match mining_cancelled(mining_part(b), b.session.state, fields, now) {
        Err(e) => Err(e),
        Ok(mining) => {
            let b1 = with_mining(b, mining);
            let b2 = with_transfer(b1, transfer_cancelled(transfer_part(b1)));
            let b3 = with_craft(b2, craft_failed(craft_part(b2), "cancelled"@));
            Ok(made_idle(b3))
        },
    }
}

/// A goal has no more points than a route may have.
pub open spec fn goal_bounded(goal: Option<GoalView>) -> bool {
    match goal {
        Some(g) => g.waypoints.len() <= MAX_ROUTE_WAYPOINTS + 1,
        None => true,
    }
}

impl Bot {
    pub open spec fn wf(&self) -> bool {
        &&& self.session.wf()
        &&& self.replies.wf()
        &&& self.chat_log.wf()
        &&& self.world.wf()
        &&& craft_wf(craft_view(self.craft))
        &&& goal_bounded(goal_view(self.move_goal))
    }

    /// Says something in chat.
    pub fn say(&mut self, text: &str)
        requires
            old(self).wf(),
        ensures
            final(self).wf(),
            final(self)@ == said(old(self)@, text@),
    {
        self.session.conn.send_chat_message(text);
    }

    /// Whether the bot is at work on a task.
    pub fn is_busy(&self) -> (yes: bool)
        ensures
            yes == busy(self@),
    {
        self.mining.is_some() || self.transfer.is_some() || self.craft.is_some()
    }

    /// Follows a player.
    pub fn follow(&mut self, target: &str)
        requires
            old(self).wf(),
        ensures
            final(self).wf(),
            final(self)@ == following(old(self)@, target@),
    {
        let name = normalize_player_name(target);
        self.follow_target_id = find_target_id(&self.players, Some(name.as_str()));
        self.follow_target_name = Some(name);
        self.follow_enabled = true;
        self.anti_stuck.reset();
        let status = if self.move_goal.is_some() { "moving" } else { "following" };
        self.navigation.begin(status);
    }

    fn cancel_mining(&mut self, fields: &WireFields, now: u64) -> (result: Result<
        (),
        OutboundError,
    >)
        requires
            old(self).wf(),
        ensures
            final(self).wf(),
            match mining_cancelled(mining_part(old(self)@), old(self)@.session.state, *fields, now) {
                Ok(s) => result is Ok && final(self)@ == with_mining(old(self)@, s),
                Err(e) => result is Err && result->Err_0@ == e && final(self)@ == old(self)@,
            },
    {
        let state: PlayerState = self.session.state;
        cancel_native_mining(
            &mut self.mining,
            &mut self.session.conn,
            &state,
            fields,
            &mut self.replies,
            &mut self.navigation,
            now,
        )
    }

    fn cancel_transfer(&mut self)
        requires
            old(self).wf(),
        ensures
            final(self).wf(),
            final(self)@ == with_transfer(
                old(self)@,
                transfer_cancelled(transfer_part(old(self)@)),
            ),
    {
        cancel_native_inventory_transfer(
            &mut self.transfer,
            &mut self.session.conn,
            &mut self.replies,
        );
    }

    fn cancel_craft(&mut self)
        requires
            old(self).wf(),
        ensures
            final(self).wf(),
            final(self)@ == with_craft(
                old(self)@,
                craft_failed(craft_part(old(self)@), "cancelled"@),
            ),
    {
        cancel_native_craft(&mut self.craft, &mut self.session.conn, &mut self.replies);
    }

    /// Forgets targets and goals, and passes the order to stop on.
    fn go_idle(&mut self)
        requires
            old(self).wf(),
        ensures
            final(self).wf(),
            final(self)@ == made_idle(old(self)@),
    {
        self.follow_enabled = false;
        self.follow_target_id = None;
        self.follow_target_name = None;
        self.move_goal = None;
        self.anti_stuck.reset();
        self.navigation.stop();
        if !self.stop_cmd.as_str().is_empty() {
            self.session.conn.send_chat_message(self.stop_cmd.as_str());
        }
    }

    /// Drops everything, and tells those who wait for it.
    pub fn stop(&mut self, fields: &WireFields, now: u64) -> (result: Result<(), OutboundError>)
        requires
            old(self).wf(),
        ensures
            final(self).wf(),
            match stopped(old(self)@, *fields, now) {
                Ok(b) => result is Ok && final(self)@ == b,
                Err(e) => result is Err && result->Err_0@ == e && final(self)@ == old(self)@,
            },
    {
        proof {
            reveal(stopped);
        }
        self.cancel_mining(fields, now)?;
        self.cancel_transfer();
        self.cancel_craft();
        self.go_idle();
        Ok(())
    }
}

/// A bot that stops is at work on nothing, goes nowhere and follows nobody, and says its own
/// order to stop, where it has one, after all else.
pub proof fn stopping_drops_everything(b: BotView, fields: WireFields, now: u64)
    requires
        stopped(b, fields, now) is Ok,
    ensures
        ({
            let after = stopped(b, fields, now)->Ok_0;
            let mining = mining_cancelled(mining_part(b), b.session.state, fields, now)->Ok_0;
            let transfer = transfer_cancelled(
                TransferState { task: b.transfer, conn: mining.conn, replies: mining.replies },
            );
            let craft = craft_failed(
                CraftState { task: b.craft, conn: transfer.conn, replies: transfer.replies },
                "cancelled"@,
            );
            &&& after.mining is None && after.transfer is None && after.craft is None
            &&& after.move_goal is None
            &&& !after.follow_enabled
            &&& after.follow_target_name is None && after.follow_target_id is None
            &&& after.navigation.status == "idle"@
            &&& after.replies == craft.replies
            &&& after.session.conn == if b.stop_cmd.len() > 0 {
                chat_sent(craft.conn, b.stop_cmd)
            } else {
                craft.conn
            }
        }),
{
    reveal(stopped);
}

/// A task acts on its own part of the bot, and what it makes of that part is all that changes.
pub proof fn tasks_keep_to_their_part(
    b: BotView,
    m: MiningState,
    t: TransferState,
    c: CraftState,
)
    ensures
        mining_part(with_mining(b, m)) == m,
        with_mining(b, mining_part(b)) == b,
        transfer_part(with_transfer(b, t)) == t,
        with_transfer(b, transfer_part(b)) == b,
        craft_part(with_craft(b, c)) == c,
        with_craft(b, craft_part(b)) == b,
        with_mining(b, m).transfer == b.transfer && with_mining(b, m).craft == b.craft,
        with_transfer(b, t).mining == b.mining && with_transfer(b, t).craft == b.craft,
        with_transfer(b, t).navigation == b.navigation,
        with_craft(b, c).mining == b.mining && with_craft(b, c).transfer == b.transfer,
        with_craft(b, c).navigation == b.navigation,
{
}

/// Whoever is followed is followed under the name without what is around it, and by the number
/// of the first player who has it.
pub proof fn followed_players_are_known_by_name(b: BotView, target: Seq<char>)
    ensures
        ({
            let after = following(b, target);
            &&& after.follow_enabled
            &&& after.follow_target_name == Some(normalized(target))
            &&& after.follow_target_id == target_id(b.players, Some(normalized(target)))
            &&& after.navigation.status == if b.move_goal is Some {
                "moving"@
            } else {
                "following"@
            }
            &&& after.move_goal == b.move_goal && after.session == b.session && after.replies
                == b.replies
        }),
{
}

/// A bot is at work while it digs, transfers or crafts, and only then.
pub proof fn work_is_one_of_three_tasks(b: BotView)
    ensures
        busy(b) <==> b.mining is Some || b.transfer is Some || b.craft is Some,
{
}

/// What the bot says goes out as chat, and changes nothing but the connection.
pub proof fn speech_goes_out_as_chat(b: BotView, text: Seq<char>, player: Seq<char>)
    ensures
        said(b, text).session.conn == chat_sent(b.session.conn, text),
        said(b, text).session.state == b.session.state,
        said(b, text).replies == b.replies && said(b, text).mining == b.mining,
        with_player_name(text, player) == replaced(text, "{player}"@, player),
{
}

} // verus!
