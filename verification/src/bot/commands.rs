//! Commands of the HTTP interface, and what they do to the bot.

use super::navigation::{
    build_move_goal, goal_speed, navigation_begun, GoalView, MoveRequest, STOP_DIST,
};
use super::replies::resolved;
use super::runtime::{
    busy, following, mining_part, said, stopped, transfer_part, with_conn, with_mining,
    with_player_name, with_transfer, Bot, BotView,
};
use super::tasks::crafting::{
    continue_native_craft, craft_begun, new_craft, CraftPhase, CraftView, NativeCraftTask,
};
use super::tasks::inventory::{
    continue_native_inventory_transfer, new_transfer, transfer_continued,
    InventoryTransferOperation, NativeInventoryTransferTask, TransferPhase,
};
use super::tasks::mining::{
    begun_mining_asks_for_its_first_target, continue_native_mining, mining_continued, new_mining,
    target_failed, MiningPhase, MiningState, MiningView, NativeMiningOrigin, NativeMiningTask,
};
use crate::game::navigation::fresh;
use crate::game::player::WireFields;
use crate::json::{
    bool_member, bool_value, json_text, null_value, set_member, str_member, str_value, u64_member,
    value_text, JsonValue,
};
use crate::network::outbound::{chat_sent, OutboundError, OutboundErrorView};
use crate::scan::{replace, replaced};
use crate::text::{dec, hex, push_dec, text_view};
use crate::types::{IVec3, Vec3};
use std::collections::VecDeque;
use vstd::prelude::*;
use vstd::string::*;

verus! {

/// A command of the HTTP interface.
#[derive(Debug)]
#[allow(inconsistent_fields)]
pub enum ApiCommand {
    Follow(String),
    Teleport(String),
    Attack(String),
    AttackMobs(Option<i32>),
    Say(String),
    Approach(String),
    Interact(String),
    Fight(String),
    Sleep(Option<i32>),
    Mine(Option<IVec3>),
    Collect { node: String, count: u16, radius: i32 },
    NavigateNode { node: String, radius: i32 },
    GatherResource { node: String, count: u16, radius: i32 },
    HuntFood { target: String, radius: i32 },
    Place(Option<IVec3>),
    Drop { item: Option<String>, count: Option<u16> },
    Wield(String),
    Use(Option<String>),
    ChestInspect(IVec3),
    ChestDeposit { pos: IVec3, item: String, count: u16 },
    ChestWithdraw { pos: IVec3, item: String, count: u16 },
    FurnaceInspect(IVec3),
    FurnaceTransfer {
        operation: InventoryTransferOperation,
        pos: IVec3,
        item: String,
        count: u16,
    },
    Craft { item: String, count: u16 },
    Stop,
    Where,
    Move(MoveRequest),
    Observe { radius: i32 },
    ObserveServer { radius: i32 },
}

/// The value of an [`ApiCommand`].
#[allow(inconsistent_fields)]
pub ghost enum CommandView {
    Follow(Seq<char>),
    Teleport(Seq<char>),
    Attack(Seq<char>),
    AttackMobs(Option<i32>),
    Say(Seq<char>),
    Approach(Seq<char>),
    Interact(Seq<char>),
    Fight(Seq<char>),
    Sleep(Option<i32>),
    Mine(Option<IVec3>),
    Collect { node: Seq<char>, count: u16, radius: i32 },
    NavigateNode { node: Seq<char>, radius: i32 },
    GatherResource { node: Seq<char>, count: u16, radius: i32 },
    HuntFood { target: Seq<char>, radius: i32 },
    Place(Option<IVec3>),
    Drop { item: Option<Seq<char>>, count: Option<u16> },
    Wield(Seq<char>),
    Use(Option<Seq<char>>),
    ChestInspect(IVec3),
    ChestDeposit { pos: IVec3, item: Seq<char>, count: u16 },
    ChestWithdraw { pos: IVec3, item: Seq<char>, count: u16 },
    FurnaceInspect(IVec3),
    FurnaceTransfer {
        operation: InventoryTransferOperation,
        pos: IVec3,
        item: Seq<char>,
        count: u16,
    },
    Craft { item: Seq<char>, count: u16 },
    Stop,
    Where,
    Move(MoveRequest),
    Observe { radius: i32 },
    ObserveServer { radius: i32 },
}

impl View for ApiCommand {
    type V = CommandView;

    open spec fn view(&self) -> CommandView {
        match *self {
            ApiCommand::Follow(t) => CommandView::Follow(t@),
            ApiCommand::Teleport(t) => CommandView::Teleport(t@),
            ApiCommand::Attack(t) => CommandView::Attack(t@),
            ApiCommand::Say(t) => CommandView::Say(t@),
            ApiCommand::Approach(t) => CommandView::Approach(t@),
            ApiCommand::Interact(t) => CommandView::Interact(t@),
            ApiCommand::Fight(t) => CommandView::Fight(t@),
            ApiCommand::Wield(t) => CommandView::Wield(t@),
            ApiCommand::AttackMobs(v) => CommandView::AttackMobs(v),
            ApiCommand::Sleep(v) => CommandView::Sleep(v),
            ApiCommand::Mine(v) => CommandView::Mine(v),
            ApiCommand::Place(v) => CommandView::Place(v),
            ApiCommand::ChestInspect(v) => CommandView::ChestInspect(v),
            ApiCommand::FurnaceInspect(v) => CommandView::FurnaceInspect(v),
            ApiCommand::Move(v) => CommandView::Move(v),
            ApiCommand::Use(i) => CommandView::Use(text_view(i)),
            ApiCommand::Collect { node, count, radius } => CommandView::Collect {
                node: node@,
                count,
                radius,
            },
            ApiCommand::GatherResource { node, count, radius } => CommandView::GatherResource {
                node: node@,
                count,
                radius,
            },
            ApiCommand::NavigateNode { node, radius } => CommandView::NavigateNode {
                node: node@,
                radius,
            },
            ApiCommand::HuntFood { target, radius } => CommandView::HuntFood {
                target: target@,
                radius,
            },
            ApiCommand::Drop { item, count } => CommandView::Drop { item: text_view(item), count },
            ApiCommand::ChestDeposit { pos, item, count } => CommandView::ChestDeposit {
                pos,
                item: item@,
                count,
            },
            ApiCommand::ChestWithdraw { pos, item, count } => CommandView::ChestWithdraw {
                pos,
                item: item@,
                count,
            },
            ApiCommand::FurnaceTransfer { operation, pos, item, count } => CommandView::FurnaceTransfer {
                operation,
                pos,
                item: item@,
                count,
            },
            ApiCommand::Craft { item, count } => CommandView::Craft { item: item@, count },
            ApiCommand::Stop => CommandView::Stop,
            ApiCommand::Where => CommandView::Where,
            ApiCommand::Observe { radius } => CommandView::Observe { radius },
            ApiCommand::ObserveServer { radius } => CommandView::ObserveServer { radius },
        }
    }
}

pub open spec fn clamped(n: int, min: int, max: int) -> int {
    if n < min {
        min
    } else if n > max {
        max
    } else {
        n
    }
}

pub open spec fn radius_or(radius: Option<i32>, default: int, max: int) -> int {
    clamped(
        match radius {
            Some(r) => r as int,
            None => default,
        },
        1,
        max,
    )
}

/// A command with a position.
pub open spec fn positioned(command: Seq<char>, p: IVec3) -> Seq<char> {
    command + " "@ + dec(p.x as int) + " "@ + dec(p.y as int) + " "@ + dec(p.z as int)
}

/// What a command says in chat, if it is one that is passed on to the server in
/// chat and there is something to say.
pub open spec fn chat_line(cmd: CommandView, tp_cmd: Seq<char>, where_text: Seq<char>) -> Option<
    Seq<char>,
> {
    match cmd {
        CommandView::Teleport(target) => {
            let line = with_player_name(tp_cmd, target);
            if line.len() > 0 {
                Some(line)
            } else {
                None
            }
        },
        CommandView::Say(message) => if message.len() > 0 {
            Some(message)
        } else {
            None
        },
        CommandView::Attack(target) => Some("/bot_attack "@ + target),
        CommandView::AttackMobs(radius) => Some(
            "/bot_attack_mobs "@ + dec(radius_or(radius, 12, 20)),
        ),
        CommandView::Approach(target) => Some("/bot_approach "@ + target),
        CommandView::Interact(target) => Some("/bot_interact "@ + target),
        CommandView::Fight(target) => Some("/bot_fight "@ + target),
        CommandView::Sleep(radius) => Some("/bot_sleep "@ + dec(radius_or(radius, 6, 20))),
        CommandView::NavigateNode { node, radius } => Some(
            "/bot_path_node "@ + node + " "@ + dec(clamped(radius as int, 2, 32)),
        ),
        CommandView::GatherResource { node, count, radius } => Some(
            "/bot_gather_path "@ + node + " "@ + dec(clamped(count as int, 1, 8)) + " "@ + dec(
                clamped(radius as int, 2, 32),
            ),
        ),
        CommandView::HuntFood { target, radius } => Some(
            "/bot_hunt_path "@ + target + " "@ + dec(clamped(radius as int, 2, 32)),
        ),
        CommandView::Place(pos) => Some(
            match pos {
                Some(p) => positioned("/bot_place"@, p),
                None => "/bot_place"@,
            },
        ),
        CommandView::Drop { item, count } => Some(
            match item {
                Some(item) => match count {
                    Some(count) => "/bot_drop "@ + item + " "@ + dec(count as int),
                    None => "/bot_drop "@ + item,
                },
                None => "/bot_drop"@,
            },
        ),
        CommandView::Wield(item) => Some("/bot_wield "@ + item),
        CommandView::Use(item) => Some(
            match item {
                Some(item) => "/bot_use "@ + item,
                None => "/bot_use"@,
            },
        ),
        CommandView::ChestInspect(p) => Some(positioned("/bot_chest_inspect"@, p)),
        CommandView::FurnaceInspect(p) => Some(positioned("/bot_furnace_inspect"@, p)),
        CommandView::Where => Some(where_text),
        CommandView::ObserveServer { radius } => Some("/bot_observe "@ + dec(radius as int)),
        _ => None,
    }
}

/// What a request is told while the bot is at work on something else.
pub open spec fn busy_reply(status: Seq<char>) -> JsonValue {
    JsonValue::Object(
        Map::empty().insert("ok"@, JsonValue::Bool(false)).insert(
            "status"@,
            JsonValue::Str(status),
        ),
    )
}

/// A request is told that the bot is at work on something else.
pub open spec fn refused(b: BotView, tag: Seq<char>, status: Seq<char>) -> BotView {
    BotView { replies: resolved(b.replies, tag, json_text(busy_reply(status))), ..b }
}

/// The bot digs.
#[verifier::opaque]
pub open spec fn mining_started(b: BotView, task: MiningView, now: u64) -> BotView {
    with_mining(b, mining_continued(MiningState { task: Some(task), ..mining_part(b) }, now))
}

/// A task that collects nodes; without targets it has failed already.
pub open spec fn collect_task(
    origin: NativeMiningOrigin,
    node: Seq<char>,
    count: u16,
    targets: Seq<Option<IVec3>>,
) -> MiningView {
    let task = new_mining(origin, Some(node), count, targets);
    if targets.len() == 0 {
        target_failed(task, "no_reachable_nodes"@)
    } else {
        task
    }
}

pub open spec fn next_id(id: u64) -> u64 {
    if id == u64::MAX {
        0
    } else {
        (id + 1) as u64
    }
}

/// The bot transfers items, unless it is at work on something else.
#[verifier::opaque]
pub open spec fn transfer_started(
    b: BotView,
    operation: InventoryTransferOperation,
    pos: IVec3,
    item: Seq<char>,
    count: u16,
    now: u64,
) -> BotView {
    if busy(b) {
        refused(b, operation.reply_tag_text(), "inventory_transfer_busy"@)
    } else {
        let requested = clamped(count as int, 1, 99) as u16;
        let task = new_transfer(b.transfer_ids, operation, pos, item, requested, now);
        let with_task = BotView { transfer: Some(task), transfer_ids: next_id(b.transfer_ids), ..b };
        with_transfer(with_task, transfer_continued(transfer_part(with_task), now))
    }
}

/// The bot crafts, unless it is at work on something else.
#[verifier::opaque]
pub open spec fn craft_started(b: BotView, item: Seq<char>, count: u16, now: u64) -> BotView {
    if busy(b) {
        refused(b, "BOT_CRAFT"@, "inventory_action_busy"@)
    } else {
        let task = new_craft(b.craft_ids, item, clamped(count as int, 1, 64) as u16);
        let (after, conn) = craft_begun(Some(task), b.session.conn, now);
        with_conn(BotView { craft: after, craft_ids: next_id(b.craft_ids), ..b }, conn)
    }
}

/// The bot moves to a place.
pub open spec fn move_started(b: BotView, target: Vec3, speed: Option<u32>) -> BotView {
    BotView {
        move_goal: Some(
            GoalView {
                target,
                waypoints: seq![],
                speed: goal_speed(speed, b.follow_speed),
                stop_dist: STOP_DIST,
                arrival_action: None,
            },
        ),
        follow_enabled: false,
        follow_target_id: None,
        anti_stuck: fresh(),
        navigation: navigation_begun("moving"@),
        ..b
    }
}

/// What the caller computes for a command, in floating point.
pub struct CommandFacts {
    /// The player's state in the units of the wire.
    pub fields: WireFields,
    /// The player's position in words.
    pub where_text: String,
    /// Where a requested move leads.
    pub move_target: Vec3,
    /// The nodes that are to be collected, nearest first.
    pub targets: VecDeque<Option<IVec3>>,
}

/// What a command does to the bot.
pub open spec fn api_applied(b: BotView, cmd: CommandView, facts: CommandFacts, now: u64) -> Result<
    BotView,
    OutboundErrorView,
> {
    match cmd {
        CommandView::Follow(target) => Ok(following(b, target)),
        CommandView::Mine(pos) => Ok(
            if busy(b) {
                refused(b, "BOT_MINE"@, "mining_busy"@)
            } else {
                mining_started(b, new_mining(NativeMiningOrigin::Mine, None, 1, seq![pos]), now)
            },
        ),
        CommandView::Collect { node, count, .. } => Ok(
            if busy(b) {
                refused(b, "BOT_COLLECT"@, "mining_busy"@)
            } else {
                mining_started(
                    b,
                    collect_task(
                        NativeMiningOrigin::Collect,
                        node,
                        clamped(count as int, 1, 8) as u16,
                        facts.targets@,
                    ),
                    now,
                )
            },
        ),
        CommandView::ChestDeposit { pos, item, count } => Ok(
            transfer_started(b, InventoryTransferOperation::ChestDeposit, pos, item, count, now),
        ),
        CommandView::ChestWithdraw { pos, item, count } => Ok(
            transfer_started(b, InventoryTransferOperation::ChestWithdraw, pos, item, count, now),
        ),
        CommandView::FurnaceTransfer { operation, pos, item, count } => Ok(
            transfer_started(b, operation, pos, item, count, now),
        ),
        CommandView::Craft { item, count } => Ok(craft_started(b, item, count, now)),
        CommandView::Stop => stopped(b, facts.fields, now),
        CommandView::Move(request) => Ok(move_started(b, facts.move_target, request.speed)),
        _ => Ok(
            match chat_line(cmd, b.tp_cmd, facts.where_text@) {
                Some(line) => said(b, line),
                None => b,
            },
        ),
    }
}

fn clamp(n: i64, min: i64, max: i64) -> (c: i64)
    ensures
        c == clamped(n as int, min as int, max as int),
{
    if n < min {
        min
    } else if n > max {
        max
    } else {
        n
    }
}

fn radius_line(command: &str, radius: Option<i32>, default: i32, max: i32) -> (line: String)
    ensures
        line@ == command@ + dec(radius_or(radius, default as int, max as int)),
{
    let r: i32 = match radius {
        Some(r) => r,
        None => default,
    };
    let mut line = command.to_owned();
    push_dec(&mut line, clamp(r as i64, 1, max as i64));
    line
}

fn named_line(command: &str, name: &str) -> (line: String)
    ensures
        line@ == command@ + name@,
{
    let mut line = command.to_owned();
    line.append(name);
    line
}

fn positioned_line(command: &str, p: IVec3) -> (line: String)
    ensures
        line@ == positioned(command@, p),
{
    let mut line = command.to_owned();
    line.append(" ");
    push_dec(&mut line, p.x as i64);
    line.append(" ");
    push_dec(&mut line, p.y as i64);
    line.append(" ");
    push_dec(&mut line, p.z as i64);
    line
}

fn build_chat_line(cmd: &ApiCommand, tp_cmd: &str, where_text: &str) -> (line: Option<String>)
    ensures
        text_view(line) == chat_line(cmd@, tp_cmd@, where_text@),
{
    match cmd {
        ApiCommand::Teleport(target) => {
            proof {
                reveal_strlit("{player}");
                assert("{player}"@.len() == 8);
            }
            let line = replace(tp_cmd, "{player}", target.as_str());
            if line.as_str().is_empty() {
                None
            } else {
                Some(line)
            }
        },
        ApiCommand::Say(message) => if message.as_str().is_empty() {
            None
        } else {
            Some(message.clone())
        },
        ApiCommand::Attack(target) => Some(named_line("/bot_attack ", target.as_str())),
        ApiCommand::AttackMobs(radius) => Some(radius_line("/bot_attack_mobs ", *radius, 12, 20)),
        ApiCommand::Approach(target) => Some(named_line("/bot_approach ", target.as_str())),
        ApiCommand::Interact(target) => Some(named_line("/bot_interact ", target.as_str())),
        ApiCommand::Fight(target) => Some(named_line("/bot_fight ", target.as_str())),
        ApiCommand::Sleep(radius) => Some(radius_line("/bot_sleep ", *radius, 6, 20)),
        ApiCommand::NavigateNode { node, radius } => {
            let mut line = named_line("/bot_path_node ", node.as_str());
            line.append(" ");
            push_dec(&mut line, clamp(*radius as i64, 2, 32));
            Some(line)
        },
        ApiCommand::GatherResource { node, count, radius } => {
            let mut line = named_line("/bot_gather_path ", node.as_str());
            line.append(" ");
            push_dec(&mut line, clamp(*count as i64, 1, 8));
            line.append(" ");
            push_dec(&mut line, clamp(*radius as i64, 2, 32));
            Some(line)
        },
        ApiCommand::HuntFood { target, radius } => {
            let mut line = named_line("/bot_hunt_path ", target.as_str());
            line.append(" ");
            push_dec(&mut line, clamp(*radius as i64, 2, 32));
            Some(line)
        },
        ApiCommand::Place(pos) => Some(
            match pos {
                Some(p) => positioned_line("/bot_place", *p),
                None => "/bot_place".to_owned(),
            },
        ),
        ApiCommand::Drop { item, count } => Some(
            match item {
                Some(item) => {
                    let mut line = named_line("/bot_drop ", item.as_str());
                    if let Some(count) = count {
                        line.append(" ");
                        push_dec(&mut line, *count as i64);
                    }
                    line
                },
                None => "/bot_drop".to_owned(),
            },
        ),
        ApiCommand::Wield(item) => Some(named_line("/bot_wield ", item.as_str())),
        ApiCommand::Use(item) => Some(
            match item {
                Some(item) => named_line("/bot_use ", item.as_str()),
                None => "/bot_use".to_owned(),
            },
        ),
        ApiCommand::ChestInspect(p) => Some(positioned_line("/bot_chest_inspect", *p)),
        ApiCommand::FurnaceInspect(p) => Some(positioned_line("/bot_furnace_inspect", *p)),
        ApiCommand::Where => Some(where_text.to_owned()),
        ApiCommand::ObserveServer { radius } => {
            let mut line = "/bot_observe ".to_owned();
            push_dec(&mut line, *radius as i64);
            Some(line)
        },
        _ => None,
    }
}

impl Bot {
    fn refuse(&mut self, tag: &str, status: &str)
        requires
            old(self).wf(),
        ensures
            final(self).wf(),
            final(self)@ == refused(old(self)@, tag@, status@),
    {
        let mut v = null_value();
        set_member(&mut v, "ok", bool_value(false));
        set_member(&mut v, "status", str_value(status));
        self.replies.resolve(tag, value_text(&v));
    }

    /// Takes on a mining task.
    pub fn start_mining(&mut self, task: NativeMiningTask, now: u64)
        requires
            old(self).wf(),
        ensures
            final(self).wf(),
            final(self)@ == mining_started(old(self)@, task@, now),
    {
        proof {
            reveal(mining_started);
        }
        self.mining = Some(task);
        continue_native_mining(
            &mut self.mining,
            &mut self.session.conn,
            &mut self.replies,
            &mut self.navigation,
            now,
        );
    }

    /// Takes on the collection of nodes among the given ones.
    pub fn start_collecting(
        &mut self,
        origin: NativeMiningOrigin,
        node: String,
        count: u16,
        targets: VecDeque<Option<IVec3>>,
        now: u64,
    )
        requires
            old(self).wf(),
        ensures
            final(self).wf(),
            final(self)@ == mining_started(
                old(self)@,
                collect_task(origin, node@, count, targets@),
                now,
            ),
    {
        let none = targets.len() == 0;
        let mut task = NativeMiningTask::collect(origin, node, count, targets);
        if none {
            task.record_failure("no_reachable_nodes");
        }
        self.start_mining(task, now);
    }

    fn start_transfer(
        &mut self,
        operation: InventoryTransferOperation,
        pos: IVec3,
        item: String,
        count: u16,
        now: u64,
    )
        requires
            old(self).wf(),
        ensures
            final(self).wf(),
            final(self)@ == transfer_started(old(self)@, operation, pos, item@, count, now),
    {
        proof {
            reveal(transfer_started);
        }
        if self.is_busy() {
            self.refuse(operation.reply_tag(), "inventory_transfer_busy");
            return;
        }
        let requested: u16 = clamp(count as i64, 1, 99) as u16;
        let task = NativeInventoryTransferTask::new(
            &mut self.transfer_ids,
            operation,
            pos,
            item,
            requested,
            now,
        );
        self.transfer = Some(task);
        continue_native_inventory_transfer(
            &mut self.transfer,
            &mut self.session.conn,
            &mut self.replies,
            now,
        );
    }

    fn start_craft(&mut self, item: String, count: u16, now: u64)
        requires
            old(self).wf(),
        ensures
            final(self).wf(),
            final(self)@ == craft_started(old(self)@, item@, count, now),
    {
        proof {
            reveal(craft_started);
        }
        if self.is_busy() {
            self.refuse("BOT_CRAFT", "inventory_action_busy");
            return;
        }
        let requested: u16 = clamp(count as i64, 1, 64) as u16;
        let task = NativeCraftTask::new(&mut self.craft_ids, item, requested);
        self.craft = Some(task);
        continue_native_craft(&mut self.craft, &mut self.session.conn, now);
    }

    fn start_move(&mut self, target: Vec3, speed: Option<u32>)
        requires
            old(self).wf(),
        ensures
            final(self).wf(),
            final(self)@ == move_started(old(self)@, target, speed),
    {
        self.move_goal = Some(build_move_goal(target, speed, self.follow_speed));
        self.follow_enabled = false;
        self.follow_target_id = None;
        self.anti_stuck.reset();
        self.navigation.begin("moving");
    }

    fn send_chat_line(&mut self, cmd: &ApiCommand, where_text: &str)
        requires
            old(self).wf(),
        ensures
            final(self).wf(),
            final(self)@ == (match chat_line(cmd@, old(self)@.tp_cmd, where_text@) {
                Some(line) => said(old(self)@, line),
                None => old(self)@,
            }),
    {
        if let Some(line) = build_chat_line(cmd, self.tp_cmd.as_str(), where_text) {
            self.say(line.as_str());
        }
    }

    /// Carries out a command of the HTTP interface. A local observation changes
    /// nothing: the caller answers it.
    pub fn handle_api_command(&mut self, cmd: ApiCommand, facts: CommandFacts, now: u64) -> (result:
        Result<(), OutboundError>)
        requires
            old(self).wf(),
        ensures
            final(self).wf(),
            match api_applied(old(self)@, cmd@, facts, now) {
                Ok(b) => result is Ok && final(self)@ == b,
                Err(e) => result is Err && result->Err_0@ == e && final(self)@ == old(self)@,
            },
    {
        match cmd {
            ApiCommand::Follow(target) => self.follow(target.as_str()),
            ApiCommand::Mine(pos) => {
                if self.is_busy() {
                    self.refuse("BOT_MINE", "mining_busy");
                } else {
                    self.start_mining(NativeMiningTask::single(pos), now);
                }
            },
            ApiCommand::Collect { node, count, .. } => {
                if self.is_busy() {
                    self.refuse("BOT_COLLECT", "mining_busy");
                } else {
                    let wanted: u16 = clamp(count as i64, 1, 8) as u16;
                    self.start_collecting(
                        NativeMiningOrigin::Collect,
                        node,
                        wanted,
                        facts.targets,
                        now,
                    );
                }
            },
            ApiCommand::ChestDeposit { pos, item, count } => self.start_transfer(
                InventoryTransferOperation::ChestDeposit,
                pos,
                item,
                count,
                now,
            ),
            ApiCommand::ChestWithdraw { pos, item, count } => self.start_transfer(
                InventoryTransferOperation::ChestWithdraw,
                pos,
                item,
                count,
                now,
            ),
            ApiCommand::FurnaceTransfer { operation, pos, item, count } => self.start_transfer(
                operation,
                pos,
                item,
                count,
                now,
            ),
            ApiCommand::Craft { item, count } => self.start_craft(item, count, now),
            ApiCommand::Stop => return self.stop(&facts.fields, now),
            ApiCommand::Move(request) => self.start_move(facts.move_target, request.speed),
            other => self.send_chat_line(&other, facts.where_text.as_str()),
        }
        Ok(())
    }
}

/// While the bot is at work on a task, no other task is taken on: the request is
/// told so, and the tasks stay as they are.
pub proof fn one_task_at_a_time(b: BotView, cmd: CommandView, facts: CommandFacts, now: u64)
    requires
        busy(b),
        cmd is Mine || cmd is Collect || cmd is ChestDeposit || cmd is ChestWithdraw
            || cmd is FurnaceTransfer || cmd is Craft,
    ensures
        ({
            let after = api_applied(b, cmd, facts, now)->Ok_0;
            &&& api_applied(b, cmd, facts, now) is Ok
            &&& after.mining == b.mining && after.transfer == b.transfer && after.craft == b.craft
            &&& after.session == b.session
        }),
{
    reveal(mining_started);
    reveal(transfer_started);
    reveal(craft_started);
}

/// Once the bot has stopped it has no task, no goal and nobody to follow, and its
/// navigation is idle.
pub proof fn stopping_leaves_nothing(b: BotView, facts: CommandFacts, now: u64)
    requires
        api_applied(b, CommandView::Stop, facts, now) is Ok,
    ensures
        ({
            let after = api_applied(b, CommandView::Stop, facts, now)->Ok_0;
            &&& !busy(after)
            &&& after.move_goal is None
            &&& !after.follow_enabled && after.follow_target_name is None
                && after.follow_target_id is None
            &&& after.navigation == navigation_begun("idle"@)
        }),
{
    reveal(stopped);
}

/// A number within limits is itself; one beyond them is the nearer limit.
pub proof fn clamping_keeps_within_limits(n: int, min: int, max: int)
    requires
        min <= max,
    ensures
        min <= clamped(n, min, max) <= max,
        min <= n <= max ==> clamped(n, min, max) == n,
        n < min ==> clamped(n, min, max) == min,
        n > max ==> clamped(n, min, max) == max,
        radius_or(None, 6, 20) == 6,
        radius_or(None, 12, 20) == 12,
{
}

/// Each command that goes to the server in chat is one line, said as it stands, with its
/// numbers kept within limits; nothing else of the bot changes.
pub proof fn commands_are_said(b: BotView, cmd: CommandView, facts: CommandFacts, now: u64)
    requires
        chat_line(cmd, b.tp_cmd, facts.where_text@) is Some,
    ensures
        ({
            let after = api_applied(b, cmd, facts, now)->Ok_0;
            let line = match cmd {
                CommandView::Teleport(target) => replaced(b.tp_cmd, "{player}"@, target),
                CommandView::Say(message) => message,
                CommandView::Attack(target) => "/bot_attack "@ + target,
                CommandView::AttackMobs(radius) => "/bot_attack_mobs "@ + dec(
                    radius_or(radius, 12, 20),
                ),
                CommandView::Approach(target) => "/bot_approach "@ + target,
                CommandView::Interact(target) => "/bot_interact "@ + target,
                CommandView::Fight(target) => "/bot_fight "@ + target,
                CommandView::Sleep(radius) => "/bot_sleep "@ + dec(radius_or(radius, 6, 20)),
                CommandView::NavigateNode { node, radius } => "/bot_path_node "@ + node + " "@
                    + dec(clamped(radius as int, 2, 32)),
                CommandView::GatherResource { node, count, radius } => "/bot_gather_path "@ + node
                    + " "@ + dec(clamped(count as int, 1, 8)) + " "@ + dec(
                    clamped(radius as int, 2, 32),
                ),
                CommandView::HuntFood { target, radius } => "/bot_hunt_path "@ + target + " "@
                    + dec(clamped(radius as int, 2, 32)),
                CommandView::Place(Some(p)) => "/bot_place"@ + " "@ + dec(p.x as int) + " "@ + dec(
                    p.y as int,
                ) + " "@ + dec(p.z as int),
                CommandView::Place(None) => "/bot_place"@,
                CommandView::Drop { item: Some(item), count: Some(count) } => "/bot_drop "@ + item
                    + " "@ + dec(count as int),
                CommandView::Drop { item: Some(item), count: None } => "/bot_drop "@ + item,
                CommandView::Drop { item: None, .. } => "/bot_drop"@,
                CommandView::Wield(item) => "/bot_wield "@ + item,
                CommandView::Use(Some(item)) => "/bot_use "@ + item,
                CommandView::Use(None) => "/bot_use"@,
                CommandView::ChestInspect(p) => "/bot_chest_inspect"@ + " "@ + dec(p.x as int)
                    + " "@ + dec(p.y as int) + " "@ + dec(p.z as int),
                CommandView::FurnaceInspect(p) => "/bot_furnace_inspect"@ + " "@ + dec(p.x as int)
                    + " "@ + dec(p.y as int) + " "@ + dec(p.z as int),
                CommandView::Where => facts.where_text@,
                CommandView::ObserveServer { radius } => "/bot_observe "@ + dec(radius as int),
                _ => seq![],
            };
            &&& api_applied(b, cmd, facts, now) is Ok
            &&& after.session.conn == chat_sent(b.session.conn, line)
            &&& after.mining == b.mining && after.transfer == b.transfer && after.craft == b.craft
            &&& after.move_goal == b.move_goal && after.follow_enabled == b.follow_enabled
            &&& after.replies == b.replies && after.navigation == b.navigation
        }),
{
}

/// Only an empty message, an empty teleport command and an observation by the bot itself are
/// not said, apart from what the bot carries out by itself.
pub proof fn few_commands_are_not_said(cmd: CommandView, tp_cmd: Seq<char>, where_text: Seq<char>)
    ensures
        chat_line(cmd, tp_cmd, where_text) is None <==> {
            ||| cmd is Follow || cmd is Mine || cmd is Collect || cmd is ChestDeposit
            ||| cmd is ChestWithdraw || cmd is FurnaceTransfer || cmd is Craft || cmd is Stop
            ||| cmd is Move || cmd is Observe
            ||| cmd is Say && cmd->Say_0.len() == 0
            ||| cmd is Teleport && replaced(tp_cmd, "{player}"@, cmd->Teleport_0).len() == 0
        },
{
}

/// A bot that is not at work digs the node that was asked for: one node, whose preparation is
/// asked for at once.
pub proof fn requested_node_is_dug(
    b: BotView,
    pos: Option<IVec3>,
    facts: CommandFacts,
    now: u64,
)
    requires
        !busy(b),
        now + 3000 <= u64::MAX,
    ensures
        ({
            let after = api_applied(b, CommandView::Mine(pos), facts, now)->Ok_0;
            &&& api_applied(b, CommandView::Mine(pos), facts, now) is Ok
            &&& after.mining is Some
            &&& after.mining->0.origin is Mine
            &&& after.mining->0.requested == 1
            &&& after.mining->0.mined == 0 && after.mining->0.failed == 0
            &&& after.mining->0.node is None
            &&& after.mining->0.targets.len() == 0
            &&& after.mining->0.phase == (MiningPhase::Preparing {
                requested_target: pos,
                deadline: (now + 3000) as u64,
            })
            &&& after.session.conn == chat_sent(
                b.session.conn,
                match pos {
                    Some(p) => "/bot_prepare_mine "@ + dec(p.x as int) + " "@ + dec(p.y as int)
                        + " "@ + dec(p.z as int),
                    None => "/bot_prepare_mine"@,
                },
            )
            &&& after.replies == b.replies && after.navigation == b.navigation
            &&& after.transfer is None && after.craft is None
        }),
{
    reveal(mining_started);
}

/// A bot that is not at work collects the nodes that were found, one to eight of them, the
/// first one first; where none was found the request is told so.
pub proof fn requested_nodes_are_collected(
    b: BotView,
    node: Seq<char>,
    count: u16,
    radius: i32,
    facts: CommandFacts,
    now: u64,
)
    requires
        !busy(b),
        now + 3000 <= u64::MAX,
    ensures
        ({
            let cmd = CommandView::Collect { node, count, radius };
            let after = api_applied(b, cmd, facts, now)->Ok_0;
            let targets = facts.targets@;
            &&& api_applied(b, cmd, facts, now) is Ok
            &&& targets.len() > 0 ==> {
                &&& after.mining is Some
                &&& after.mining->0.origin is Collect
                &&& after.mining->0.node == Some(node)
                &&& after.mining->0.requested == if count < 1 {
                    1
                } else if count > 8 {
                    8
                } else {
                    count as int
                }
                &&& after.mining->0.mined == 0 && after.mining->0.failed == 0
                &&& seq![targets[0]] + after.mining->0.targets == targets
                &&& after.mining->0.phase == (MiningPhase::Preparing {
                    requested_target: targets[0],
                    deadline: (now + 3000) as u64,
                })
                &&& after.replies == b.replies
            }
            &&& targets.len() == 0 ==> {
                &&& after.mining is None
                &&& after.session.conn == b.session.conn
                &&& exists|r: JsonValue|
                    {
                        &&& after.replies == resolved(
                            b.replies,
                            "BOT_COLLECT"@,
                            #[trigger] json_text(r),
                        )
                        &&& bool_member(r, "ok"@) == Some(false)
                        &&& u64_member(r, "mined"@) == Some(0u64)
                        &&& str_member(r, "status"@) == Some("no_reachable_nodes"@)
                    }
            }
        }),
{
    reveal(mining_started);
    let targets = facts.targets@;
    let n = clamped(count as int, 1, 8) as u16;
    let task = collect_task(NativeMiningOrigin::Collect, node, n, targets);
    let s = MiningState { task: Some(task), ..mining_part(b) };
    begun_mining_asks_for_its_first_target(s, task, now);
    if targets.len() > 0 {
        assert(seq![targets[0]] + targets.drop_first() =~= targets);
    }
}

/// A bot that is not at work transfers the items that were asked for, one to ninety-nine of
/// them, and numbers its transfers one after the other.
pub proof fn requested_items_are_transferred(
    b: BotView,
    operation: InventoryTransferOperation,
    pos: IVec3,
    item: Seq<char>,
    count: u16,
    facts: CommandFacts,
    now: u64,
)
    requires
        !busy(b),
        b.transfer_ids < u64::MAX,
        now + 12_000 <= u64::MAX,
    ensures
        ({
            let cmd = match operation {
                InventoryTransferOperation::ChestDeposit => CommandView::ChestDeposit {
                    pos,
                    item,
                    count,
                },
                InventoryTransferOperation::ChestWithdraw => CommandView::ChestWithdraw {
                    pos,
                    item,
                    count,
                },
                _ => CommandView::FurnaceTransfer { operation, pos, item, count },
            };
            let after = api_applied(b, cmd, facts, now)->Ok_0;
            let n = if count < 1 {
                1
            } else if count > 99 {
                99
            } else {
                count as int
            };
            let nonce = hex(b.transfer_ids as int) + "-"@ + dec(1);
            &&& api_applied(b, cmd, facts, now) is Ok
            &&& after.transfer is Some
            &&& after.transfer->0.operation == operation
            &&& after.transfer->0.target == pos
            &&& after.transfer->0.item == item
            &&& after.transfer->0.requested == n
            &&& after.transfer->0.moved == 0
            &&& after.transfer->0.actions == 0
            &&& after.transfer->0.deadline == now + 12_000
            &&& after.transfer->0.phase == (TransferPhase::Preparing {
                nonce,
                deadline: (now + 3000) as u64,
            })
            &&& after.transfer_ids == b.transfer_ids + 1
            &&& after.replies == b.replies
            &&& after.mining is None && after.craft is None
            &&& after.session.conn == chat_sent(
                b.session.conn,
                "/"@ + operation.prepare_command_text() + " "@ + nonce + " "@
                    + operation.command_name_text() + " "@ + dec(pos.x as int) + " "@ + dec(
                    pos.y as int,
                ) + " "@ + dec(pos.z as int) + " "@ + item + " "@ + dec(n),
            )
        }),
{
    reveal(transfer_started);
}

/// A bot that is not at work crafts the items that were asked for, one to sixty-four of them,
/// and numbers its crafts one after the other.
pub proof fn requested_items_are_crafted(
    b: BotView,
    item: Seq<char>,
    count: u16,
    facts: CommandFacts,
    now: u64,
)
    requires
        !busy(b),
        b.craft_ids < u64::MAX,
        now + 4000 <= u64::MAX,
    ensures
        ({
            let after = api_applied(b, CommandView::Craft { item, count }, facts, now)->Ok_0;
            let n = if count < 1 {
                1
            } else if count > 64 {
                64
            } else {
                count as int
            };
            let nonce = "craft-"@ + hex(b.craft_ids as int);
            &&& api_applied(b, CommandView::Craft { item, count }, facts, now) is Ok
            &&& after.craft == Some(
                CraftView {
                    id: b.craft_ids,
                    item,
                    requested: n as u16,
                    phase: CraftPhase::Preparing { nonce, deadline: (now + 4000) as u64 },
                },
            )
            &&& after.craft_ids == b.craft_ids + 1
            &&& after.replies == b.replies
            &&& after.mining is None && after.transfer is None
            &&& after.session.conn == chat_sent(
                b.session.conn,
                "/bot_craft_prepare "@ + nonce + " "@ + item + " "@ + dec(n),
            )
        }),
{
    reveal(craft_started);
}

/// A bot that is at work tells whoever asks for another task that it is busy, and with what
/// kind of work.
pub proof fn busy_bot_says_so(b: BotView, cmd: CommandView, facts: CommandFacts, now: u64)
    requires
        busy(b),
        cmd is Mine || cmd is Collect || cmd is ChestDeposit || cmd is ChestWithdraw
            || cmd is FurnaceTransfer || cmd is Craft,
    ensures
        ({
            let after = api_applied(b, cmd, facts, now)->Ok_0;
            let tag = match cmd {
                CommandView::Mine(_) => "BOT_MINE"@,
                CommandView::Collect { .. } => "BOT_COLLECT"@,
                CommandView::ChestDeposit { .. } => "BOT_CHEST_DEPOSIT"@,
                CommandView::ChestWithdraw { .. } => "BOT_CHEST_WITHDRAW"@,
                CommandView::FurnaceTransfer { operation, .. } => operation.reply_tag_text(),
                _ => "BOT_CRAFT"@,
            };
            let status = match cmd {
                CommandView::Mine(_) | CommandView::Collect { .. } => "mining_busy"@,
                CommandView::Craft { .. } => "inventory_action_busy"@,
                _ => "inventory_transfer_busy"@,
            };
            exists|r: JsonValue|
                {
                    &&& after.replies == resolved(b.replies, tag, #[trigger] json_text(r))
                    &&& bool_member(r, "ok"@) == Some(false)
                    &&& str_member(r, "status"@) == Some(status)
                }
        }),
{
    reveal(mining_started);
    reveal(transfer_started);
    reveal(craft_started);
    reveal_strlit("ok");
    reveal_strlit("status");
    assert("ok"@.len() == 2 && "status"@.len() == 6);
    let status = match cmd {
        CommandView::Mine(_) | CommandView::Collect { .. } => "mining_busy"@,
        CommandView::Craft { .. } => "inventory_action_busy"@,
        _ => "inventory_transfer_busy"@,
    };
    let r = busy_reply(status);
    let after = api_applied(b, cmd, facts, now)->Ok_0;
    assert(bool_member(r, "ok"@) == Some(false));
    assert(str_member(r, "status"@) == Some(status));
    match cmd {
        CommandView::Mine(_) => {
            assert(after == refused(b, "BOT_MINE"@, status));
        },
        CommandView::Collect { .. } => {
            assert(after == refused(b, "BOT_COLLECT"@, status));
        },
        CommandView::ChestDeposit { .. } => {
            assert(after == refused(b, "BOT_CHEST_DEPOSIT"@, status));
        },
        CommandView::ChestWithdraw { .. } => {
            assert(after == refused(b, "BOT_CHEST_WITHDRAW"@, status));
        },
        CommandView::FurnaceTransfer { operation, .. } => {
            assert(after == refused(b, operation.reply_tag_text(), status));
        },
        _ => {
            assert(after == refused(b, "BOT_CRAFT"@, status));
        },
    }
}

/// A bot that is told to move heads for the target straight on, follows nobody, and keeps at
/// its tasks.
pub proof fn requested_move_is_begun(
    b: BotView,
    request: MoveRequest,
    facts: CommandFacts,
    now: u64,
)
    ensures
        ({
            let after = api_applied(b, CommandView::Move(request), facts, now)->Ok_0;
            &&& api_applied(b, CommandView::Move(request), facts, now) is Ok
            &&& after.move_goal is Some
            &&& after.move_goal->0.target == facts.move_target
            &&& after.move_goal->0.waypoints.len() == 0
            &&& after.move_goal->0.arrival_action is None
            &&& after.move_goal->0.speed == goal_speed(request.speed, b.follow_speed)
            &&& after.move_goal->0.stop_dist == 0x4000_0000
            &&& !after.follow_enabled && after.follow_target_id is None
            &&& after.navigation.status == "moving"@ && after.navigation.last_error is None
            &&& after.mining == b.mining && after.transfer == b.transfer && after.craft == b.craft
            &&& after.session == b.session && after.replies == b.replies
        }),
{
}

} // verus!
