//! Native node digging and multi-node collection.

use crate::bot::navigation::{
    navigation_begun, navigation_failed, NavigationSnapshot, NavigationView,
};
use crate::bot::replies::{listened_for, resolved, PendingReplies, RepliesView};
use crate::bot::validation::{
    command_atom, get_position, get_status, position_member, status_or, valid_command_atom,
};
use crate::game::player::{turned, PlayerState, Turn, WireFields};
use crate::json::{
    bool_member, bool_member_is_true, bool_value, get_str, get_u16, int_value, json_text,
    json_value, member, member_of, null_value, number_text, number_text_of, opt_str,
    opt_str_value, parse_value, parsed_json, set_member, str_member, str_value, str_view, u16_of,
    u64_member, value_text, JsonValue,
};
use crate::network::connection::{sent_reliably, ConnectionView, MtpConnection};
use crate::network::outbound::{
    chat_sent, interact_error, node_interact_payload, player_state_fields, to_v3s16,
    wield_payload, OutboundError, OutboundErrorView,
};
use crate::network::protocol::{
    INTERACT_DIGGING_COMPLETED, INTERACT_START_DIGGING, INTERACT_STOP_DIGGING,
};
use crate::network::wire::{be16, be32, v3s16_field};
use crate::text::{dec, push_dec, text_view};
use crate::types::{after_ms, later, manhattan, manhattan_distance, IVec3};
use std::collections::VecDeque;
use vstd::prelude::*;
use vstd::string::*;

verus! {

/// What a mining task was started for.
#[derive(Clone, Copy, Debug, PartialEq, Eq, Structural)]
pub enum NativeMiningOrigin {
    Mine,
    Collect,
    ArrivalCollect,
}

impl NativeMiningOrigin {
    pub open spec fn tag(self) -> Option<Seq<char>> {
        match self {
            NativeMiningOrigin::Mine => Some("BOT_MINE"@),
            NativeMiningOrigin::Collect => Some("BOT_COLLECT"@),
            NativeMiningOrigin::ArrivalCollect => None,
        }
    }

    /// The tag of the reply, if a request waits for one.
    pub fn reply_tag(self) -> (tag: Option<&'static str>)
        ensures
            str_view(tag) == self.tag(),
    {
        match self {
            NativeMiningOrigin::Mine => Some("BOT_MINE"),
            NativeMiningOrigin::Collect => Some("BOT_COLLECT"),
            NativeMiningOrigin::ArrivalCollect => None,
        }
    }
}

/// A node that is about to be dug.
#[derive(Clone, Debug)]
pub struct PreparedDig {
    pub target: IVec3,
    pub above: IVec3,
    pub wield_index: u16,
    pub node: String,
    pub harvestable: bool,
}

/// The value of a [`PreparedDig`].
pub ghost struct DigView {
    pub target: IVec3,
    pub above: IVec3,
    pub wield_index: u16,
    pub node: Seq<char>,
    pub harvestable: bool,
}

impl View for PreparedDig {
    type V = DigView;

    open spec fn view(&self) -> DigView {
        DigView {
            target: self.target,
            above: self.above,
            wield_index: self.wield_index,
            node: self.node@,
            harvestable: self.harvestable,
        }
    }
}

/// Where the digging is. Times are in milliseconds.
#[derive(Clone, Debug)]
#[allow(inconsistent_fields)]
pub enum NativeMiningPhase {
    Ready,
    Preparing { requested_target: Option<IVec3>, deadline: u64 },
    Digging { prepared: PreparedDig, finish_at: u64 },
    Verifying { prepared: PreparedDig, deadline: u64 },
}

/// The value of a [`NativeMiningPhase`].
#[allow(inconsistent_fields)]
pub ghost enum MiningPhase {
    Ready,
    Preparing { requested_target: Option<IVec3>, deadline: u64 },
    Digging { prepared: DigView, finish_at: u64 },
    Verifying { prepared: DigView, deadline: u64 },
}

impl View for NativeMiningPhase {
    type V = MiningPhase;

    open spec fn view(&self) -> MiningPhase {
        match *self {
            NativeMiningPhase::Ready => MiningPhase::Ready,
            NativeMiningPhase::Preparing { requested_target, deadline } => {
                MiningPhase::Preparing { requested_target, deadline }
            },
            NativeMiningPhase::Digging { prepared, finish_at } => MiningPhase::Digging {
                prepared: prepared@,
                finish_at,
            },
            NativeMiningPhase::Verifying { prepared, deadline } => MiningPhase::Verifying {
                prepared: prepared@,
                deadline,
            },
        }
    }
}

/// Nodes to be dug, one after the other. A target that is not given is what the
/// player points at.
#[derive(Clone, Debug)]
pub struct NativeMiningTask {
    pub origin: NativeMiningOrigin,
    pub node: Option<String>,
    pub requested: u16,
    pub targets: VecDeque<Option<IVec3>>,
    pub phase: NativeMiningPhase,
    pub mined: u16,
    pub failed: u16,
    pub all_harvestable: bool,
    pub last_error: Option<String>,
}

/// The value of a [`NativeMiningTask`].
pub ghost struct MiningView {
    pub origin: NativeMiningOrigin,
    pub node: Option<Seq<char>>,
    pub requested: u16,
    pub targets: Seq<Option<IVec3>>,
    pub phase: MiningPhase,
    pub mined: u16,
    pub failed: u16,
    pub all_harvestable: bool,
    pub last_error: Option<Seq<char>>,
}

impl View for NativeMiningTask {
    type V = MiningView;

    open spec fn view(&self) -> MiningView {
        MiningView {
            origin: self.origin,
            node: text_view(self.node),
            requested: self.requested,
            targets: self.targets@,
            phase: self.phase@,
            mined: self.mined,
            failed: self.failed,
            all_harvestable: self.all_harvestable,
            last_error: text_view(self.last_error),
        }
    }
}

pub open spec fn mining_view(task: Option<NativeMiningTask>) -> Option<MiningView> {
    match task {
        Some(t) => Some(t@),
        None => None,
    }
}

pub open spec fn new_mining(
    origin: NativeMiningOrigin,
    node: Option<Seq<char>>,
    requested: u16,
    targets: Seq<Option<IVec3>>,
) -> MiningView {
    MiningView {
        origin,
        node,
        requested,
        targets,
        phase: MiningPhase::Ready,
        mined: 0,
        failed: 0,
        all_harvestable: true,
        last_error: None,
    }
}

/// The current target could not be dug.
pub open spec fn target_failed(t: MiningView, error: Seq<char>) -> MiningView {
    MiningView {
        failed: if t.failed == u16::MAX {
            u16::MAX
        } else {
            (t.failed + 1) as u16
        },
        last_error: Some(error),
        phase: MiningPhase::Ready,
        ..t
    }
}

/// The node that is being worked on.
pub open spec fn current_target(phase: MiningPhase) -> Option<IVec3> {
    match phase {
        MiningPhase::Ready => None,
        MiningPhase::Preparing { requested_target, .. } => requested_target,
        MiningPhase::Digging { prepared, .. } => Some(prepared.target),
        MiningPhase::Verifying { prepared, .. } => Some(prepared.target),
    }
}

impl NativeMiningTask {
    /// One node: the given one, or what the player points at.
    pub fn single(target: Option<IVec3>) -> (task: Self)
        ensures
            task@ == new_mining(NativeMiningOrigin::Mine, None, 1, seq![target]),
    {
        let mut targets: VecDeque<Option<IVec3>> = VecDeque::new();
        targets.push_back(target);
        assert(targets@ =~= seq![target]);
        NativeMiningTask {
            origin: NativeMiningOrigin::Mine,
            node: None,
            requested: 1,
            targets,
            phase: NativeMiningPhase::Ready,
            mined: 0,
            failed: 0,
            all_harvestable: true,
            last_error: None,
        }
    }

    /// A number of nodes of one kind, among the given ones.
    pub fn collect(
        origin: NativeMiningOrigin,
        node: String,
        requested: u16,
        targets: VecDeque<Option<IVec3>>,
    ) -> (task: Self)
        ensures
            task@ == new_mining(origin, Some(node@), requested, targets@),
    {
        NativeMiningTask {
            origin,
            node: Some(node),
            requested,
            targets,
            phase: NativeMiningPhase::Ready,
            mined: 0,
            failed: 0,
            all_harvestable: true,
            last_error: None,
        }
    }

    pub fn record_failure(&mut self, error: &str)
        ensures
            final(self)@ == target_failed(old(self)@, error@),
    {
        self.failed = self.failed.saturating_add(1);
        self.last_error = Some(error.to_owned());
        self.phase = NativeMiningPhase::Ready;
    }

    pub fn active_target(&self) -> (target: Option<IVec3>)
        ensures
            target == current_target(self@.phase),
    {
        match &self.phase {
            NativeMiningPhase::Ready => None,
            NativeMiningPhase::Preparing { requested_target, .. } => *requested_target,
            NativeMiningPhase::Digging { prepared, .. } => Some(prepared.target),
            NativeMiningPhase::Verifying { prepared, .. } => Some(prepared.target),
        }
    }
}

/// What mining acts on: the task, the connection, the waiting requests, and what
/// is reported of the navigation.
pub ghost struct MiningState {
    pub task: Option<MiningView>,
    pub conn: ConnectionView,
    pub replies: RepliesView,
    pub navigation: NavigationView,
}

pub open spec fn mining_state(
    task: Option<NativeMiningTask>,
    conn: MtpConnection,
    replies: PendingReplies,
    navigation: NavigationSnapshot,
) -> MiningState {
    MiningState {
        task: mining_view(task),
        conn: conn@,
        replies: replies@,
        navigation: navigation@,
    }
}

/// The status of a task that ends.
pub open spec fn mining_status(t: MiningView) -> Seq<char> {
    if (t.origin == NativeMiningOrigin::Mine && t.mined > 0) || t.mined >= t.requested {
        "mined"@
    } else if t.mined > 0 {
        "partially_mined"@
    } else {
        match t.last_error {
            Some(e) => e,
            None => "mine_failed"@,
        }
    }
}

/// What a request for mining is answered with.
pub open spec fn mining_reply(t: MiningView) -> JsonValue {
    let ok = t.mined > 0;
    let status = mining_status(t);
    JsonValue::Object(
        Map::empty().insert("ok"@, JsonValue::Bool(ok)).insert(
            "status"@,
            JsonValue::Str(status),
        ).insert("node"@, opt_str(t.node)).insert("mined"@, JsonValue::Int(t.mined as int)).insert(
            "requested"@,
            JsonValue::Int(t.requested as int),
        ).insert("failed"@, JsonValue::Int(t.failed as int)).insert(
            "harvestable"@,
            JsonValue::Bool(t.all_harvestable),
        ).insert("drop_pending"@, JsonValue::Bool(ok)).insert(
            "drop_status"@,
            opt_str(
                if ok {
                    Some("server_drop_pending_pickup"@)
                } else {
                    None
                },
            ),
        ).insert(
            "error"@,
            opt_str(
                if ok {
                    None
                } else {
                    Some(status)
                },
            ),
        ),
    )
}

/// The waiting requests once a task has ended.
pub open spec fn mining_answered(t: MiningView, replies: RepliesView) -> RepliesView {
    match t.origin.tag() {
        Some(tag) => resolved(replies, tag, json_text(mining_reply(t))),
        None => replies,
    }
}

/// The navigation once a task has ended: collecting on arrival is its last step.
pub open spec fn mining_navigated(t: MiningView, n: NavigationView) -> NavigationView {
    if t.origin == NativeMiningOrigin::ArrivalCollect {
        if t.mined > 0 {
            navigation_begun("idle"@)
        } else {
            navigation_failed(n, mining_status(t))
        }
    } else {
        n
    }
}

/// The task ends and its request is answered.
pub open spec fn mining_finished(s: MiningState) -> MiningState {
    match s.task {
        Some(t) => MiningState {
            task: None,
            conn: s.conn,
            replies: mining_answered(t, s.replies),
            navigation: mining_navigated(t, s.navigation),
        },
        None => s,
    }
}

/// The command that prepares the digging of a target.
pub open spec fn prepare_mine_text(target: Option<IVec3>) -> Seq<char> {
    match target {
        Some(p) => "/bot_prepare_mine "@ + dec(p.x as int) + " "@ + dec(p.y as int) + " "@ + dec(
            p.z as int,
        ),
        None => "/bot_prepare_mine"@,
    }
}

/// A task that is ready prepares its next target, or ends where enough was mined
/// or no target is left.
pub open spec fn mining_continued(s: MiningState, now: u64) -> MiningState {
    match s.task {
        Some(t) => if !(t.phase is Ready) {
            s
        } else if t.mined >= t.requested || t.targets.len() == 0 {
            mining_finished(s)
        } else {
            MiningState {
                task: Some(
                    MiningView {
                        targets: t.targets.drop_first(),
                        phase: MiningPhase::Preparing {
                            requested_target: t.targets[0],
                            deadline: later(now, 3000),
                        },
                        ..t
                    },
                ),
                conn: chat_sent(s.conn, prepare_mine_text(t.targets[0])),
                ..s
            }
        },
        None => s,
    }
}

/// The current target is given up and the next one tried.
pub open spec fn mining_target_failed(s: MiningState, error: Seq<char>, now: u64) -> MiningState {
    match s.task {
        Some(t) => mining_continued(
            MiningState { task: Some(target_failed(t, error)), ..s },
            now,
        ),
        None => s,
    }
}

fn build_mining_reply(t: &NativeMiningTask, ok: bool, status: &str) -> (text: String)
    requires
        ok == (t@.mined > 0),
        status@ == mining_status(t@),
    ensures
        text@ == json_text(mining_reply(t@)),
{
    let node = match &t.node {
        Some(n) => Some(n.as_str()),
        None => None,
    };
    let mut v = null_value();
    set_member(&mut v, "ok", bool_value(ok));
    set_member(&mut v, "status", str_value(status));
    set_member(&mut v, "node", opt_str_value(node));
    set_member(&mut v, "mined", int_value(t.mined as i64));
    set_member(&mut v, "requested", int_value(t.requested as i64));
    set_member(&mut v, "failed", int_value(t.failed as i64));
    set_member(&mut v, "harvestable", bool_value(t.all_harvestable));
    set_member(&mut v, "drop_pending", bool_value(ok));
    set_member(
        &mut v,
        "drop_status",
        opt_str_value(if ok { Some("server_drop_pending_pickup") } else { None }),
    );
    set_member(&mut v, "error", opt_str_value(if ok { None } else { Some(status) }));
    value_text(&v)
}

/// Ends a task and answers its request.
pub fn finish_native_mining(
    task: &mut Option<NativeMiningTask>,
    replies: &mut PendingReplies,
    navigation: &mut NavigationSnapshot,
)
    requires
        old(replies).wf(),
    ensures
        final(replies).wf(),
        *final(task) is None,
        match mining_view(*old(task)) {
            Some(t) => final(replies)@ == mining_answered(t, old(replies)@) && final(navigation)@
                == mining_navigated(t, old(navigation)@),
            None => final(replies)@ == old(replies)@ && final(navigation)@ == old(navigation)@,
        },
{
    if let Some(t) = task.take() {
        let ok = t.mined > 0;
        let status: String = if (t.origin == NativeMiningOrigin::Mine && ok) || t.mined
            >= t.requested {
            "mined".to_owned()
        } else if ok {
            "partially_mined".to_owned()
        } else {
            match &t.last_error {
                Some(e) => e.clone(),
                None => "mine_failed".to_owned(),
            }
        };
        let reply = build_mining_reply(&t, ok, status.as_str());
        if let Some(tag) = t.origin.reply_tag() {
            replies.resolve(tag, reply);
        }
        if t.origin == NativeMiningOrigin::ArrivalCollect {
            if ok {
                navigation.stop();
            } else {
                navigation.fail(status.as_str());
            }
        }
    }
}

/// Prepares the next target of a task that is ready, or ends it.
pub fn continue_native_mining(
    task: &mut Option<NativeMiningTask>,
    conn: &mut MtpConnection,
    replies: &mut PendingReplies,
    navigation: &mut NavigationSnapshot,
    now: u64,
)
    requires
        old(conn).wf(),
        old(replies).wf(),
    ensures
        final(conn).wf(),
        final(replies).wf(),
        mining_state(*final(task), *final(conn), *final(replies), *final(navigation))
            == mining_continued(
            mining_state(*old(task), *old(conn), *old(replies), *old(navigation)),
            now,
        ),
{
    if let Some(mut t) = task.take() {
        let ready = match t.phase {
            NativeMiningPhase::Ready => true,
            _ => false,
        };
        if !ready {
            *task = Some(t);
            return;
        }
        if t.mined >= t.requested || t.targets.len() == 0 {
            *task = Some(t);
            finish_native_mining(task, replies, navigation);
            return;
        }
        let ghost targets = t.targets@;
        let target: Option<IVec3> = t.targets.pop_front().unwrap();
        assert(t.targets@ =~= targets.drop_first());
        let mut text = "/bot_prepare_mine".to_owned();
        if let Some(p) = target {
            text = "/bot_prepare_mine ".to_owned();
            push_dec(&mut text, p.x as i64);
            text.append(" ");
            push_dec(&mut text, p.y as i64);
            text.append(" ");
            push_dec(&mut text, p.z as i64);
        }
        conn.send_chat_message(text.as_str());
        t.phase = NativeMiningPhase::Preparing {
            requested_target: target,
            deadline: after_ms(now, 3000),
        };
        *task = Some(t);
    }
}

/// Gives the current target up and tries the next one.
pub fn fail_current_native_target(
    task: &mut Option<NativeMiningTask>,
    error: &str,
    conn: &mut MtpConnection,
    replies: &mut PendingReplies,
    navigation: &mut NavigationSnapshot,
    now: u64,
)
    requires
        old(conn).wf(),
        old(replies).wf(),
    ensures
        final(conn).wf(),
        final(replies).wf(),
        mining_state(*final(task), *final(conn), *final(replies), *final(navigation))
            == mining_target_failed(
            mining_state(*old(task), *old(conn), *old(replies), *old(navigation)),
            error@,
            now,
        ),
{
    if let Some(mut t) = task.take() {
        t.record_failure(error);
        *task = Some(t);
        continue_native_mining(task, conn, replies, navigation, now);
    }
}

/// What a reply says of the dig, as far as arithmetic depends on it.
#[derive(Debug)]
pub struct DigHint {
    /// The node to face.
    pub target: Option<IVec3>,
    /// The seconds that the dig takes, in decimal.
    pub dig_time: Option<String>,
}

/// Reads what the caller needs to turn to the node and to time the dig.
pub fn mine_prepare_hint(payload: &str) -> (hint: DigHint)
    ensures
        match parsed_json(payload@) {
            Ok(v) => hint.target == position_member(v, "target"@) && text_view(hint.dig_time) == (
            match member_of(v, "dig_time"@) {
                Some(m) => number_text_of(m),
                None => None,
            }),
            Err(_) => hint.target is None && hint.dig_time is None,
        },
{
    match parse_value(payload) {
        Ok(v) => {
            let dig_time = match member(&v, "dig_time") {
                Some(m) => number_text(m),
                None => None,
            };
            DigHint { target: get_position(&v, "target"), dig_time }
        },
        Err(_) => DigHint { target: None, dig_time: None },
    }
}

/// The node in a reply, if it can be named in a command.
pub open spec fn reply_node(v: JsonValue) -> Option<Seq<char>> {
    match str_member(v, "node"@) {
        Some(node) => if command_atom(node) {
            Some(node)
        } else {
            None
        },
        None => None,
    }
}

/// The dig that a reply prepares for the requested target, or why there is none:
/// the first fault of the reply. `timed` says whether its dig time can be used.
pub open spec fn prepared_dig(
    expected: Option<Seq<char>>,
    requested: Option<IVec3>,
    v: JsonValue,
    timed: bool,
) -> Result<DigView, Seq<char>> {
    if bool_member(v, "ok"@) != Some(true) {
        Err(status_or(v, "prepare_failed"@))
    } else {
        match position_member(v, "target"@) {
            None => Err("prepare_missing_target"@),
            Some(target) => if requested is Some && requested != Some(target) {
                Err("prepare_target_mismatch"@)
            } else {
                match position_member(v, "above"@) {
                    None => Err("prepare_missing_above"@),
                    Some(above) => if manhattan(above, target) != 1 {
                        Err("prepare_invalid_above"@)
                    } else {
                        match u16_of(u64_member(v, "wield_index"@)) {
                            None => Err("prepare_invalid_wield_index"@),
                            Some(wield_index) => if !timed {
                                Err("prepare_invalid_dig_time"@)
                            } else {
                                match reply_node(v) {
                                    None => Err("prepare_missing_node"@),
                                    Some(node) => if expected is Some && expected != Some(node) {
                                        Err("prepare_node_mismatch"@)
                                    } else {
                                        Ok(
                                            DigView {
                                                target,
                                                above,
                                                wield_index,
                                                node,
                                                harvestable: bool_member(v, "harvestable"@)
                                                    != Some(false),
                                            },
                                        )
                                    },
                                }
                            },
                        }
                    },
                }
            },
        }
    }
}

/// The reply to a preparation has come in. `turn` leads to the target, and `dig_ms` is
/// how long the dig takes, if that is known. Says also whether the player has turned,
/// and what is wrong with the action, if it cannot be sent.
#[verifier::opaque]
pub open spec fn mining_prepared(
    s: MiningState,
    v: JsonValue,
    state: PlayerState,
    turn: Turn,
    fields: WireFields,
    dig_ms: Option<u64>,
    now: u64,
) -> (MiningState, bool, Option<OutboundErrorView>) {
    match s.task {
        Some(t) => match t.phase {
            MiningPhase::Preparing { requested_target, .. } => match prepared_dig(
                t.node,
                requested_target,
                v,
                dig_ms is Some,
            ) {
                Err(error) => (mining_target_failed(s, error, now), false, None),
                Ok(dig) => {
                    let wielded = MiningState {
                        conn: sent_reliably(s.conn, wield_payload(dig.wield_index)),
                        ..s
                    };
                    match interact_error(dig.target, dig.above, turned(state, turn), fields) {
                        Some(e) => (wielded, true, Some(e)),
                        None => (
                            MiningState {
                                task: Some(
                                    MiningView {
                                        node: Some(dig.node),
                                        phase: MiningPhase::Digging {
                                            prepared: dig,
                                            finish_at: later(now, dig_ms->0),
                                        },
                                        ..t
                                    },
                                ),
                                conn: sent_reliably(
                                    wielded.conn,
                                    node_interact_payload(
                                        INTERACT_START_DIGGING,
                                        dig.wield_index,
                                        dig.target,
                                        dig.above,
                                        turned(state, turn),
                                        fields,
                                    ),
                                ),
                                ..s
                            },
                            true,
                            None,
                        ),
                    }
                },
            },
            _ => (s, false, None),
        },
        None => (s, false, None),
    }
}

/// What is wrong with an action that could not be sent.
pub open spec fn send_error(result: Result<(), OutboundError>) -> Option<OutboundErrorView> {
    match result {
        Ok(()) => None,
        Err(e) => Some(e@),
    }
}

fn take_prepared_dig(
    expected: &Option<String>,
    requested: Option<IVec3>,
    v: &serde_json::Value,
    timed: bool,
) -> (r: Result<PreparedDig, String>)
    ensures
        match r {
            Ok(d) => prepared_dig(text_view(*expected), requested, json_value(*v), timed) == Ok::<
                DigView,
                Seq<char>,
            >(d@),
            Err(e) => prepared_dig(text_view(*expected), requested, json_value(*v), timed) == Err::<
                DigView,
                Seq<char>,
            >(e@),
        },
{
    if !bool_member_is_true(v, "ok") {
        return Err(get_status(v, "prepare_failed"));
    }
    let target: IVec3 = match get_position(v, "target") {
        Some(p) => p,
        None => return Err("prepare_missing_target".to_owned()),
    };
    if let Some(wanted) = requested {
        if wanted != target {
            return Err("prepare_target_mismatch".to_owned());
        }
    }
    let above: IVec3 = match get_position(v, "above") {
        Some(p) => p,
        None => return Err("prepare_missing_above".to_owned()),
    };
    if manhattan_distance(above, target) != 1 {
        return Err("prepare_invalid_above".to_owned());
    }
    let wield_index: u16 = match get_u16(v, "wield_index") {
        Some(n) => n,
        None => return Err("prepare_invalid_wield_index".to_owned()),
    };
    if !timed {
        return Err("prepare_invalid_dig_time".to_owned());
    }
    let node = match get_str(v, "node") {
        Some(n) if valid_command_atom(n) => n.to_owned(),
        _ => return Err("prepare_missing_node".to_owned()),
    };
    if let Some(wanted) = expected {
        if *wanted != node {
            return Err("prepare_node_mismatch".to_owned());
        }
    }
    let harvestable = match member(v, "harvestable") {
        Some(m) => match m.as_bool() {
            Some(b) => b,
            None => true,
        },
        None => true,
    };
    Ok(PreparedDig { target, above, wield_index, node, harvestable })
}

/// Takes the reply to a preparation. Where the dig starts, the player is turned.
pub fn apply_mine_prepare(
    v: &serde_json::Value,
    task: &mut Option<NativeMiningTask>,
    conn: &mut MtpConnection,
    state: &mut PlayerState,
    turn: Turn,
    fields: &WireFields,
    dig_ms: Option<u64>,
    replies: &mut PendingReplies,
    navigation: &mut NavigationSnapshot,
    now: u64,
) -> (result: Result<(), OutboundError>)
    requires
        old(conn).wf(),
        old(replies).wf(),
    ensures
        final(conn).wf(),
        final(replies).wf(),
        ({
            let before = mining_state(*old(task), *old(conn), *old(replies), *old(navigation));
            let after = mining_state(*final(task), *final(conn), *final(replies), *final(navigation));
            let (expected, turns, error) = mining_prepared(
                before,
                json_value(*v),
                *old(state),
                turn,
                *fields,
                dig_ms,
                now,
            );
            &&& after == expected
            &&& send_error(result) == error
            &&& *final(state) == (if turns {
                turned(*old(state), turn)
            } else {
                *old(state)
            })
        }),
{
    proof {
        reveal(mining_prepared);
    }
    let mut t = match task.take() {
        Some(t) => t,
        None => return Ok(()),
    };
    let requested: Option<IVec3> = match &t.phase {
        NativeMiningPhase::Preparing { requested_target, .. } => *requested_target,
        _ => {
            *task = Some(t);
            return Ok(());
        },
    };
    let dig = match take_prepared_dig(&t.node, requested, v, dig_ms.is_some()) {
        Ok(dig) => dig,
        Err(error) => {
            *task = Some(t);
            fail_current_native_target(task, error.as_str(), conn, replies, navigation, now);
            return Ok(());
        },
    };
    state.turn(turn);
    conn.select_wield_index(dig.wield_index);
    let sent = conn.send_node_interact(
        INTERACT_START_DIGGING,
        dig.wield_index,
        dig.target,
        dig.above,
        &*state,
        fields,
    );
    if let Err(e) = sent {
        *task = Some(t);
        return Err(e);
    }
    t.node = Some(dig.node.clone());
    t.phase = NativeMiningPhase::Digging {
        prepared: dig,
        finish_at: after_ms(now, dig_ms.unwrap()),
    };
    *task = Some(t);
    Ok(())
}

/// Takes the text of a reply to a preparation.
pub fn handle_native_mine_prepare(
    payload: &str,
    task: &mut Option<NativeMiningTask>,
    conn: &mut MtpConnection,
    state: &mut PlayerState,
    turn: Turn,
    fields: &WireFields,
    dig_ms: Option<u64>,
    replies: &mut PendingReplies,
    navigation: &mut NavigationSnapshot,
    now: u64,
) -> (result: Result<(), OutboundError>)
    requires
        old(conn).wf(),
        old(replies).wf(),
    ensures
        final(conn).wf(),
        final(replies).wf(),
        ({
            let before = mining_state(*old(task), *old(conn), *old(replies), *old(navigation));
            let after = mining_state(*final(task), *final(conn), *final(replies), *final(navigation));
            match parsed_json(payload@) {
                Ok(v) => {
                    let (expected, turns, error) = mining_prepared(
                        before,
                        v,
                        *old(state),
                        turn,
                        *fields,
                        dig_ms,
                        now,
                    );
                    &&& after == expected
                    &&& send_error(result) == error
                    &&& *final(state) == (if turns {
                        turned(*old(state), turn)
                    } else {
                        *old(state)
                    })
                },
                Err(e) => result is Ok && after == mining_target_failed(
                    before,
                    "invalid_prepare_response:"@ + e,
                    now,
                ) && *final(state) == *old(state),
            }
        }),
{
    match parse_value(payload) {
        Ok(v) => apply_mine_prepare(
            &v,
            task,
            conn,
            state,
            turn,
            fields,
            dig_ms,
            replies,
            navigation,
            now,
        ),
        Err(e) => {
            let mut error = "invalid_prepare_response:".to_owned();
            error.append(e.as_str());
            fail_current_native_target(task, error.as_str(), conn, replies, navigation, now);
            Ok(())
        },
    }
}

/// The verification of a dig has come in.
pub open spec fn mining_verified(s: MiningState, v: JsonValue, now: u64) -> MiningState {
    match s.task {
        Some(t) => match t.phase {
            MiningPhase::Verifying { prepared, .. } => {
                let target = position_member(v, "target"@);
                let after = if target is Some && target != Some(prepared.target) {
                    target_failed(t, "verify_target_mismatch"@)
                } else if bool_member(v, "ok"@) == Some(true) {
                    MiningView {
                        mined: if t.mined == u16::MAX {
                            u16::MAX
                        } else {
                            (t.mined + 1) as u16
                        },
                        all_harvestable: t.all_harvestable && prepared.harvestable,
                        phase: MiningPhase::Ready,
                        ..t
                    }
                } else {
                    target_failed(t, status_or(v, "node_unchanged"@))
                };
                mining_continued(MiningState { task: Some(after), ..s }, now)
            },
            _ => s,
        },
        None => s,
    }
}

/// Takes the verification of a dig.
pub fn apply_mine_verify(
    v: &serde_json::Value,
    task: &mut Option<NativeMiningTask>,
    conn: &mut MtpConnection,
    replies: &mut PendingReplies,
    navigation: &mut NavigationSnapshot,
    now: u64,
)
    requires
        old(conn).wf(),
        old(replies).wf(),
    ensures
        final(conn).wf(),
        final(replies).wf(),
        mining_state(*final(task), *final(conn), *final(replies), *final(navigation))
            == mining_verified(
            mining_state(*old(task), *old(conn), *old(replies), *old(navigation)),
            json_value(*v),
            now,
        ),
{
    let mut t = match task.take() {
        Some(t) => t,
        None => return,
    };
    let (target, harvestable): (IVec3, bool) = match &t.phase {
        NativeMiningPhase::Verifying { prepared, .. } => (prepared.target, prepared.harvestable),
        _ => {
            *task = Some(t);
            return;
        },
    };
    let other_target = match get_position(v, "target") {
        Some(p) => p != target,
        None => false,
    };
    if other_target {
        t.record_failure("verify_target_mismatch");
    } else if bool_member_is_true(v, "ok") {
        t.mined = t.mined.saturating_add(1);
        t.all_harvestable = t.all_harvestable && harvestable;
        t.phase = NativeMiningPhase::Ready;
    } else {
        let status = get_status(v, "node_unchanged");
        t.record_failure(status.as_str());
    }
    *task = Some(t);
    continue_native_mining(task, conn, replies, navigation, now);
}

/// Takes the text of the verification of a dig.
pub fn handle_native_mine_verify(
    payload: &str,
    task: &mut Option<NativeMiningTask>,
    conn: &mut MtpConnection,
    replies: &mut PendingReplies,
    navigation: &mut NavigationSnapshot,
    now: u64,
)
    requires
        old(conn).wf(),
        old(replies).wf(),
    ensures
        final(conn).wf(),
        final(replies).wf(),
        ({
            let before = mining_state(*old(task), *old(conn), *old(replies), *old(navigation));
            mining_state(*final(task), *final(conn), *final(replies), *final(navigation)) == (
            match parsed_json(payload@) {
                Ok(v) => mining_verified(before, v, now),
                Err(e) => mining_target_failed(before, "invalid_verify_response:"@ + e, now),
            })
        }),
{
    match parse_value(payload) {
        Ok(v) => apply_mine_verify(&v, task, conn, replies, navigation, now),
        Err(e) => {
            let mut error = "invalid_verify_response:".to_owned();
            error.append(e.as_str());
            fail_current_native_target(task, error.as_str(), conn, replies, navigation, now);
        },
    }
}

/// A node interaction that goes with a dig.
pub open spec fn dig_sent(
    conn: ConnectionView,
    action: u8,
    dig: DigView,
    state: PlayerState,
    fields: WireFields,
) -> Result<ConnectionView, OutboundErrorView> {
    match interact_error(dig.target, dig.above, state, fields) {
        Some(e) => Err(e),
        None => Ok(
            sent_reliably(
                conn,
                node_interact_payload(action, dig.wield_index, dig.target, dig.above, state, fields),
            ),
        ),
    }
}

/// The command that asks whether a node is gone.
pub open spec fn verify_mine_text(dig: DigView) -> Seq<char> {
    "/bot_verify_mine "@ + dec(dig.target.x as int) + " "@ + dec(dig.target.y as int) + " "@ + dec(
        dig.target.z as int,
    ) + " "@ + dig.node
}

/// Time has passed. `in_reach` says whether the node that is dug is near enough.
pub open spec fn mining_advanced(
    s: MiningState,
    state: PlayerState,
    fields: WireFields,
    in_reach: bool,
    now: u64,
) -> Result<MiningState, OutboundErrorView> {
    match s.task {
        Some(t) => match t.phase {
            MiningPhase::Ready => Ok(s),
            MiningPhase::Preparing { deadline, .. } => if now >= deadline {
                Ok(mining_target_failed(s, "prepare_timeout"@, now))
            } else {
                Ok(s)
            },
            MiningPhase::Verifying { deadline, .. } => if now >= deadline {
                Ok(mining_target_failed(s, "verify_timeout"@, now))
            } else {
                Ok(s)
            },
            MiningPhase::Digging { prepared, finish_at } => if now < finish_at {
                Ok(s)
            } else if !in_reach {
                match dig_sent(s.conn, INTERACT_STOP_DIGGING, prepared, state, fields) {
                    Err(e) => Err(e),
                    Ok(conn) => Ok(
                        mining_target_failed(
                            MiningState { conn, ..s },
                            "moved_out_of_range"@,
                            now,
                        ),
                    ),
                }
            } else {
                match dig_sent(s.conn, INTERACT_DIGGING_COMPLETED, prepared, state, fields) {
                    Err(e) => Err(e),
                    Ok(conn) => Ok(
                        MiningState {
                            task: Some(
                                MiningView {
                                    phase: MiningPhase::Verifying {
                                        prepared,
                                        deadline: later(now, 3000),
                                    },
                                    ..t
                                },
                            ),
                            conn: chat_sent(conn, verify_mine_text(prepared)),
                            ..s
                        },
                    ),
                }
            },
        },
        None => Ok(s),
    }
}

/// Completes digs when their time has come, and watches the deadlines.
pub fn advance_native_mining(
    task: &mut Option<NativeMiningTask>,
    conn: &mut MtpConnection,
    state: &PlayerState,
    fields: &WireFields,
    in_reach: bool,
    replies: &mut PendingReplies,
    navigation: &mut NavigationSnapshot,
    now: u64,
) -> (result: Result<(), OutboundError>)
    requires
        old(conn).wf(),
        old(replies).wf(),
    ensures
        final(conn).wf(),
        final(replies).wf(),
        ({
            let before = mining_state(*old(task), *old(conn), *old(replies), *old(navigation));
            let after = mining_state(*final(task), *final(conn), *final(replies), *final(navigation));
            match mining_advanced(before, *state, *fields, in_reach, now) {
                Ok(expected) => result is Ok && after == expected,
                Err(e) => result is Err && result->Err_0@ == e && after == before,
            }
        }),
{
    let mut t = match task.take() {
        Some(t) => t,
        None => return Ok(()),
    };
    let mut failure: Option<&str> = None;
    let next: NativeMiningPhase = match t.phase {
        NativeMiningPhase::Ready => NativeMiningPhase::Ready,
        NativeMiningPhase::Preparing { requested_target, deadline } => {
            if now >= deadline {
                failure = Some("prepare_timeout");
            }
            NativeMiningPhase::Preparing { requested_target, deadline }
        },
        NativeMiningPhase::Verifying { prepared, deadline } => {
            if now >= deadline {
                failure = Some("verify_timeout");
            }
            NativeMiningPhase::Verifying { prepared, deadline }
        },
        NativeMiningPhase::Digging { prepared, finish_at } => {
            if now < finish_at {
                NativeMiningPhase::Digging { prepared, finish_at }
            } else {
                let action: u8 = if in_reach {
                    INTERACT_DIGGING_COMPLETED
                } else {
                    INTERACT_STOP_DIGGING
                };
                let sent = conn.send_node_interact(
                    action,
                    prepared.wield_index,
                    prepared.target,
                    prepared.above,
                    state,
                    fields,
                );
                if let Err(e) = sent {
                    t.phase = NativeMiningPhase::Digging { prepared, finish_at };
                    *task = Some(t);
                    return Err(e);
                }
                if in_reach {
                    let mut text = "/bot_verify_mine ".to_owned();
                    push_dec(&mut text, prepared.target.x as i64);
                    text.append(" ");
                    push_dec(&mut text, prepared.target.y as i64);
                    text.append(" ");
                    push_dec(&mut text, prepared.target.z as i64);
                    text.append(" ");
                    text.append(prepared.node.as_str());
                    conn.send_chat_message(text.as_str());
                    NativeMiningPhase::Verifying { prepared, deadline: after_ms(now, 3000) }
                } else {
                    failure = Some("moved_out_of_range");
                    NativeMiningPhase::Digging { prepared, finish_at }
                }
            }
        },
    };
    t.phase = next;
    *task = Some(t);
    if let Some(error) = failure {
        fail_current_native_target(task, error, conn, replies, navigation, now);
    }
    Ok(())
}

/// The task is given up on request.
pub open spec fn mining_cancelled(
    s: MiningState,
    state: PlayerState,
    fields: WireFields,
    now: u64,
) -> Result<MiningState, OutboundErrorView> {
    match s.task {
        Some(t) => {
            let stopped = match t.phase {
                MiningPhase::Digging { prepared, .. } => dig_sent(
                    s.conn,
                    INTERACT_STOP_DIGGING,
                    prepared,
                    state,
                    fields,
                ),
                _ => Ok(s.conn),
            };
            match stopped {
                Err(e) => Err(e),
                Ok(conn) => Ok(
                    mining_target_failed(
                        MiningState {
                            task: Some(MiningView { targets: seq![], ..t }),
                            conn,
                            ..s
                        },
                        "cancelled"@,
                        now,
                    ),
                ),
            }
        },
        None => Ok(s),
    }
}

/// Gives a task up: stops a dig that is going on, and answers the request.
pub fn cancel_native_mining(
    task: &mut Option<NativeMiningTask>,
    conn: &mut MtpConnection,
    state: &PlayerState,
    fields: &WireFields,
    replies: &mut PendingReplies,
    navigation: &mut NavigationSnapshot,
    now: u64,
) -> (result: Result<(), OutboundError>)
    requires
        old(conn).wf(),
        old(replies).wf(),
    ensures
        final(conn).wf(),
        final(replies).wf(),
        ({
            let before = mining_state(*old(task), *old(conn), *old(replies), *old(navigation));
            let after = mining_state(*final(task), *final(conn), *final(replies), *final(navigation));
            match mining_cancelled(before, *state, *fields, now) {
                Ok(expected) => result is Ok && after == expected,
                Err(e) => result is Err && result->Err_0@ == e && after == before,
            }
        }),
{
    let mut t = match task.take() {
        Some(t) => t,
        None => return Ok(()),
    };
    if let NativeMiningPhase::Digging { prepared, .. } = &t.phase {
        let sent = conn.send_node_interact(
            INTERACT_STOP_DIGGING,
            prepared.wield_index,
            prepared.target,
            prepared.above,
            state,
            fields,
        );
        if let Err(e) = sent {
            *task = Some(t);
            return Err(e);
        }
    }
    t.targets.clear();
    assert(t.targets@ =~= seq![]);
    *task = Some(t);
    fail_current_native_target(task, "cancelled", conn, replies, navigation, now);
    Ok(())
}

/// A task that is given up ends at once, and whoever waits for it is answered.
pub proof fn cancelled_mining_ends(
    s: MiningState,
    state: PlayerState,
    fields: WireFields,
    now: u64,
)
    requires
        mining_cancelled(s, state, fields, now) is Ok,
    ensures
        ({
            let after = mining_cancelled(s, state, fields, now)->Ok_0;
            &&& after.task is None
            &&& match s.task {
                Some(t) => match t.origin.tag() {
                    Some(tag) => !after.replies.waiting.dom().contains(tag),
                    None => after.replies == s.replies,
                },
                None => after == s,
            }
        }),
{
}

/// With each target that is prepared one fewer is left, so a task comes to its
/// end: preparing, verifying, timing out and failing never add targets.
pub proof fn mining_targets_only_shrink(
    s: MiningState,
    t: MiningView,
    v: JsonValue,
    error: Seq<char>,
    now: u64,
)
    requires
        s.task == Some(t),
    ensures
        match mining_continued(s, now).task {
            Some(after) => after.targets.len() <= t.targets.len() && (t.phase is Ready
                ==> after.targets.len() < t.targets.len()),
            None => true,
        },
        match mining_target_failed(s, error, now).task {
            Some(after) => after.targets.len() < t.targets.len(),
            None => true,
        },
        match mining_verified(s, v, now).task {
            Some(after) => after.targets.len() <= t.targets.len(),
            None => true,
        },
{
}

/// Nobody waits for the task's reply any more, and whoever listened for it has got one.
pub open spec fn mining_was_answered(before: MiningState, t: MiningView, after: MiningState) -> bool {
    match t.origin.tag() {
        Some(tag) => {
            &&& !after.replies.waiting.dom().contains(tag)
            &&& listened_for(before.replies, tag) ==> after.replies.delivered.len()
                == before.replies.delivered.len() + 1 && after.replies.delivered.last().0
                == before.replies.waiting[tag].ticket
        },
        None => after.replies == before.replies,
    }
}

/// Whenever a task ends, the request that waits for it is answered.
pub proof fn ended_mining_is_answered(
    s: MiningState,
    t: MiningView,
    v: JsonValue,
    state: PlayerState,
    turn: Turn,
    fields: WireFields,
    dig_ms: Option<u64>,
    in_reach: bool,
    now: u64,
)
    requires
        s.task == Some(t),
    ensures
        mining_continued(s, now).task is None ==> mining_was_answered(
            s,
            t,
            mining_continued(s, now),
        ),
        mining_prepared(s, v, state, turn, fields, dig_ms, now).0.task is None ==> mining_was_answered(
            s,
            t,
            mining_prepared(s, v, state, turn, fields, dig_ms, now).0,
        ),
        mining_verified(s, v, now).task is None ==> mining_was_answered(
            s,
            t,
            mining_verified(s, v, now),
        ),
        match mining_advanced(s, state, fields, in_reach, now) {
            Ok(after) => after.task is None ==> mining_was_answered(s, t, after),
            Err(_) => true,
        },
        match mining_cancelled(s, state, fields, now) {
            Ok(after) => mining_was_answered(s, t, after),
            Err(_) => true,
        },
{
    reveal(mining_prepared);
}

/// No more nodes are counted than were asked for, and none is worked on once enough
/// are counted.
pub open spec fn mining_within_request(task: Option<MiningView>) -> bool {
    match task {
        Some(t) => t.mined <= t.requested && (!(t.phase is Ready) ==> t.mined < t.requested),
        None => true,
    }
}

/// A task never mines more nodes than were asked for.
pub proof fn mining_stays_within_its_request(
    s: MiningState,
    v: JsonValue,
    state: PlayerState,
    turn: Turn,
    fields: WireFields,
    dig_ms: Option<u64>,
    in_reach: bool,
    now: u64,
)
    requires
        mining_within_request(s.task),
    ensures
        mining_within_request(mining_continued(s, now).task),
        mining_within_request(mining_prepared(s, v, state, turn, fields, dig_ms, now).0.task),
        mining_within_request(mining_verified(s, v, now).task),
        match mining_advanced(s, state, fields, in_reach, now) {
            Ok(after) => mining_within_request(after.task),
            Err(_) => true,
        },
        match mining_cancelled(s, state, fields, now) {
            Ok(after) => mining_within_request(after.task),
            Err(_) => true,
        },
{
    reveal(mining_prepared);
}

/// What whoever waits for a task is told when it ends with these counts.
pub open spec fn told_of_mining(
    before: RepliesView,
    after: RepliesView,
    t: MiningView,
    mined: int,
    failed: int,
    harvestable: bool,
    last_error: Option<Seq<char>>,
) -> bool {
    let tag = if t.origin is Mine {
        "BOT_MINE"@
    } else {
        "BOT_COLLECT"@
    };
    let status = if mined >= t.requested || (t.origin is Mine && mined > 0) {
        "mined"@
    } else if mined > 0 {
        "partially_mined"@
    } else if last_error is Some {
        last_error->0
    } else {
        "mine_failed"@
    };
    if t.origin is ArrivalCollect {
        after == before
    } else {
        exists|r: JsonValue|
            {
                &&& after == resolved(before, tag, #[trigger] json_text(r))
                &&& bool_member(r, "ok"@) == Some(mined > 0)
                &&& str_member(r, "status"@) == Some(status)
                &&& str_member(r, "node"@) == t.node
                &&& u64_member(r, "mined"@) == Some(mined as u64)
                &&& u64_member(r, "requested"@) == Some(t.requested as u64)
                &&& u64_member(r, "failed"@) == Some(failed as u64)
                &&& bool_member(r, "harvestable"@) == Some(harvestable)
                &&& bool_member(r, "drop_pending"@) == Some(mined > 0)
                &&& str_member(r, "drop_status"@) == if mined > 0 {
                    Some("server_drop_pending_pickup"@)
                } else {
                    None
                }
                &&& str_member(r, "error"@) == if mined > 0 {
                    None
                } else {
                    Some(status)
                }
            }
    }
}

/// A target is done with, and these are the counts now: the next target is asked for,
/// or, where enough was mined or none is left, the task ends with these counts.
pub open spec fn target_done_with(
    s: MiningState,
    t: MiningView,
    after: MiningState,
    mined: int,
    failed: int,
    harvestable: bool,
    last_error: Option<Seq<char>>,
    now: u64,
) -> bool {
    if mined < t.requested && t.targets.len() > 0 {
        &&& after.task is Some
        &&& after.task->0.mined == mined
        &&& after.task->0.failed == failed
        &&& after.task->0.all_harvestable == harvestable
        &&& after.task->0.last_error == last_error
        &&& after.task->0.origin == t.origin
        &&& after.task->0.node == t.node
        &&& after.task->0.requested == t.requested
        &&& seq![t.targets[0]] + after.task->0.targets == t.targets
        &&& now + 3000 <= u64::MAX ==> after.task->0.phase == (MiningPhase::Preparing {
            requested_target: t.targets[0],
            deadline: (now + 3000) as u64,
        })
        &&& after.conn == chat_sent(
            s.conn,
            match t.targets[0] {
                Some(p) => "/bot_prepare_mine "@ + dec(p.x as int) + " "@ + dec(p.y as int) + " "@
                    + dec(p.z as int),
                None => "/bot_prepare_mine"@,
            },
        )
        &&& after.replies == s.replies
        &&& after.navigation == s.navigation
    } else {
        &&& after.task is None
        &&& after.conn == s.conn
        &&& told_of_mining(s.replies, after.replies, t, mined, failed, harvestable, last_error)
        &&& !(t.origin is ArrivalCollect) ==> after.navigation == s.navigation
        &&& t.origin is ArrivalCollect && mined > 0 ==> after.navigation.status == "idle"@
            && after.navigation.last_error is None
        &&& t.origin is ArrivalCollect && mined == 0 ==> after.navigation.status == "failed"@
            && after.navigation.last_error is Some && (last_error is Some
            ==> after.navigation.last_error == last_error || t.requested == 0)
    }
}

/// A target has failed: it counts once as failed and not as mined, and the reason is the
/// last error.
pub open spec fn target_given_up(
    s: MiningState,
    t: MiningView,
    after: MiningState,
    error: Seq<char>,
    now: u64,
) -> bool {
    target_done_with(
        s,
        t,
        after,
        t.mined as int,
        if t.failed == u16::MAX {
            t.failed as int
        } else {
            t.failed + 1
        },
        t.all_harvestable,
        Some(error),
        now,
    )
}

proof fn mining_reply_members(t: MiningView, before: RepliesView)
    ensures
        told_of_mining(
            before,
            mining_answered(t, before),
            t,
            t.mined as int,
            t.failed as int,
            t.all_harvestable,
            t.last_error,
        ),
{
    reveal_strlit("ok");
    reveal_strlit("status");
    reveal_strlit("node");
    reveal_strlit("mined");
    reveal_strlit("requested");
    reveal_strlit("failed");
    reveal_strlit("harvestable");
    reveal_strlit("drop_pending");
    reveal_strlit("drop_status");
    reveal_strlit("error");
    assert("ok"@.len() == 2 && "status"@.len() == 6 && "node"@.len() == 4);
    assert("mined"@.len() == 5 && "requested"@.len() == 9 && "failed"@.len() == 6);
    assert("harvestable"@.len() == 11 && "drop_pending"@.len() == 12);
    assert("drop_status"@.len() == 11 && "error"@.len() == 5);
    assert("status"@[0] == 's' && "failed"@[0] == 'f');
    assert("mined"@[0] == 'm' && "error"@[0] == 'e');
    assert("harvestable"@[0] == 'h' && "drop_status"@[0] == 'd');
    let r = mining_reply(t);
    assert(bool_member(r, "ok"@) == Some(t.mined > 0));
    assert(u64_member(r, "mined"@) == Some(t.mined as u64));
    assert(u64_member(r, "failed"@) == Some(t.failed as u64));
    assert(mining_answered(t, before) == if t.origin is ArrivalCollect {
        before
    } else {
        resolved(
            before,
            if t.origin is Mine {
                "BOT_MINE"@
            } else {
                "BOT_COLLECT"@
            },
            json_text(r),
        )
    });
}

/// The count of mined nodes grows by one exactly on a verification whose `ok` is true
/// and which does not name another node than the one that was dug. On every other
/// verification it stays, one more target has failed, and the status that came
/// with the verification is the last error. These counts go on with the task, or are
/// what the request is answered with.
pub proof fn only_confirmed_digs_count(s: MiningState, t: MiningView, v: JsonValue, now: u64)
    requires
        s.task == Some(t),
        t.phase is Verifying,
        mining_within_request(s.task),
    ensures
        ({
            let dug = t.phase->Verifying_prepared;
            let elsewhere = position_member(v, "target"@) is Some && position_member(v, "target"@)
                != Some(dug.target);
            let confirmed = bool_member(v, "ok"@) == Some(true) && !elsewhere;
            target_done_with(
                s,
                t,
                mining_verified(s, v, now),
                if confirmed {
                    t.mined + 1
                } else {
                    t.mined as int
                },
                if confirmed || t.failed == u16::MAX {
                    t.failed as int
                } else {
                    t.failed + 1
                },
                t.all_harvestable && (confirmed ==> dug.harvestable),
                if confirmed {
                    t.last_error
                } else if elsewhere {
                    Some("verify_target_mismatch"@)
                } else if str_member(v, "status"@) is Some {
                    str_member(v, "status"@)
                } else {
                    Some("node_unchanged"@)
                },
                now,
            )
        }),
{
    let dug = t.phase->Verifying_prepared;
    let target = position_member(v, "target"@);
    let confirmed = bool_member(v, "ok"@) == Some(true) && !(target is Some && target != Some(
        dug.target,
    ));
    let counted = if confirmed {
        MiningView {
            mined: (t.mined + 1) as u16,
            all_harvestable: t.all_harvestable && dug.harvestable,
            phase: MiningPhase::Ready,
            ..t
        }
    } else if target is Some && target != Some(dug.target) {
        target_failed(t, "verify_target_mismatch"@)
    } else {
        target_failed(t, status_or(v, "node_unchanged"@))
    };
    mining_reply_members(counted, s.replies);
    if t.targets.len() > 0 {
        assert(seq![t.targets[0]] + t.targets.drop_first() =~= t.targets);
    }
}

/// A request for one node is answered with success exactly where the verification of
/// the dig confirms it: otherwise `ok` is false and nothing counts as mined.
pub proof fn unconfirmed_single_dig_is_refused(
    s: MiningState,
    t: MiningView,
    v: JsonValue,
    now: u64,
)
    requires
        s.task == Some(t),
        t.phase is Verifying,
        t.origin is Mine,
        t.requested == 1,
        t.mined == 0,
        t.targets.len() == 0,
    ensures
        ({
            let after = mining_verified(s, v, now);
            let target = position_member(v, "target"@);
            let confirmed = bool_member(v, "ok"@) == Some(true) && (target is None || target
                == Some(t.phase->Verifying_prepared.target));
            &&& after.task is None
            &&& exists|r: JsonValue|
                {
                    &&& after.replies == resolved(s.replies, "BOT_MINE"@, #[trigger] json_text(r))
                    &&& bool_member(r, "ok"@) == Some(confirmed)
                    &&& u64_member(r, "mined"@) == Some(
                        if confirmed {
                            1u64
                        } else {
                            0u64
                        },
                    )
                }
        }),
{
    only_confirmed_digs_count(s, t, v, now);
}

/// A target that fails, for whatever reason, counts once as failed and never as mined.
pub proof fn failed_targets_count_as_failed(
    s: MiningState,
    t: MiningView,
    error: Seq<char>,
    now: u64,
)
    requires
        s.task == Some(t),
        t.mined < t.requested,
    ensures
        target_given_up(s, t, mining_target_failed(s, error, now), error, now),
{
    mining_reply_members(target_failed(t, error), s.replies);
    if t.targets.len() > 0 {
        assert(seq![t.targets[0]] + t.targets.drop_first() =~= t.targets);
    }
}

/// A task that begins asks for its first target, and ends at once where it has none or
/// where nothing is requested.
pub proof fn begun_mining_asks_for_its_first_target(s: MiningState, t: MiningView, now: u64)
    requires
        s.task == Some(t),
        t.phase is Ready,
    ensures
        target_done_with(
            s,
            t,
            mining_continued(s, now),
            t.mined as int,
            t.failed as int,
            t.all_harvestable,
            t.last_error,
            now,
        ),
        ({
            let fresh = new_mining(t.origin, t.node, t.requested, t.targets);
            &&& fresh.mined == 0 && fresh.failed == 0
            &&& fresh.all_harvestable && fresh.last_error is None && fresh.phase is Ready
            &&& fresh.origin == t.origin && fresh.node == t.node
            &&& fresh.requested == t.requested && fresh.targets == t.targets
        }),
{
    mining_reply_members(t, s.replies);
    if t.targets.len() > 0 {
        assert(seq![t.targets[0]] + t.targets.drop_first() =~= t.targets);
    }
}

/// A reply prepares a dig exactly where it is right in all it says: it is `ok`, names the
/// target that was asked for, a node beside it, a slot, and a node of the kind that
/// was asked for, and its dig time can be used. The dig is then the one that the
/// reply names, member by member.
pub proof fn digs_are_as_the_reply_says(
    expected: Option<Seq<char>>,
    wanted: Option<IVec3>,
    v: JsonValue,
    timed: bool,
)
    ensures
        ({
            let target = position_member(v, "target"@);
            let above = position_member(v, "above"@);
            let slot = u64_member(v, "wield_index"@);
            let node = str_member(v, "node"@);
            match prepared_dig(expected, wanted, v, timed) {
                Ok(dig) => {
                    &&& bool_member(v, "ok"@) == Some(true)
                    &&& target == Some(dig.target)
                    &&& wanted is Some ==> wanted == target
                    &&& above == Some(dig.above)
                    &&& manhattan(dig.above, dig.target) == 1
                    &&& slot == Some(dig.wield_index as u64)
                    &&& timed
                    &&& node == Some(dig.node)
                    &&& command_atom(dig.node)
                    &&& expected is Some ==> expected == node
                    &&& dig.harvestable == (bool_member(v, "harvestable"@) != Some(false))
                },
                Err(reason) => if bool_member(v, "ok"@) != Some(true) {
                    reason == if str_member(v, "status"@) is Some {
                        str_member(v, "status"@)->0
                    } else {
                        "prepare_failed"@
                    }
                } else {
                    ||| target is None && reason == "prepare_missing_target"@
                    ||| target is Some && wanted is Some && wanted != target && reason
                        == "prepare_target_mismatch"@
                    ||| target is Some && above is None && reason == "prepare_missing_above"@
                    ||| target is Some && above is Some && manhattan(above->0, target->0) != 1
                        && reason == "prepare_invalid_above"@
                    ||| (slot is None || slot->0 > 65535) && reason
                        == "prepare_invalid_wield_index"@
                    ||| !timed && reason == "prepare_invalid_dig_time"@
                    ||| (node is None || !command_atom(node->0)) && reason
                        == "prepare_missing_node"@
                    ||| expected is Some && node is Some && expected != node && reason
                        == "prepare_node_mismatch"@
                },
            }
        }),
{
}

/// For a prepared dig two actions are sent and no other: its slot is wielded, and the
/// digging of its target is started from the node above it. It is through when the dig
/// time has passed.
pub proof fn prepared_digs_are_started(
    s: MiningState,
    t: MiningView,
    v: JsonValue,
    state: PlayerState,
    turn: Turn,
    fields: WireFields,
    dig_ms: u64,
    now: u64,
)
    requires
        s.task == Some(t),
        t.phase is Preparing,
        prepared_dig(t.node, t.phase->requested_target, v, true) is Ok,
    ensures
        ({
            let dig = prepared_dig(t.node, t.phase->requested_target, v, true)->Ok_0;
            let wielded = sent_reliably(s.conn, be16(0x37) + be16(dig.wield_index));
            let (after, turned_there, error) = mining_prepared(
                s,
                v,
                state,
                turn,
                fields,
                Some(dig_ms),
                now,
            );
            &&& turned_there
            &&& error == interact_error(dig.target, dig.above, turned(state, turn), fields)
            &&& after.replies == s.replies
            &&& after.navigation == s.navigation
            &&& error is Some ==> after.task == s.task && after.conn == wielded
            &&& error is None ==> after.conn == sent_reliably(
                wielded,
                be16(0x39) + seq![0u8] + be16(dig.wield_index) + be32(14) + seq![0u8, 1u8]
                    + v3s16_field(to_v3s16(dig.target)) + v3s16_field(to_v3s16(dig.above))
                    + player_state_fields(turned(state, turn), fields),
            )
            &&& error is None && now + dig_ms <= u64::MAX ==> after.task == Some(
                MiningView {
                    node: Some(dig.node),
                    phase: MiningPhase::Digging { prepared: dig, finish_at: (now + dig_ms) as u64 },
                    ..t
                },
            )
        }),
{
    reveal(mining_prepared);
    let dig = prepared_dig(t.node, t.phase->requested_target, v, true)->Ok_0;
    assert(node_interact_payload(
        INTERACT_START_DIGGING,
        dig.wield_index,
        dig.target,
        dig.above,
        turned(state, turn),
        fields,
    ) =~= be16(0x39) + seq![0u8] + be16(dig.wield_index) + be32(14) + seq![0u8, 1u8]
        + v3s16_field(to_v3s16(dig.target)) + v3s16_field(to_v3s16(dig.above))
        + player_state_fields(turned(state, turn), fields));
}

/// A preparation that is refused sends no action: the target has failed, for the reason
/// that the refusal gives.
pub proof fn refused_preparations_fail_their_target(
    s: MiningState,
    t: MiningView,
    v: JsonValue,
    state: PlayerState,
    turn: Turn,
    fields: WireFields,
    dig_ms: Option<u64>,
    now: u64,
)
    requires
        s.task == Some(t),
        t.phase is Preparing,
        mining_within_request(s.task),
        prepared_dig(t.node, t.phase->requested_target, v, dig_ms is Some) is Err,
    ensures
        ({
            let (after, turned_there, error) = mining_prepared(
                s,
                v,
                state,
                turn,
                fields,
                dig_ms,
                now,
            );
            &&& !turned_there
            &&& error is None
            &&& target_given_up(
                s,
                t,
                after,
                prepared_dig(t.node, t.phase->requested_target, v, dig_ms is Some)->Err_0,
                now,
            )
        }),
{
    reveal(mining_prepared);
    let reason = prepared_dig(t.node, t.phase->requested_target, v, dig_ms is Some)->Err_0;
    failed_targets_count_as_failed(s, t, reason, now);
}

/// Nothing happens before a dig is through. Then, where the node is in reach, exactly
/// the completion of that dig is sent, followed by the question whether that node is
/// gone; where it is not, the dig is stopped and the target has failed.
pub proof fn digs_are_completed_in_time(
    s: MiningState,
    t: MiningView,
    state: PlayerState,
    fields: WireFields,
    in_reach: bool,
    now: u64,
)
    requires
        s.task == Some(t),
        t.phase is Digging,
        mining_within_request(s.task),
    ensures
        ({
            let dug = t.phase->Digging_prepared;
            let sent = sent_reliably(
                s.conn,
                be16(0x39) + seq![
                    if in_reach {
                        2u8
                    } else {
                        1u8
                    },
                ] + be16(dug.wield_index) + be32(14) + seq![0u8, 1u8] + v3s16_field(
                    to_v3s16(dug.target),
                ) + v3s16_field(to_v3s16(dug.above)) + player_state_fields(state, fields),
            );
            match mining_advanced(s, state, fields, in_reach, now) {
                Err(e) => now >= t.phase->finish_at && interact_error(
                    dug.target,
                    dug.above,
                    state,
                    fields,
                ) == Some(e),
                Ok(after) => if now < t.phase->finish_at {
                    after == s
                } else if in_reach {
                    &&& after.conn == chat_sent(
                        sent,
                        "/bot_verify_mine "@ + dec(dug.target.x as int) + " "@ + dec(
                            dug.target.y as int,
                        ) + " "@ + dec(dug.target.z as int) + " "@ + dug.node,
                    )
                    &&& after.replies == s.replies
                    &&& after.navigation == s.navigation
                    &&& now + 3000 <= u64::MAX ==> after.task == Some(
                        MiningView {
                            phase: MiningPhase::Verifying {
                                prepared: dug,
                                deadline: (now + 3000) as u64,
                            },
                            ..t
                        },
                    )
                } else {
                    target_given_up(MiningState { conn: sent, ..s }, t, after, "moved_out_of_range"@, now)
                },
            }
        }),
{
    let dug = t.phase->Digging_prepared;
    let sent = node_interact_payload(
        INTERACT_STOP_DIGGING,
        dug.wield_index,
        dug.target,
        dug.above,
        state,
        fields,
    );
    let stopped = MiningState { conn: sent_reliably(s.conn, sent), ..s };
    failed_targets_count_as_failed(stopped, t, "moved_out_of_range"@, now);
    assert(sent =~= be16(0x39) + seq![1u8] + be16(dug.wield_index) + be32(14) + seq![0u8, 1u8]
        + v3s16_field(to_v3s16(dug.target)) + v3s16_field(to_v3s16(dug.above))
        + player_state_fields(state, fields));
    assert(node_interact_payload(
        INTERACT_DIGGING_COMPLETED,
        dug.wield_index,
        dug.target,
        dug.above,
        state,
        fields,
    ) =~= be16(0x39) + seq![2u8] + be16(dug.wield_index) + be32(14) + seq![0u8, 1u8]
        + v3s16_field(to_v3s16(dug.target)) + v3s16_field(to_v3s16(dug.above))
        + player_state_fields(state, fields));
}

/// A reply that does not come fails the target when the deadline is reached and not
/// before.
pub proof fn unanswered_targets_time_out(
    s: MiningState,
    t: MiningView,
    state: PlayerState,
    fields: WireFields,
    in_reach: bool,
    now: u64,
)
    requires
        s.task == Some(t),
        t.phase is Preparing || t.phase is Verifying,
        mining_within_request(s.task),
    ensures
        ({
            let deadline = if t.phase is Preparing {
                t.phase->Preparing_deadline
            } else {
                t.phase->Verifying_deadline
            };
            match mining_advanced(s, state, fields, in_reach, now) {
                Err(_) => false,
                Ok(after) => if now < deadline {
                    after == s
                } else {
                    target_given_up(s, t, after, if t.phase is Preparing {
                            "prepare_timeout"@
                        } else {
                            "verify_timeout"@
                        }, now)
                },
            }
        }),
{
    failed_targets_count_as_failed(s, t, "prepare_timeout"@, now);
    failed_targets_count_as_failed(s, t, "verify_timeout"@, now);
}

/// A task that is given up reports what was mined so far, and a dig that is going on
/// is stopped first.
pub proof fn cancelled_mining_reports_its_counts(
    s: MiningState,
    t: MiningView,
    state: PlayerState,
    fields: WireFields,
    now: u64,
)
    requires
        s.task == Some(t),
    ensures
        match mining_cancelled(s, state, fields, now) {
            Err(e) => t.phase is Digging,
            Ok(after) => {
                &&& told_of_mining(
                    s.replies,
                    after.replies,
                    t,
                    t.mined as int,
                    if t.failed == u16::MAX {
                        t.failed as int
                    } else {
                        t.failed + 1
                    },
                    t.all_harvestable,
                    Some("cancelled"@),
                )
                &&& after.conn == if t.phase is Digging {
                    sent_reliably(
                        s.conn,
                        node_interact_payload(
                            1u8,
                            t.phase->Digging_prepared.wield_index,
                            t.phase->Digging_prepared.target,
                            t.phase->Digging_prepared.above,
                            state,
                            fields,
                        ),
                    )
                } else {
                    s.conn
                }
            },
        },
{
    let emptied = MiningView { targets: seq![], ..t };
    mining_reply_members(target_failed(emptied, "cancelled"@), s.replies);
}

/// The node that a task works on is the one that was asked for, and then the one that is dug.
pub proof fn tasks_work_on_their_target(t: Option<IVec3>, dig: DigView, time: u64)
    ensures
        current_target(MiningPhase::Ready) is None,
        current_target(MiningPhase::Preparing { requested_target: t, deadline: time }) == t,
        current_target(MiningPhase::Digging { prepared: dig, finish_at: time }) == Some(dig.target),
        current_target(MiningPhase::Verifying { prepared: dig, deadline: time }) == Some(
            dig.target,
        ),
{
}

} // verus!
