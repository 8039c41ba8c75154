//! What chat messages do to the bot: replies of the server mod, the server's
//! answers to unknown commands, and orders of players.

use super::chat::{
    bot_protocol_message, control_command, effective_chat_sender_message, effective_message,
    is_sender_allowed, log_chat, logged, normalize_player_name, normalized, parse_control_command,
    protocol_message, resolve_unsupported_bot_command, sender_allowed, unsupported_bot_command,
    unsupported_command, unsupported_resolved, ControlCommand, ControlView,
};
use super::commands::radius_or;
use super::navigation::{
    build_route_goal, default_speed, facts_wf, goal_view, invalid_route_reply,
    invalid_route_response, navigation_begun, navigation_failed, parse_route, response_status,
    route_in, route_response_status, route_result, route_waypoints, rows, GoalView, MoveGoal,
    NavigationView, Route, RouteView, MAX_ROUTE_WAYPOINTS, STOP_DIST,
};
use super::observation::{
    controller_json, enrichable_text, enriched_text, goal_pair, try_enrich_server_observation,
    GoalFacts,
};
use super::replies::{listened_for, resolved};
use super::runtime::{
    craft_part, following, mining_part, said, stopped, transfer_part, with_craft, with_mining,
    with_player_name, with_transfer, Bot, BotView,
};
use super::tasks::crafting::{
    craft_failed, craft_prepared, craft_receipt, fail_native_craft, handle_native_craft_prepare,
    handle_native_craft_receipt,
};
use super::tasks::inventory::{
    fail_native_inventory_transfer, handle_native_inventory_prepare,
    handle_native_inventory_receipt, transfer_failed, transfer_prepared, transfer_receipt,
};
use super::tasks::mining::{
    fail_current_native_target, handle_native_mine_prepare, handle_native_mine_verify,
    mining_prepared, mining_target_failed, mining_verified, send_error,
};
use crate::game::navigation::fresh;
use crate::game::player::{turned, Turn, WireFields};
use crate::json::{
    bool_member, bool_member_is_true, json_text, json_value, parse_value, parsed_json, str_view,
    JsonValue,
};
use crate::network::outbound::{chat_sent, OutboundError, OutboundErrorView};
use crate::scan::{begins, replace, replaced, starts_with};
use crate::session::SessionView;
use crate::text::{dec, push_dec, text_view, to_chars};
use crate::types::Vec3;
use vstd::prelude::*;
use vstd::string::*;

verus! {

/// The points of a route as the caller computes them: the path and, at its end, the
/// place to stand; which of them are near each other; and which are reached already.
pub struct RouteFacts {
    pub points: Vec<Vec3>,
    pub near: Vec<Vec<bool>>,
    pub reached: Vec<bool>,
}

/// What the caller computes for a chat message, in floating point or with a clock.
pub struct ChatFacts {
    /// Milliseconds since the epoch.
    pub ts_ms: u128,
    /// The player's state in the units of the wire.
    pub fields: WireFields,
    /// The player's position in words.
    pub where_text: String,
    /// The angles that lead to the node that a reply prepares the dig of.
    pub turn: Turn,
    /// The player's state with these angles in the units of the wire.
    pub turned_fields: WireFields,
    /// How long that dig takes, where that can be told.
    pub dig_ms: Option<u64>,
    /// The points of the route in a reply.
    pub route: Option<RouteFacts>,
    /// What is reported of the goal.
    pub goal_facts: Option<GoalFacts>,
    /// The time without progress as a number.
    pub stalled: serde_json::Value,
}

/// Why the bot cannot go on after a message.
#[derive(Debug)]
pub enum ChatFault {
    /// An action could not be sent.
    Outbound(OutboundError),
    /// The server's observation is JSON, but no object.
    NoObject,
    /// The points that were handed in are not those of the route in the message.
    WrongPoints,
}

/// The value of a [`ChatFault`].
pub ghost enum ChatFaultView {
    Outbound(OutboundErrorView),
    NoObject,
    WrongPoints,
}

impl View for ChatFault {
    type V = ChatFaultView;

    open spec fn view(&self) -> ChatFaultView {
        match *self {
            ChatFault::Outbound(e) => ChatFaultView::Outbound(e@),
            ChatFault::NoObject => ChatFaultView::NoObject,
            ChatFault::WrongPoints => ChatFaultView::WrongPoints,
        }
    }
}

/// What stopped the bot, if anything did.
pub open spec fn fault_of(result: Result<(), ChatFault>) -> Option<ChatFaultView> {
    match result {
        Ok(()) => None,
        Err(e) => Some(e@),
    }
}

fn sent_or_fault(result: Result<(), OutboundError>) -> (r: Result<(), ChatFault>)
    ensures
        fault_of(r) == (match send_error(result) {
            Some(e) => Some(ChatFaultView::Outbound(e)),
            None => None,
        }),
{
    match result {
        Ok(()) => Ok(()),
        Err(e) => Err(ChatFault::Outbound(e)),
    }
}

/// The facts belong to the route.
pub open spec fn facts_match(route: RouteView, f: RouteFacts) -> bool {
    &&& f.points@.len() == route.path.len() + 1
    &&& f.points@.len() <= MAX_ROUTE_WAYPOINTS + 1
    &&& facts_wf(rows(f.near@), f.reached@, f.points@.len() as int)
}

/// The goal that a route leads to.
pub open spec fn route_goal(route: RouteView, facts: Option<RouteFacts>, speed: u32) -> Option<
    GoalView,
> {
    match facts {
        Some(f) => if facts_match(route, f) {
            Some(
                GoalView {
                    target: f.points@.last(),
                    waypoints: route_waypoints(f.points@, rows(f.near@), f.reached@),
                    speed: default_speed(speed),
                    stop_dist: STOP_DIST,
                    arrival_action: route.arrival_action,
                },
            )
        } else {
            None
        },
        None => None,
    }
}

fn rows_complete(near: &Vec<Vec<bool>>, count: usize) -> (yes: bool)
    ensures
        yes == (forall|i: int| 0 <= i < near@.len() ==> (#[trigger] rows(near@)[i]).len() == count),
{
    let mut i: usize = 0;
    while i < near.len()
        invariant
            i <= near.len(),
            forall|k: int| 0 <= k < i ==> (#[trigger] rows(near@)[k]).len() == count,
        decreases near.len() - i,
    {
        assert(rows(near@)[i as int] == near@[i as int]@);
        if near[i].len() != count {
            return false;
        }
        i = i + 1;
    }
    true
}

fn points_fit(route: &Route, facts: &Option<RouteFacts>) -> (yes: bool)
    ensures
        yes == (facts is Some && facts_match(route@, facts->0)),
{
    match facts {
        Some(f) => {
            let count: usize = f.points.len();
            count > 0 && count - 1 == route.path.len() && count - 1 <= MAX_ROUTE_WAYPOINTS
                && f.near.len() == count && f.reached.len() == count && rows_complete(
                &f.near,
                count,
            )
        },
        None => false,
    }
}

fn make_route_goal(route: Route, facts: &Option<RouteFacts>, speed: u32) -> (goal: Option<MoveGoal>)
    ensures
        goal_view(goal) == route_goal(route@, *facts, speed),
        super::runtime::goal_bounded(goal_view(goal)),
{
    if !points_fit(&route, facts) {
        return None;
    }
    match facts {
        Some(f) => Some(
            build_route_goal(&f.points, &f.near, &f.reached, speed, route.arrival_action),
        ),
        None => None,
    }
}

/// A reply with one of these tags brings a route, and so does a hunt that needs a
/// new one.
pub open spec fn carries_route(tag: Seq<char>, status: Option<Seq<char>>) -> bool {
    tag == "BOT_PATH_NODE"@ || tag == "BOT_GATHER_PATH"@ || tag == "BOT_HUNT_PATH"@ || (tag
        == "BOT_HUNT"@ && status == Some("repath_required"@))
}

fn brings_route(tag: &String, status: &Option<String>) -> (yes: bool)
    ensures
        yes == carries_route(tag@, text_view(*status)),
{
    if *tag == "BOT_PATH_NODE".to_owned() || *tag == "BOT_GATHER_PATH".to_owned() || *tag
        == "BOT_HUNT_PATH".to_owned() {
        return true;
    }
    *tag == "BOT_HUNT".to_owned() && match status {
        Some(s) => *s == "repath_required".to_owned(),
        None => false,
    }
}

/// The route in a chat message, for the caller to compute its points.
pub open spec fn message_route(message: Seq<char>) -> Option<RouteView> {
    match protocol_message(message) {
        Some((tag, payload)) => if carries_route(tag, response_status(payload)) {
            match route_in(payload) {
                Ok(Some(route)) => Some(route),
                _ => None,
            }
        } else {
            None
        },
        None => None,
    }
}

/// Reads the route in a chat message, if it brings one.
pub fn route_in_message(message: &str) -> (route: Option<Route>)
    ensures
        match route {
            Some(r) => message_route(message@) == Some(r@),
            None => message_route(message@) is None,
        },
{
    let (tag, payload) = bot_protocol_message(message)?;
    let status = route_response_status(payload.as_str());
    if !brings_route(&tag, &status) {
        return None;
    }
    match parse_route(payload.as_str()) {
        Ok(route) => route,
        Err(_) => None,
    }
}

/// The points of the route in a reply, if it brings one, were handed in.
pub open spec fn points_known(
    tag: Seq<char>,
    payload: Seq<char>,
    facts: Option<RouteFacts>,
) -> bool {
    match route_in(payload) {
        Ok(Some(route)) => carries_route(tag, response_status(payload)) ==> facts is Some
            && facts_match(route, facts->0),
        _ => true,
    }
}

/// A route has come in and the bot takes it, or does not find one.
pub open spec fn route_taken(
    b: BotView,
    route: Result<Option<RouteView>, Seq<char>>,
    status: Option<Seq<char>>,
    facts: Option<RouteFacts>,
) -> BotView {
    match route {
        Ok(Some(r)) => match route_goal(r, facts, b.follow_speed) {
            Some(goal) => BotView {
                move_goal: Some(goal),
                follow_enabled: false,
                follow_target_id: None,
                anti_stuck: fresh(),
                navigation: navigation_begun("moving"@),
                ..b
            },
            None => b,
        },
        Ok(None) => {
            let error = match status {
                Some(s) => s,
                None => "path_not_found"@,
            };
            let noted = NavigationView { last_error: Some(error), ..b.navigation };
            BotView {
                navigation: if b.move_goal is None && !b.follow_enabled {
                    navigation_failed(noted, error)
                } else {
                    noted
                },
                ..b
            }
        },
        Err(e) => BotView {
            navigation: navigation_failed(b.navigation, "invalid_path_response: "@ + e),
            ..b
        },
    }
}

/// A reply says that its action succeeded.
pub open spec fn reply_ok(payload: Seq<char>) -> bool {
    match parsed_json(payload) {
        Ok(v) => bool_member(v, "ok"@) == Some(true),
        Err(_) => false,
    }
}

fn is_reply_ok(payload: &str) -> (ok: bool)
    ensures
        ok == reply_ok(payload@),
{
    match parse_value(payload) {
        Ok(v) => bool_member_is_true(&v, "ok"),
        Err(_) => false,
    }
}

/// The last step of a route is done, well or not.
pub open spec fn last_step_done(
    n: NavigationView,
    payload: Seq<char>,
    status: Option<Seq<char>>,
    default: Seq<char>,
) -> NavigationView {
    if reply_ok(payload) {
        navigation_begun("idle"@)
    } else {
        navigation_failed(
            n,
            match status {
                Some(s) => s,
                None => default,
            },
        )
    }
}

/// A goal with what the caller has computed of it, where both are there.
pub open spec fn reported_goal(goal: Option<GoalView>, facts: Option<GoalFacts>) -> Option<
    (GoalView, GoalFacts),
> {
    match (goal, facts) {
        (Some(g), Some(f)) => Some((g, f)),
        _ => None,
    }
}

/// The response that a reply gives to the request which waits for it.
pub open spec fn reply_response(b: BotView, tag: Seq<char>, payload: Seq<char>, facts: ChatFacts) -> Seq<
    char,
> {
    let route = route_in(payload);
    if carries_route(tag, response_status(payload)) && route is Err {
        json_text(invalid_route_reply(route->Err_0))
    } else if tag == "BOT_OBSERVE"@ {
        enriched_text(
            payload,
            controller_json(
                b.follow_enabled,
                b.follow_target_name,
                reported_goal(b.move_goal, facts.goal_facts),
                b.navigation,
                json_value(facts.stalled),
            ),
        )
    } else {
        payload
    }
}

/// A reply has come in that no task waits for: the request that waits for its tag
/// is answered, and a route in it is taken. A hunt goes on whoever asked for it.
#[verifier::opaque]
pub open spec fn reply_taken(b: BotView, tag: Seq<char>, payload: Seq<char>, facts: ChatFacts) -> (
    BotView,
    Option<ChatFaultView>,
) {
    if tag == "BOT_OBSERVE"@ && !enrichable_text(payload) {
        (b, Some(ChatFaultView::NoObject))
    } else if !points_known(tag, payload, facts.route) {
        (b, Some(ChatFaultView::WrongPoints))
    } else {
        let status = response_status(payload);
        let routed = carries_route(tag, status);
        let waited = listened_for(b.replies, tag);
        let answered = BotView {
            replies: resolved(b.replies, tag, reply_response(b, tag, payload, facts)),
            ..b
        };
        let moved = if routed && (waited || tag == "BOT_HUNT"@) {
            route_taken(answered, route_in(payload), status, facts.route)
        } else {
            answered
        };
        let failed = if tag == "BOT_HUNT"@ && !routed {
            Some("hunt_failed"@)
        } else if tag == "BOT_COLLECT"@ && !waited && moved.navigation.status == "moving"@ {
            Some("collect_failed"@)
        } else {
            None
        };
        (
            match failed {
                Some(error) => BotView {
                    navigation: last_step_done(moved.navigation, payload, status, error),
                    ..moved
                },
                None => moved,
            },
            None,
        )
    }
}

impl Bot {
    fn take_route(
        &mut self,
        route: Result<Option<Route>, String>,
        status: &Option<String>,
        facts: &Option<RouteFacts>,
    )
        requires
            old(self).wf(),
        ensures
            final(self).wf(),
            final(self)@ == route_taken(old(self)@, route_result(route), text_view(*status), *facts),
    {
        match route {
            Ok(Some(r)) => {
                if let Some(goal) = make_route_goal(r, facts, self.follow_speed) {
                    self.move_goal = Some(goal);
                    self.follow_enabled = false;
                    self.follow_target_id = None;
                    self.anti_stuck.reset();
                    self.navigation.begin("moving");
                }
            },
            Ok(None) => {
                let error = match status {
                    Some(s) => s.clone(),
                    None => "path_not_found".to_owned(),
                };
                self.navigation.last_error = Some(error.clone());
                if self.move_goal.is_none() && !self.follow_enabled {
                    self.navigation.fail(error.as_str());
                }
            },
            Err(e) => {
                let mut error = "invalid_path_response: ".to_owned();
                error.append(e.as_str());
                self.navigation.fail(error.as_str());
            },
        }
    }

    fn finish_step(&mut self, payload: &str, status: &Option<String>, default: &str)
        requires
            old(self).wf(),
        ensures
            final(self).wf(),
            final(self)@ == (BotView {
                navigation: last_step_done(
                    old(self)@.navigation,
                    payload@,
                    text_view(*status),
                    default@,
                ),
                ..old(self)@
            }),
    {
        if is_reply_ok(payload) {
            self.navigation.stop();
        } else {
            match status {
                Some(s) => self.navigation.fail(s.as_str()),
                None => self.navigation.fail(default),
            }
        }
    }

    fn enrich(&self, payload: &str, facts: &ChatFacts) -> (text: Option<String>)
        requires
            self.wf(),
        ensures
            match text {
                Some(t) => enrichable_text(payload@) && t@ == enriched_text(
                    payload@,
                    controller_json(
                        self@.follow_enabled,
                        self@.follow_target_name,
                        reported_goal(self@.move_goal, facts.goal_facts),
                        self@.navigation,
                        json_value(facts.stalled),
                    ),
                ),
                None => !enrichable_text(payload@),
            },
    {
        let goal = match (&self.move_goal, &facts.goal_facts) {
            (Some(g), Some(f)) => Some((g, f)),
            _ => None,
        };
        let target = match &self.follow_target_name {
            Some(name) => Some(name.as_str()),
            None => None,
        };
        assert(str_view(target) == self@.follow_target_name);
        assert(goal_pair(goal) == reported_goal(self@.move_goal, facts.goal_facts));
        try_enrich_server_observation(
            payload,
            self.follow_enabled,
            target,
            goal,
            &self.navigation,
            &facts.stalled,
        )
    }

    fn take_reply(&mut self, tag: &String, payload: &str, facts: &ChatFacts) -> (result: Result<
        (),
        ChatFault,
    >)
        requires
            old(self).wf(),
        ensures
            final(self).wf(),
            final(self)@ == reply_taken(old(self)@, tag@, payload@, *facts).0,
            fault_of(result) == reply_taken(old(self)@, tag@, payload@, *facts).1,
    {
        proof {
            reveal(reply_taken);
        }
        let mut response = payload.to_owned();
        if *tag == "BOT_OBSERVE".to_owned() {
            match self.enrich(payload, facts) {
                Some(text) => {
                    response = text;
                },
                None => return Err(ChatFault::NoObject),
            }
        }
        let status = route_response_status(payload);
        let routed = brings_route(tag, &status);
        let route = parse_route(payload);
        if routed {
            if let Ok(Some(r)) = &route {
                if !points_fit(r, &facts.route) {
                    return Err(ChatFault::WrongPoints);
                }
            }
        }
        if routed {
            if let Err(e) = &route {
                response = invalid_route_response(e.as_str());
            }
        }
        assert(response@ == reply_response(old(self)@, tag@, payload@, *facts));
        let waited = self.replies.resolve(tag.as_str(), response);
        let hunt = *tag == "BOT_HUNT".to_owned();
        if routed && (waited || hunt) {
            self.take_route(route, &status, &facts.route);
        }
        if hunt && !routed {
            self.finish_step(payload, &status, "hunt_failed");
        } else if *tag == "BOT_COLLECT".to_owned() && !waited && self.navigation.status.to_owned()
            == "moving".to_owned() {
            self.finish_step(payload, &status, "collect_failed");
        }
        Ok(())
    }
}

/// The preparation of a dig has come in.
#[verifier::opaque]
pub open spec fn mine_prepare_taken(
    b: BotView,
    payload: Seq<char>,
    facts: ChatFacts,
    now: u64,
) -> (BotView, Option<ChatFaultView>) {
    match parsed_json(payload) {
        Ok(v) => {
            let (s, turns, error) = mining_prepared(
                mining_part(b),
                v,
                b.session.state,
                facts.turn,
                facts.turned_fields,
                facts.dig_ms,
                now,
            );
            let after = with_mining(b, s);
            (
                if turns {
                    BotView {
                        session: SessionView {
                            state: turned(b.session.state, facts.turn),
                            ..after.session
                        },
                        ..after
                    }
                } else {
                    after
                },
                match error {
                    Some(e) => Some(ChatFaultView::Outbound(e)),
                    None => None,
                },
            )
        },
        Err(e) => (
            with_mining(
                b,
                mining_target_failed(mining_part(b), "invalid_prepare_response:"@ + e, now),
            ),
            None,
        ),
    }
}

/// The verification of a dig has come in.
#[verifier::opaque]
pub open spec fn mine_verify_taken(b: BotView, payload: Seq<char>, now: u64) -> BotView {
    with_mining(
        b,
        match parsed_json(payload) {
            Ok(v) => mining_verified(mining_part(b), v, now),
            Err(e) => mining_target_failed(mining_part(b), "invalid_verify_response:"@ + e, now),
        },
    )
}

/// The preparation of a transfer has come in.
#[verifier::opaque]
pub open spec fn transfer_prepare_taken(b: BotView, payload: Seq<char>, now: u64) -> (
    BotView,
    Option<ChatFaultView>,
) {
    match parsed_json(payload) {
        Ok(v) => match transfer_prepared(transfer_part(b), v, now) {
            Ok(s) => (with_transfer(b, s), None),
            Err(e) => (b, Some(ChatFaultView::Outbound(e))),
        },
        Err(e) => (
            with_transfer(b, transfer_failed(transfer_part(b), "invalid_prepare_response:"@ + e)),
            None,
        ),
    }
}

/// The receipt of a transfer has come in.
#[verifier::opaque]
pub open spec fn transfer_receipt_taken(b: BotView, payload: Seq<char>, now: u64) -> BotView {
    with_transfer(
        b,
        match parsed_json(payload) {
            Ok(v) => transfer_receipt(transfer_part(b), v, now),
            Err(e) => transfer_failed(transfer_part(b), "invalid_receipt_response:"@ + e),
        },
    )
}

/// The preparation of a craft has come in.
#[verifier::opaque]
pub open spec fn craft_prepare_taken(b: BotView, payload: Seq<char>, now: u64) -> BotView {
    with_craft(
        b,
        match parsed_json(payload) {
            Ok(v) => craft_prepared(craft_part(b), v, now),
            Err(e) => craft_failed(craft_part(b), "invalid_prepare_response:"@ + e),
        },
    )
}

/// The receipt of a craft has come in.
#[verifier::opaque]
pub open spec fn craft_receipt_taken(b: BotView, payload: Seq<char>, now: u64) -> BotView {
    with_craft(
        b,
        match parsed_json(payload) {
            Ok(v) => craft_receipt(craft_part(b), v, now),
            Err(e) => craft_failed(craft_part(b), "invalid_receipt_response:"@ + e),
        },
    )
}

/// A transfer goes on that is prepared with the given tag.
pub open spec fn awaits_prepare(b: BotView, tag: Seq<char>) -> bool {
    match b.transfer {
        Some(t) => t.operation.prepare_tag_text() == tag,
        None => false,
    }
}

/// A transfer goes on whose receipts have the given tag.
pub open spec fn awaits_receipt(b: BotView, tag: Seq<char>) -> bool {
    match b.transfer {
        Some(t) => t.operation.receipt_tag_text() == tag,
        None => false,
    }
}

/// A message of the server mod: a step of a task, or a reply to a request.
pub open spec fn protocol_taken(
    b: BotView,
    tag: Seq<char>,
    payload: Seq<char>,
    facts: ChatFacts,
    now: u64,
) -> (BotView, Option<ChatFaultView>) {
    if tag == "BOT_MINE_PREPARE"@ {
        mine_prepare_taken(b, payload, facts, now)
    } else if tag == "BOT_MINE_VERIFY"@ {
        (mine_verify_taken(b, payload, now), None)
    } else if tag == "BOT_CHEST_PREPARE"@ || tag == "BOT_FURNACE_PREPARE"@ {
        if awaits_prepare(b, tag) {
            transfer_prepare_taken(b, payload, now)
        } else {
            (b, None)
        }
    } else if tag == "BOT_CHEST_RECEIPT"@ || tag == "BOT_FURNACE_RECEIPT"@ {
        (
            if awaits_receipt(b, tag) {
                transfer_receipt_taken(b, payload, now)
            } else {
                b
            },
            None,
        )
    } else if tag == "BOT_CRAFT_PREPARE"@ {
        (craft_prepare_taken(b, payload, now), None)
    } else if tag == "BOT_CRAFT_RECEIPT"@ {
        (craft_receipt_taken(b, payload, now), None)
    } else {
        reply_taken(b, tag, payload, facts)
    }
}

impl Bot {
    fn take_mine_prepare(&mut self, payload: &str, facts: &ChatFacts, now: u64) -> (result: Result<
        (),
        ChatFault,
    >)
        requires
            old(self).wf(),
        ensures
            final(self).wf(),
            final(self)@ == mine_prepare_taken(
                old(self)@,
                payload@,
                *facts,
                now,
            ).0,
            fault_of(result) == mine_prepare_taken(
                old(self)@,
                payload@,
                *facts,
                now,
            ).1,
    {
        proof {
            reveal(mine_prepare_taken);
        }
        let sent = handle_native_mine_prepare(
            payload,
            &mut self.mining,
            &mut self.session.conn,
            &mut self.session.state,
            facts.turn,
            &facts.turned_fields,
            facts.dig_ms,
            &mut self.replies,
            &mut self.navigation,
            now,
        );
        sent_or_fault(sent)
    }

    fn take_mine_verify(&mut self, payload: &str, now: u64)
        requires
            old(self).wf(),
        ensures
            final(self).wf(),
            final(self)@ == mine_verify_taken(old(self)@, payload@, now),
    {
        proof {
            reveal(mine_verify_taken);
        }
        handle_native_mine_verify(
            payload,
            &mut self.mining,
            &mut self.session.conn,
            &mut self.replies,
            &mut self.navigation,
            now,
        );
    }

    fn take_transfer_prepare(&mut self, payload: &str, now: u64) -> (result: Result<(), ChatFault>)
        requires
            old(self).wf(),
        ensures
            final(self).wf(),
            final(self)@ == transfer_prepare_taken(old(self)@, payload@, now).0,
            fault_of(result) == transfer_prepare_taken(old(self)@, payload@, now).1,
    {
        proof {
            reveal(transfer_prepare_taken);
        }
        let sent = handle_native_inventory_prepare(
            payload,
            &mut self.transfer,
            &mut self.session.conn,
            &mut self.replies,
            now,
        );
        sent_or_fault(sent)
    }

    fn take_transfer_receipt(&mut self, payload: &str, now: u64)
        requires
            old(self).wf(),
        ensures
            final(self).wf(),
            final(self)@ == transfer_receipt_taken(old(self)@, payload@, now),
    {
        proof {
            reveal(transfer_receipt_taken);
        }
        handle_native_inventory_receipt(
            payload,
            &mut self.transfer,
            &mut self.session.conn,
            &mut self.replies,
            now,
        );
    }

    fn take_craft_prepare(&mut self, payload: &str, now: u64)
        requires
            old(self).wf(),
        ensures
            final(self).wf(),
            final(self)@ == craft_prepare_taken(old(self)@, payload@, now),
    {
        proof {
            reveal(craft_prepare_taken);
        }
        handle_native_craft_prepare(
            payload,
            &mut self.craft,
            &mut self.session.conn,
            &mut self.replies,
            now,
        );
    }

    fn take_craft_receipt(&mut self, payload: &str, now: u64)
        requires
            old(self).wf(),
        ensures
            final(self).wf(),
            final(self)@ == craft_receipt_taken(old(self)@, payload@, now),
    {
        proof {
            reveal(craft_receipt_taken);
        }
        handle_native_craft_receipt(
            payload,
            &mut self.craft,
            &mut self.session.conn,
            &mut self.replies,
            now,
        );
    }

    fn awaits_prepare_tag(&self, tag: &String) -> (yes: bool)
        ensures
            yes == awaits_prepare(self@, tag@),
    {
        match &self.transfer {
            Some(t) => t.operation.prepare_tag().to_owned() == *tag,
            None => false,
        }
    }

    fn awaits_receipt_tag(&self, tag: &String) -> (yes: bool)
        ensures
            yes == awaits_receipt(self@, tag@),
    {
        match &self.transfer {
            Some(t) => t.operation.receipt_tag().to_owned() == *tag,
            None => false,
        }
    }

    /// Takes a message of the server mod.
    pub fn take_protocol_message(
        &mut self,
        tag: &String,
        payload: &str,
        facts: &ChatFacts,
        now: u64,
    ) -> (result: Result<(), ChatFault>)
        requires
            old(self).wf(),
        ensures
            final(self).wf(),
            final(self)@ == protocol_taken(
                old(self)@,
                tag@,
                payload@,
                *facts,
                now,
            ).0,
            fault_of(result) == protocol_taken(
                old(self)@,
                tag@,
                payload@,
                *facts,
                now,
            ).1,
    {
        if *tag == "BOT_MINE_PREPARE".to_owned() {
            return self.take_mine_prepare(payload, facts, now);
        }
        if *tag == "BOT_MINE_VERIFY".to_owned() {
            self.take_mine_verify(payload, now);
            return Ok(());
        }
        if *tag == "BOT_CHEST_PREPARE".to_owned() || *tag == "BOT_FURNACE_PREPARE".to_owned() {
            if self.awaits_prepare_tag(tag) {
                return self.take_transfer_prepare(payload, now);
            }
            return Ok(());
        }
        if *tag == "BOT_CHEST_RECEIPT".to_owned() || *tag == "BOT_FURNACE_RECEIPT".to_owned() {
            if self.awaits_receipt_tag(tag) {
                self.take_transfer_receipt(payload, now);
            }
            return Ok(());
        }
        if *tag == "BOT_CRAFT_PREPARE".to_owned() {
            self.take_craft_prepare(payload, now);
            return Ok(());
        }
        if *tag == "BOT_CRAFT_RECEIPT".to_owned() {
            self.take_craft_receipt(payload, now);
            return Ok(());
        }
        self.take_reply(tag, payload, facts)
    }
}

/// The command prepares or verifies a dig.
pub open spec fn mining_command(command: Seq<char>) -> bool {
    command == "bot_prepare_mine"@ || command == "bot_verify_mine"@
}

/// The command serves a transfer.
pub open spec fn transfer_command(command: Seq<char>) -> bool {
    command == "bot_chest_prepare"@ || command == "bot_chest_receipt"@ || command
        == "bot_chest_cancel"@ || command == "bot_furnace_prepare"@ || command
        == "bot_furnace_receipt"@ || command == "bot_furnace_cancel"@
}

/// The command serves a craft.
pub open spec fn craft_command(command: Seq<char>) -> bool {
    command == "bot_craft_prepare"@ || command == "bot_craft_receipt"@ || command
        == "bot_craft_cancel"@
}

/// Without the command the bot cannot go on with what it does.
pub open spec fn navigation_needs(b: BotView, command: Seq<char>) -> bool {
    ||| (command == "bot_collect"@ || command == "bot_hunt"@) && b.navigation.status == "moving"@
        && b.move_goal is None
    ||| (command == "bot_path_node"@ || command == "bot_gather_path"@ || command
        == "bot_hunt_path"@) && b.move_goal is None && !b.follow_enabled
}

/// The server does not know a command: what needs it has failed.
#[verifier::opaque]
pub open spec fn unsupported_taken(b: BotView, command: Seq<char>, now: u64) -> BotView {
    let error = "unsupported_command:"@ + command;
    if mining_command(command) {
        with_mining(b, mining_target_failed(mining_part(b), error, now))
    } else if transfer_command(command) {
        with_transfer(b, transfer_failed(transfer_part(b), error))
    } else if craft_command(command) {
        with_craft(b, craft_failed(craft_part(b), error))
    } else if navigation_needs(b, command) {
        BotView { navigation: navigation_failed(b.navigation, error), ..b }
    } else {
        b
    }
}

/// A message that is no more than the server's confirmation.
pub open spec fn confirmation(sender: Seq<char>, message: Seq<char>) -> bool {
    sender.len() == 0 && (message == "ok"@ || begins(message, "You cannot send more messages"@))
}

/// The message is kept for those who read the chat.
pub open spec fn heard(b: BotView, ts_ms: u128, sender: Seq<char>, message: Seq<char>) -> BotView {
    if message.len() > 0 && !confirmation(sender, message) {
        BotView { chat_log: logged(b.chat_log, ts_ms, sender, message), ..b }
    } else {
        b
    }
}

/// What the bot says in chat to carry an order out, if that is all there is to do.
pub open spec fn order_line(b: BotView, order: ControlView, where_text: Seq<char>) -> Option<
    Seq<char>,
> {
    match order {
        ControlView::Teleport(target) => if b.tp_cmd.len() > 0 {
            Some(with_player_name(b.tp_cmd, target))
        } else {
            None
        },
        ControlView::Attack(target) => Some("/bot_attack "@ + normalized(target)),
        ControlView::AttackMobs(radius) => Some("/bot_attack_mobs "@ + dec(radius_or(radius, 6, 20))),
        ControlView::Sleep(radius) => Some("/bot_sleep "@ + dec(radius_or(radius, 6, 20))),
        ControlView::Approach(target) => Some("/bot_approach "@ + target),
        ControlView::Interact(target) => Some("/bot_interact "@ + target),
        ControlView::Fight(target) => Some("/bot_fight "@ + target),
        ControlView::Where => Some(where_text),
        ControlView::Follow(_) | ControlView::Stop => None,
    }
}

/// The bot carries out an order that a player gave in chat.
#[verifier::opaque]
pub open spec fn order_taken(b: BotView, order: ControlView, facts: ChatFacts, now: u64) -> (
    BotView,
    Option<ChatFaultView>,
) {
    match order {
        ControlView::Follow(target) => {
            let after = following(b, target);
            (
                if b.follow_cmd.len() > 0 {
                    said(after, with_player_name(b.follow_cmd, target))
                } else {
                    after
                },
                None,
            )
        },
        ControlView::Stop => match stopped(b, facts.fields, now) {
            Ok(after) => (after, None),
            Err(e) => (b, Some(ChatFaultView::Outbound(e))),
        },
        _ => (
            match order_line(b, order, facts.where_text@) {
                Some(line) => said(b, line),
                None => b,
            },
            None,
        ),
    }
}

/// What players and the server say, once it is no message of the server mod. Only
/// those on the list give orders.
#[verifier::opaque]
pub open spec fn speech_taken(
    b: BotView,
    sender: Seq<char>,
    message: Seq<char>,
    facts: ChatFacts,
    now: u64,
) -> (BotView, Option<ChatFaultView>) {
    match unsupported_command(sender, message) {
        Some(command) => (
            unsupported_taken(
                BotView { replies: unsupported_resolved(b.replies, sender, message), ..b },
                command,
                now,
            ),
            None,
        ),
        None => {
            let after = heard(b, facts.ts_ms, sender, message);
            if sender_allowed(b.allow_list, sender) {
                match control_command(message) {
                    Some(order) => order_taken(after, order, facts, now),
                    None => (after, None),
                }
            } else {
                (after, None)
            }
        },
    }
}

/// A chat message has come in. Says also what stops the bot, if anything does.
#[verifier::opaque]
pub open spec fn chat_taken(
    b: BotView,
    sender: Seq<char>,
    message: Seq<char>,
    facts: ChatFacts,
    now: u64,
) -> (BotView, Option<ChatFaultView>) {
    match protocol_message(message) {
        Some((tag, payload)) => protocol_taken(b, tag, payload, facts, now),
        None => {
            let (from, text) = effective_message(sender, message);
            speech_taken(b, from, text, facts, now)
        },
    }
}

/// A message after which the bot waits for the next one before it does anything
/// else: one of the server mod, or the answer to a command that is not known.
pub open spec fn turn_ends_with(sender: Seq<char>, message: Seq<char>) -> bool {
    protocol_message(message) is Some || {
        let (from, text) = effective_message(sender, message);
        unsupported_command(from, text) is Some
    }
}

/// Whether the bot waits for the next message after this one before it does anything
/// else.
pub fn ends_turn(sender: &str, message: &str) -> (yes: bool)
    ensures
        yes == turn_ends_with(sender@, message@),
{
    if bot_protocol_message(message).is_some() {
        return true;
    }
    let (from, text) = effective_chat_sender_message(sender, message);
    unsupported_bot_command(from.as_str(), text.as_str()).is_some()
}

fn is_mining_command(command: &String) -> (yes: bool)
    ensures
        yes == mining_command(command@),
{
    *command == "bot_prepare_mine".to_owned() || *command == "bot_verify_mine".to_owned()
}

fn is_transfer_command(command: &String) -> (yes: bool)
    ensures
        yes == transfer_command(command@),
{
    *command == "bot_chest_prepare".to_owned() || *command == "bot_chest_receipt".to_owned()
        || *command == "bot_chest_cancel".to_owned() || *command
        == "bot_furnace_prepare".to_owned() || *command == "bot_furnace_receipt".to_owned()
        || *command == "bot_furnace_cancel".to_owned()
}

fn is_craft_command(command: &String) -> (yes: bool)
    ensures
        yes == craft_command(command@),
{
    *command == "bot_craft_prepare".to_owned() || *command == "bot_craft_receipt".to_owned()
        || *command == "bot_craft_cancel".to_owned()
}

fn line_of(command: &str, argument: &str) -> (line: String)
    ensures
        line@ == command@ + argument@,
{
    let mut line = command.to_owned();
    line.append(argument);
    line
}

fn line_with_radius(command: &str, radius: Option<i32>) -> (line: String)
    ensures
        line@ == command@ + dec(radius_or(radius, 6, 20)),
{
    let wanted: i32 = match radius {
        Some(r) => r,
        None => 6,
    };
    let r: i32 = if wanted < 1 {
        1
    } else if wanted > 20 {
        20
    } else {
        wanted
    };
    let mut line = command.to_owned();
    push_dec(&mut line, r as i64);
    line
}

impl Bot {
    fn needs_command(&self, command: &String) -> (yes: bool)
        ensures
            yes == navigation_needs(self@, command@),
    {
        if self.move_goal.is_some() {
            return false;
        }
        if (*command == "bot_collect".to_owned() || *command == "bot_hunt".to_owned())
            && self.navigation.status.to_owned() == "moving".to_owned() {
            return true;
        }
        !self.follow_enabled && is_path_command(command)
    }

    fn take_unsupported(&mut self, command: &str, now: u64)
        requires
            old(self).wf(),
        ensures
            final(self).wf(),
            final(self)@ == unsupported_taken(old(self)@, command@, now),
    {
        proof {
            reveal(unsupported_taken);
        }
        let name = command.to_owned();
        let error = line_of("unsupported_command:", command);
        if is_mining_command(&name) {
            fail_current_native_target(
                &mut self.mining,
                error.as_str(),
                &mut self.session.conn,
                &mut self.replies,
                &mut self.navigation,
                now,
            );
        } else if is_transfer_command(&name) {
            fail_native_inventory_transfer(
                &mut self.transfer,
                &mut self.session.conn,
                error.as_str(),
                &mut self.replies,
            );
        } else if is_craft_command(&name) {
            fail_native_craft(
                &mut self.craft,
                &mut self.session.conn,
                error.as_str(),
                &mut self.replies,
            );
        } else if self.needs_command(&name) {
            self.navigation.fail(error.as_str());
        }
    }

    fn hear(&mut self, ts_ms: u128, sender: &str, message: &str)
        requires
            old(self).wf(),
        ensures
            final(self).wf(),
            final(self)@ == heard(old(self)@, ts_ms, sender@, message@),
    {
        if message.is_empty() {
            return ;
        }
        let confirmed = sender.is_empty() && (message.to_owned() == "ok".to_owned() || starts_with(
            to_chars(message).as_slice(),
            "You cannot send more messages",
        ));
        if !confirmed {
            log_chat(&mut self.chat_log, ts_ms, sender, message);
        }
    }

    fn line_for(&self, order: &ControlCommand, where_text: &str) -> (line: Option<String>)
        ensures
            text_view(line) == order_line(self@, order@, where_text@),
    {
        match order {
            ControlCommand::Teleport(target) => {
                if self.tp_cmd.as_str().is_empty() {
                    None
                } else {
                    proof {
                        reveal_strlit("{player}");
                        assert("{player}"@.len() == 8);
                    }
                    Some(replace(self.tp_cmd.as_str(), "{player}", target.as_str()))
                }
            },
            ControlCommand::Attack(target) => {
                let name = normalize_player_name(target.as_str());
                Some(line_of("/bot_attack ", name.as_str()))
            },
            ControlCommand::AttackMobs(radius) => Some(
                line_with_radius("/bot_attack_mobs ", *radius),
            ),
            ControlCommand::Sleep(radius) => Some(line_with_radius("/bot_sleep ", *radius)),
            ControlCommand::Approach(target) => Some(line_of("/bot_approach ", target.as_str())),
            ControlCommand::Interact(target) => Some(line_of("/bot_interact ", target.as_str())),
            ControlCommand::Fight(target) => Some(line_of("/bot_fight ", target.as_str())),
            ControlCommand::Where => Some(where_text.to_owned()),
            ControlCommand::Follow(_) => None,
            ControlCommand::Stop => None,
        }
    }

    fn take_order(&mut self, order: ControlCommand, facts: &ChatFacts, now: u64) -> (result: Result<
        (),
        ChatFault,
    >)
        requires
            old(self).wf(),
        ensures
            final(self).wf(),
            final(self)@ == order_taken(old(self)@, order@, *facts, now).0,
            fault_of(result) == order_taken(old(self)@, order@, *facts, now).1,
    {
        proof {
            reveal(order_taken);
        }
        match order {
            ControlCommand::Follow(target) => {
                self.follow(target.as_str());
                if !self.follow_cmd.as_str().is_empty() {
                    proof {
                        reveal_strlit("{player}");
                        assert("{player}"@.len() == 8);
                    }
                    let line = replace(self.follow_cmd.as_str(), "{player}", target.as_str());
                    self.say(line.as_str());
                }
                Ok(())
            },
            ControlCommand::Stop => {
                let sent = self.stop(&facts.fields, now);
                sent_or_fault(sent)
            },
            _ => {
                if let Some(line) = self.line_for(&order, facts.where_text.as_str()) {
                    self.say(line.as_str());
                }
                Ok(())
            },
        }
    }

    fn take_speech(&mut self, sender: &str, message: &str, facts: &ChatFacts, now: u64) -> (result:
        Result<(), ChatFault>)
        requires
            old(self).wf(),
        ensures
            final(self).wf(),
            final(self)@ == speech_taken(
                old(self)@,
                sender@,
                message@,
                *facts,
                now,
            ).0,
            fault_of(result) == speech_taken(
                old(self)@,
                sender@,
                message@,
                *facts,
                now,
            ).1,
    {
        proof {
            reveal(speech_taken);
        }
        let unsupported = resolve_unsupported_bot_command(&mut self.replies, sender, message);
        if let Some(command) = unsupported {
            self.take_unsupported(command, now);
            return Ok(());
        }
        self.hear(facts.ts_ms, sender, message);
        if is_sender_allowed(self.allow_list.as_slice(), sender) {
            if let Some(order) = parse_control_command(message) {
                return self.take_order(order, facts, now);
            }
        }
        Ok(())
    }

    /// Takes a chat message.
    pub fn take_chat(&mut self, sender: &str, message: &str, facts: &ChatFacts, now: u64) -> (result:
        Result<(), ChatFault>)
        requires
            old(self).wf(),
        ensures
            final(self).wf(),
            final(self)@ == chat_taken(
                old(self)@,
                sender@,
                message@,
                *facts,
                now,
            ).0,
            fault_of(result) == chat_taken(
                old(self)@,
                sender@,
                message@,
                *facts,
                now,
            ).1,
    {
        proof {
            reveal(chat_taken);
        }
        if let Some((tag, payload)) = bot_protocol_message(message) {
            return self.take_protocol_message(&tag, payload.as_str(), facts, now);
        }
        let (from, text) = effective_chat_sender_message(sender, message);
        self.take_speech(from.as_str(), text.as_str(), facts, now)
    }
}

fn is_path_command(command: &String) -> (yes: bool)
    ensures
        yes == (command@ == "bot_path_node"@ || command@ == "bot_gather_path"@ || command@
            == "bot_hunt_path"@),
{
    *command == "bot_path_node".to_owned() || *command == "bot_gather_path".to_owned()
        || *command == "bot_hunt_path".to_owned()
}

/// Messages of the server mod never enter the chat that players' messages are read
/// from, whether a request waits for them or not.
pub proof fn protocol_messages_stay_out_of_chat(
    b: BotView,
    sender: Seq<char>,
    message: Seq<char>,
    facts: ChatFacts,
    now: u64,
)
    requires
        protocol_message(message) is Some,
    ensures
        chat_taken(b, sender, message, facts, now).0.chat_log == b.chat_log,
{
    reveal(chat_taken);
    reveal(mine_prepare_taken);
    reveal(mine_verify_taken);
    reveal(transfer_prepare_taken);
    reveal(transfer_receipt_taken);
    reveal(craft_prepare_taken);
    reveal(craft_receipt_taken);
    reveal(reply_taken);
}

/// A sender who is not on a list that holds someone changes nothing but the chat
/// that was heard, unless the message is one of the server's own.
pub proof fn strangers_give_no_orders(
    b: BotView,
    sender: Seq<char>,
    message: Seq<char>,
    facts: ChatFacts,
    now: u64,
)
    requires
        protocol_message(message) is None,
        ({
            let (from, text) = effective_message(sender, message);
            !sender_allowed(b.allow_list, from) && unsupported_command(from, text) is None
        }),
    ensures
        ({
            let (from, text) = effective_message(sender, message);
            chat_taken(b, sender, message, facts, now) == (
                heard(b, facts.ts_ms, from, text),
                None::<ChatFaultView>,
            )
        }),
{
    reveal(chat_taken);
    reveal(speech_taken);
}

proof fn tags_are_told_apart()
    ensures
        "BOT_MINE_PREPARE"@ != "BOT_MINE_VERIFY"@,
        "BOT_MINE_PREPARE"@ != "BOT_CHEST_PREPARE"@,
        "BOT_MINE_PREPARE"@ != "BOT_FURNACE_PREPARE"@,
        "BOT_MINE_PREPARE"@ != "BOT_CHEST_RECEIPT"@,
        "BOT_MINE_PREPARE"@ != "BOT_FURNACE_RECEIPT"@,
        "BOT_MINE_PREPARE"@ != "BOT_CRAFT_PREPARE"@,
        "BOT_MINE_PREPARE"@ != "BOT_CRAFT_RECEIPT"@,
        "BOT_MINE_PREPARE"@ != "BOT_OBSERVE"@,
        "BOT_MINE_PREPARE"@ != "BOT_HUNT"@,
        "BOT_MINE_PREPARE"@ != "BOT_COLLECT"@,
        "BOT_MINE_PREPARE"@ != "BOT_PATH_NODE"@,
        "BOT_MINE_PREPARE"@ != "BOT_GATHER_PATH"@,
        "BOT_MINE_PREPARE"@ != "BOT_HUNT_PATH"@,
        "BOT_MINE_VERIFY"@ != "BOT_CHEST_PREPARE"@,
        "BOT_MINE_VERIFY"@ != "BOT_FURNACE_PREPARE"@,
        "BOT_MINE_VERIFY"@ != "BOT_CHEST_RECEIPT"@,
        "BOT_MINE_VERIFY"@ != "BOT_FURNACE_RECEIPT"@,
        "BOT_MINE_VERIFY"@ != "BOT_CRAFT_PREPARE"@,
        "BOT_MINE_VERIFY"@ != "BOT_CRAFT_RECEIPT"@,
        "BOT_MINE_VERIFY"@ != "BOT_OBSERVE"@,
        "BOT_MINE_VERIFY"@ != "BOT_HUNT"@,
        "BOT_MINE_VERIFY"@ != "BOT_COLLECT"@,
        "BOT_MINE_VERIFY"@ != "BOT_PATH_NODE"@,
        "BOT_MINE_VERIFY"@ != "BOT_GATHER_PATH"@,
        "BOT_MINE_VERIFY"@ != "BOT_HUNT_PATH"@,
        "BOT_CHEST_PREPARE"@ != "BOT_FURNACE_PREPARE"@,
        "BOT_CHEST_PREPARE"@ != "BOT_CHEST_RECEIPT"@,
        "BOT_CHEST_PREPARE"@ != "BOT_FURNACE_RECEIPT"@,
        "BOT_CHEST_PREPARE"@ != "BOT_CRAFT_PREPARE"@,
        "BOT_CHEST_PREPARE"@ != "BOT_CRAFT_RECEIPT"@,
        "BOT_CHEST_PREPARE"@ != "BOT_OBSERVE"@,
        "BOT_CHEST_PREPARE"@ != "BOT_HUNT"@,
        "BOT_CHEST_PREPARE"@ != "BOT_COLLECT"@,
        "BOT_CHEST_PREPARE"@ != "BOT_PATH_NODE"@,
        "BOT_CHEST_PREPARE"@ != "BOT_GATHER_PATH"@,
        "BOT_CHEST_PREPARE"@ != "BOT_HUNT_PATH"@,
        "BOT_FURNACE_PREPARE"@ != "BOT_CHEST_RECEIPT"@,
        "BOT_FURNACE_PREPARE"@ != "BOT_FURNACE_RECEIPT"@,
        "BOT_FURNACE_PREPARE"@ != "BOT_CRAFT_PREPARE"@,
        "BOT_FURNACE_PREPARE"@ != "BOT_CRAFT_RECEIPT"@,
        "BOT_FURNACE_PREPARE"@ != "BOT_OBSERVE"@,
        "BOT_FURNACE_PREPARE"@ != "BOT_HUNT"@,
        "BOT_FURNACE_PREPARE"@ != "BOT_COLLECT"@,
        "BOT_FURNACE_PREPARE"@ != "BOT_PATH_NODE"@,
        "BOT_FURNACE_PREPARE"@ != "BOT_GATHER_PATH"@,
        "BOT_FURNACE_PREPARE"@ != "BOT_HUNT_PATH"@,
        "BOT_CHEST_RECEIPT"@ != "BOT_FURNACE_RECEIPT"@,
        "BOT_CHEST_RECEIPT"@ != "BOT_CRAFT_PREPARE"@,
        "BOT_CHEST_RECEIPT"@ != "BOT_CRAFT_RECEIPT"@,
        "BOT_CHEST_RECEIPT"@ != "BOT_OBSERVE"@,
        "BOT_CHEST_RECEIPT"@ != "BOT_HUNT"@,
        "BOT_CHEST_RECEIPT"@ != "BOT_COLLECT"@,
        "BOT_CHEST_RECEIPT"@ != "BOT_PATH_NODE"@,
        "BOT_CHEST_RECEIPT"@ != "BOT_GATHER_PATH"@,
        "BOT_CHEST_RECEIPT"@ != "BOT_HUNT_PATH"@,
        "BOT_FURNACE_RECEIPT"@ != "BOT_CRAFT_PREPARE"@,
        "BOT_FURNACE_RECEIPT"@ != "BOT_CRAFT_RECEIPT"@,
        "BOT_FURNACE_RECEIPT"@ != "BOT_OBSERVE"@,
        "BOT_FURNACE_RECEIPT"@ != "BOT_HUNT"@,
        "BOT_FURNACE_RECEIPT"@ != "BOT_COLLECT"@,
        "BOT_FURNACE_RECEIPT"@ != "BOT_PATH_NODE"@,
        "BOT_FURNACE_RECEIPT"@ != "BOT_GATHER_PATH"@,
        "BOT_FURNACE_RECEIPT"@ != "BOT_HUNT_PATH"@,
        "BOT_CRAFT_PREPARE"@ != "BOT_CRAFT_RECEIPT"@,
        "BOT_CRAFT_PREPARE"@ != "BOT_OBSERVE"@,
        "BOT_CRAFT_PREPARE"@ != "BOT_HUNT"@,
        "BOT_CRAFT_PREPARE"@ != "BOT_COLLECT"@,
        "BOT_CRAFT_PREPARE"@ != "BOT_PATH_NODE"@,
        "BOT_CRAFT_PREPARE"@ != "BOT_GATHER_PATH"@,
        "BOT_CRAFT_PREPARE"@ != "BOT_HUNT_PATH"@,
        "BOT_CRAFT_RECEIPT"@ != "BOT_OBSERVE"@,
        "BOT_CRAFT_RECEIPT"@ != "BOT_HUNT"@,
        "BOT_CRAFT_RECEIPT"@ != "BOT_COLLECT"@,
        "BOT_CRAFT_RECEIPT"@ != "BOT_PATH_NODE"@,
        "BOT_CRAFT_RECEIPT"@ != "BOT_GATHER_PATH"@,
        "BOT_CRAFT_RECEIPT"@ != "BOT_HUNT_PATH"@,
{
    reveal_strlit("BOT_MINE_PREPARE");
    reveal_strlit("BOT_MINE_VERIFY");
    reveal_strlit("BOT_CHEST_PREPARE");
    reveal_strlit("BOT_FURNACE_PREPARE");
    reveal_strlit("BOT_CHEST_RECEIPT");
    reveal_strlit("BOT_FURNACE_RECEIPT");
    reveal_strlit("BOT_CRAFT_PREPARE");
    reveal_strlit("BOT_CRAFT_RECEIPT");
    reveal_strlit("BOT_OBSERVE");
    reveal_strlit("BOT_HUNT");
    reveal_strlit("BOT_COLLECT");
    reveal_strlit("BOT_PATH_NODE");
    reveal_strlit("BOT_GATHER_PATH");
    reveal_strlit("BOT_HUNT_PATH");
    assert("BOT_MINE_PREPARE"@.len() == 16 && "BOT_MINE_PREPARE"@[4] == 'M');
    assert("BOT_MINE_PREPARE"@[5] == 'I' && "BOT_MINE_PREPARE"@[15] == 'E');
    assert("BOT_MINE_VERIFY"@.len() == 15 && "BOT_MINE_VERIFY"@[4] == 'M');
    assert("BOT_MINE_VERIFY"@[5] == 'I' && "BOT_MINE_VERIFY"@[14] == 'Y');
    assert("BOT_CHEST_PREPARE"@.len() == 17 && "BOT_CHEST_PREPARE"@[4] == 'C');
    assert("BOT_CHEST_PREPARE"@[5] == 'H' && "BOT_CHEST_PREPARE"@[16] == 'E');
    assert("BOT_FURNACE_PREPARE"@.len() == 19 && "BOT_FURNACE_PREPARE"@[4] == 'F');
    assert("BOT_FURNACE_PREPARE"@[5] == 'U' && "BOT_FURNACE_PREPARE"@[18] == 'E');
    assert("BOT_CHEST_RECEIPT"@.len() == 17 && "BOT_CHEST_RECEIPT"@[4] == 'C');
    assert("BOT_CHEST_RECEIPT"@[5] == 'H' && "BOT_CHEST_RECEIPT"@[16] == 'T');
    assert("BOT_FURNACE_RECEIPT"@.len() == 19 && "BOT_FURNACE_RECEIPT"@[4] == 'F');
    assert("BOT_FURNACE_RECEIPT"@[5] == 'U' && "BOT_FURNACE_RECEIPT"@[18] == 'T');
    assert("BOT_CRAFT_PREPARE"@.len() == 17 && "BOT_CRAFT_PREPARE"@[4] == 'C');
    assert("BOT_CRAFT_PREPARE"@[5] == 'R' && "BOT_CRAFT_PREPARE"@[16] == 'E');
    assert("BOT_CRAFT_RECEIPT"@.len() == 17 && "BOT_CRAFT_RECEIPT"@[4] == 'C');
    assert("BOT_CRAFT_RECEIPT"@[5] == 'R' && "BOT_CRAFT_RECEIPT"@[16] == 'T');
    assert("BOT_OBSERVE"@.len() == 11 && "BOT_OBSERVE"@[4] == 'O' && "BOT_OBSERVE"@[5] == 'B');
    assert("BOT_OBSERVE"@[10] == 'E');
    assert("BOT_HUNT"@.len() == 8 && "BOT_HUNT"@[4] == 'H' && "BOT_HUNT"@[5] == 'U');
    assert("BOT_HUNT"@[7] == 'T');
    assert("BOT_COLLECT"@.len() == 11 && "BOT_COLLECT"@[4] == 'C' && "BOT_COLLECT"@[5] == 'O');
    assert("BOT_COLLECT"@[10] == 'T');
    assert("BOT_PATH_NODE"@.len() == 13 && "BOT_PATH_NODE"@[4] == 'P');
    assert("BOT_PATH_NODE"@[5] == 'A' && "BOT_PATH_NODE"@[12] == 'E');
    assert("BOT_GATHER_PATH"@.len() == 15 && "BOT_GATHER_PATH"@[4] == 'G');
    assert("BOT_GATHER_PATH"@[5] == 'A' && "BOT_GATHER_PATH"@[14] == 'H');
    assert("BOT_HUNT_PATH"@.len() == 13 && "BOT_HUNT_PATH"@[4] == 'H');
    assert("BOT_HUNT_PATH"@[5] == 'U' && "BOT_HUNT_PATH"@[12] == 'H');
    assert("BOT_CHEST_PREPARE"@[10] == 'P' && "BOT_CHEST_RECEIPT"@[10] == 'R');
    assert("BOT_CRAFT_PREPARE"@[10] == 'P' && "BOT_CRAFT_RECEIPT"@[10] == 'R');
    assert("BOT_FURNACE_PREPARE"@[12] == 'P' && "BOT_FURNACE_RECEIPT"@[12] == 'R');
}

/// Each step that the server mod reports reaches the task that it is for, and no other: the
/// verification of a dig the mining, the preparation and the receipt of a craft the
/// craft, those of a transfer the transfer, whose container they must name.
pub proof fn steps_reach_their_task(
    b: BotView,
    payload: Seq<char>,
    v: JsonValue,
    facts: ChatFacts,
    now: u64,
)
    requires
        parsed_json(payload) == Ok::<JsonValue, Seq<char>>(v),
    ensures
        ({
            let (after, fault) = protocol_taken(b, "BOT_MINE_VERIFY"@, payload, facts, now);
            let s = mining_verified(mining_part(b), v, now);
            &&& fault is None
            &&& after.mining == s.task && after.session.conn == s.conn
            &&& after.replies == s.replies && after.navigation == s.navigation
            &&& after.transfer == b.transfer && after.craft == b.craft
            &&& after.move_goal == b.move_goal && after.chat_log == b.chat_log
        }),
        ({
            let (after, fault) = protocol_taken(b, "BOT_CRAFT_PREPARE"@, payload, facts, now);
            let s = craft_prepared(craft_part(b), v, now);
            &&& fault is None
            &&& after.craft == s.task && after.session.conn == s.conn && after.replies == s.replies
            &&& after.mining == b.mining && after.transfer == b.transfer
            &&& after.navigation == b.navigation
        }),
        ({
            let (after, fault) = protocol_taken(b, "BOT_CRAFT_RECEIPT"@, payload, facts, now);
            let s = craft_receipt(craft_part(b), v, now);
            &&& fault is None
            &&& after.craft == s.task && after.session.conn == s.conn && after.replies == s.replies
            &&& after.mining == b.mining && after.transfer == b.transfer
            &&& after.navigation == b.navigation
        }),
        ({
            let (after, fault) = protocol_taken(b, "BOT_MINE_PREPARE"@, payload, facts, now);
            let (s, turns, error) = mining_prepared(
                mining_part(b),
                v,
                b.session.state,
                facts.turn,
                facts.turned_fields,
                facts.dig_ms,
                now,
            );
            &&& fault == match error {
                Some(e) => Some(ChatFaultView::Outbound(e)),
                None => None,
            }
            &&& after.mining == s.task && after.session.conn == s.conn
            &&& after.replies == s.replies && after.navigation == s.navigation
            &&& after.transfer == b.transfer && after.craft == b.craft
            &&& after.session.state == if turns {
                turned(b.session.state, facts.turn)
            } else {
                b.session.state
            }
        }),
{
    tags_are_told_apart();
    reveal(mine_prepare_taken);
    reveal(mine_verify_taken);
    reveal(craft_prepare_taken);
    reveal(craft_receipt_taken);
}

/// The steps of a transfer reach it exactly where it is one to or from the kind of container
/// that the step names.
pub proof fn transfer_steps_name_their_container(
    b: BotView,
    chest: bool,
    payload: Seq<char>,
    v: JsonValue,
    facts: ChatFacts,
    now: u64,
)
    requires
        parsed_json(payload) == Ok::<JsonValue, Seq<char>>(v),
    ensures
        ({
            let awaited = b.transfer is Some && chest == (b.transfer->0.operation is ChestDeposit
                || b.transfer->0.operation is ChestWithdraw);
            let tag = if chest {
                "BOT_CHEST_PREPARE"@
            } else {
                "BOT_FURNACE_PREPARE"@
            };
            let (after, fault) = protocol_taken(b, tag, payload, facts, now);
            if awaited {
                match transfer_prepared(transfer_part(b), v, now) {
                    Ok(s) => fault is None && after.transfer == s.task && after.session.conn
                        == s.conn && after.replies == s.replies && after.mining == b.mining
                        && after.craft == b.craft,
                    Err(e) => after == b && fault == Some(ChatFaultView::Outbound(e)),
                }
            } else {
                after == b && fault is None
            }
        }),
        ({
            let awaited = b.transfer is Some && chest == (b.transfer->0.operation is ChestDeposit
                || b.transfer->0.operation is ChestWithdraw);
            let tag = if chest {
                "BOT_CHEST_RECEIPT"@
            } else {
                "BOT_FURNACE_RECEIPT"@
            };
            let (after, fault) = protocol_taken(b, tag, payload, facts, now);
            let s = transfer_receipt(transfer_part(b), v, now);
            &&& fault is None
            &&& awaited ==> after.transfer == s.task && after.session.conn == s.conn
                && after.replies == s.replies && after.mining == b.mining && after.craft == b.craft
            &&& !awaited ==> after == b
        }),
{
    tags_are_told_apart();
    reveal(transfer_prepare_taken);
    reveal(transfer_receipt_taken);
}

/// A step that is no JSON fails its task, with the reason.
pub proof fn garbled_steps_fail_their_task(
    b: BotView,
    payload: Seq<char>,
    e: Seq<char>,
    facts: ChatFacts,
    now: u64,
)
    requires
        parsed_json(payload) == Err::<JsonValue, Seq<char>>(e),
    ensures
        mining_part(protocol_taken(b, "BOT_MINE_PREPARE"@, payload, facts, now).0)
            == mining_target_failed(mining_part(b), "invalid_prepare_response:"@ + e, now),
        mining_part(protocol_taken(b, "BOT_MINE_VERIFY"@, payload, facts, now).0)
            == mining_target_failed(mining_part(b), "invalid_verify_response:"@ + e, now),
        craft_part(protocol_taken(b, "BOT_CRAFT_PREPARE"@, payload, facts, now).0) == craft_failed(
            craft_part(b),
            "invalid_prepare_response:"@ + e,
        ),
        craft_part(protocol_taken(b, "BOT_CRAFT_RECEIPT"@, payload, facts, now).0) == craft_failed(
            craft_part(b),
            "invalid_receipt_response:"@ + e,
        ),
{
    tags_are_told_apart();
    reveal(mine_prepare_taken);
    reveal(mine_verify_taken);
    reveal(craft_prepare_taken);
    reveal(craft_receipt_taken);
}

/// A reply that is neither a step of a task, nor an observation, nor a route answers the request
/// that waits for its tag with exactly what it says, and sends nothing.
pub proof fn plain_replies_are_passed_on(
    b: BotView,
    tag: Seq<char>,
    payload: Seq<char>,
    facts: ChatFacts,
    now: u64,
)
    requires
        tag != "BOT_MINE_PREPARE"@ && tag != "BOT_MINE_VERIFY"@,
        tag != "BOT_CHEST_PREPARE"@ && tag != "BOT_FURNACE_PREPARE"@,
        tag != "BOT_CHEST_RECEIPT"@ && tag != "BOT_FURNACE_RECEIPT"@,
        tag != "BOT_CRAFT_PREPARE"@ && tag != "BOT_CRAFT_RECEIPT"@,
        tag != "BOT_OBSERVE"@ && tag != "BOT_HUNT"@ && tag != "BOT_COLLECT"@,
        tag != "BOT_PATH_NODE"@ && tag != "BOT_GATHER_PATH"@ && tag != "BOT_HUNT_PATH"@,
    ensures
        protocol_taken(b, tag, payload, facts, now) == (
            BotView { replies: resolved(b.replies, tag, payload), ..b },
            None::<ChatFaultView>,
        ),
{
    reveal(reply_taken);
}

/// A route that somebody waits for is taken: the bot heads for its last point along the points
/// that were handed in, follows nobody any more, and forgets that it was stuck. A reply
/// without a route is remembered as an error, and is a failure only where the bot has
/// nowhere else to go.
pub proof fn awaited_routes_are_taken(
    b: BotView,
    tag: Seq<char>,
    payload: Seq<char>,
    facts: ChatFacts,
)
    requires
        tag == "BOT_PATH_NODE"@ || tag == "BOT_GATHER_PATH"@ || tag == "BOT_HUNT_PATH"@,
        listened_for(b.replies, tag),
        points_known(tag, payload, facts.route),
    ensures
        ({
            let (after, fault) = reply_taken(b, tag, payload, facts);
            let status = response_status(payload);
            &&& fault is None
            &&& after.session == b.session
            &&& after.mining == b.mining && after.transfer == b.transfer && after.craft == b.craft
            &&& match route_in(payload) {
                Ok(Some(route)) => {
                    &&& after.replies == resolved(b.replies, tag, payload)
                    &&& after.move_goal is Some
                    &&& after.move_goal->0.target == facts.route->0.points@.last()
                    &&& after.move_goal->0.waypoints == route_waypoints(
                        facts.route->0.points@,
                        rows(facts.route->0.near@),
                        facts.route->0.reached@,
                    )
                    &&& after.move_goal->0.arrival_action == route.arrival_action
                    &&& after.move_goal->0.speed == if 0 < b.follow_speed < 0x7f80_0000 {
                        b.follow_speed
                    } else {
                        0x4080_0000
                    }
                    &&& after.move_goal->0.stop_dist == 0x4000_0000
                    &&& !after.follow_enabled
                    &&& after.follow_target_id is None
                    &&& after.navigation.status == "moving"@
                    &&& after.navigation.last_error is None
                    &&& after.anti_stuck == fresh()
                },
                Ok(None) => {
                    &&& after.replies == resolved(b.replies, tag, payload)
                    &&& after.move_goal == b.move_goal
                    &&& after.follow_enabled == b.follow_enabled
                    &&& after.navigation.last_error == Some(
                        if status is Some {
                            status->0
                        } else {
                            "path_not_found"@
                        },
                    )
                    &&& after.navigation.status == if b.move_goal is None && !b.follow_enabled {
                        "failed"@
                    } else {
                        b.navigation.status
                    }
                },
                Err(e) => {
                    &&& after.move_goal == b.move_goal
                    &&& after.navigation.status == "failed"@
                    &&& after.navigation.last_error == Some("invalid_path_response: "@ + e)
                },
            }
        }),
{
    reveal(reply_taken);
    tags_are_told_apart();
    route_tags_are_told_apart();
}

proof fn route_tags_are_told_apart()
    ensures
        "BOT_PATH_NODE"@ != "BOT_OBSERVE"@,
        "BOT_PATH_NODE"@ != "BOT_HUNT"@,
        "BOT_PATH_NODE"@ != "BOT_COLLECT"@,
        "BOT_GATHER_PATH"@ != "BOT_OBSERVE"@,
        "BOT_GATHER_PATH"@ != "BOT_HUNT"@,
        "BOT_GATHER_PATH"@ != "BOT_COLLECT"@,
        "BOT_HUNT_PATH"@ != "BOT_OBSERVE"@,
        "BOT_HUNT_PATH"@ != "BOT_HUNT"@,
        "BOT_HUNT_PATH"@ != "BOT_COLLECT"@,
{
    reveal_strlit("BOT_OBSERVE");
    reveal_strlit("BOT_HUNT");
    reveal_strlit("BOT_COLLECT");
    reveal_strlit("BOT_PATH_NODE");
    reveal_strlit("BOT_GATHER_PATH");
    reveal_strlit("BOT_HUNT_PATH");
    assert("BOT_OBSERVE"@.len() == 11 && "BOT_HUNT"@.len() == 8 && "BOT_COLLECT"@.len() == 11);
    assert("BOT_PATH_NODE"@.len() == 13 && "BOT_GATHER_PATH"@.len() == 15
        && "BOT_HUNT_PATH"@.len() == 13);
}

/// What the bot says for each order of a player, and nothing else changes.
pub proof fn orders_are_said(b: BotView, order: ControlView, facts: ChatFacts, now: u64)
    ensures
        ({
            let (after, fault) = order_taken(b, order, facts, now);
            let line = match order {
                ControlView::Attack(target) => Some("/bot_attack "@ + normalized(target)),
                ControlView::AttackMobs(radius) => Some(
                    "/bot_attack_mobs "@ + dec(radius_or(radius, 6, 20)),
                ),
                ControlView::Sleep(radius) => Some("/bot_sleep "@ + dec(radius_or(radius, 6, 20))),
                ControlView::Approach(target) => Some("/bot_approach "@ + target),
                ControlView::Interact(target) => Some("/bot_interact "@ + target),
                ControlView::Fight(target) => Some("/bot_fight "@ + target),
                ControlView::Where => Some(facts.where_text@),
                ControlView::Teleport(target) => if b.tp_cmd.len() > 0 {
                    Some(replaced(b.tp_cmd, "{player}"@, target))
                } else {
                    None
                },
                _ => None,
            };
            &&& !(order is Follow) && !(order is Stop) ==> {
                &&& fault is None
                &&& after.session.conn == match line {
                    Some(text) => chat_sent(b.session.conn, text),
                    None => b.session.conn,
                }
                &&& after.mining == b.mining && after.transfer == b.transfer && after.craft
                    == b.craft
                &&& after.move_goal == b.move_goal && after.follow_enabled == b.follow_enabled
                &&& after.replies == b.replies && after.navigation == b.navigation
            }
            &&& match order {
                ControlView::Follow(target) => {
                    &&& fault is None
                    &&& after.follow_enabled
                    &&& after.follow_target_name == Some(normalized(target))
                    &&& after.move_goal == b.move_goal
                    &&& after.session.conn == if b.follow_cmd.len() > 0 {
                        chat_sent(
                            b.session.conn,
                            replaced(b.follow_cmd, "{player}"@, target),
                        )
                    } else {
                        b.session.conn
                    }
                },
                ControlView::Stop => match stopped(b, facts.fields, now) {
                    Ok(s) => after == s && fault is None,
                    Err(e) => after == b && fault == Some(ChatFaultView::Outbound(e)),
                },
                _ => true,
            }
        }),
{
    reveal(order_taken);
}

/// A command that the server does not know fails the task that needs it, and leaves the others.
pub proof fn unknown_commands_fail_what_needs_them(b: BotView, command: Seq<char>, now: u64)
    ensures
        ({
            let after = unsupported_taken(b, command, now);
            let error = "unsupported_command:"@ + command;
            let digs = command == "bot_prepare_mine"@ || command == "bot_verify_mine"@;
            let crafts = command == "bot_craft_prepare"@ || command == "bot_craft_receipt"@
                || command == "bot_craft_cancel"@;
            let moves = command == "bot_chest_prepare"@ || command == "bot_chest_receipt"@
                || command == "bot_chest_cancel"@ || command == "bot_furnace_prepare"@ || command
                == "bot_furnace_receipt"@ || command == "bot_furnace_cancel"@;
            &&& digs ==> mining_part(after) == mining_target_failed(mining_part(b), error, now)
                && after.transfer == b.transfer && after.craft == b.craft
            &&& moves && !digs ==> transfer_part(after) == transfer_failed(transfer_part(b), error)
                && after.mining == b.mining && after.craft == b.craft
            &&& crafts && !digs && !moves ==> craft_part(after) == craft_failed(
                craft_part(b),
                error,
            ) && after.mining == b.mining && after.transfer == b.transfer
            &&& !digs && !moves && !crafts ==> {
                &&& after.mining == b.mining && after.transfer == b.transfer && after.craft
                    == b.craft
                &&& after.session == b.session && after.replies == b.replies
                &&& after.navigation == b.navigation || (after.navigation.status == "failed"@
                    && after.navigation.last_error == Some(error))
            }
        }),
{
    reveal(unsupported_taken);
}

/// What is said is heard by those who read the chat, unless it is empty or no more than the
/// server's confirmation of something the bot said.
pub proof fn speech_is_heard(b: BotView, ts_ms: u128, sender: Seq<char>, message: Seq<char>)
    ensures
        ({
            let after = heard(b, ts_ms, sender, message);
            let confirms = sender.len() == 0 && (message == "ok"@ || begins(
                message,
                "You cannot send more messages"@,
            ));
            &&& after.chat_log == if message.len() == 0 || confirms {
                b.chat_log
            } else {
                logged(b.chat_log, ts_ms, sender, message)
            }
            &&& after.session == b.session && after.replies == b.replies
        }),
{
}

/// An observation of the server is passed on with what the bot does; one that is JSON but no object
/// is a fault and changes nothing.
pub proof fn observations_are_passed_on(
    b: BotView,
    payload: Seq<char>,
    facts: ChatFacts,
    now: u64,
)
    ensures
        ({
            let (after, fault) = protocol_taken(b, "BOT_OBSERVE"@, payload, facts, now);
            if enrichable_text(payload) {
                &&& fault is None
                &&& after == (BotView {
                    replies: resolved(
                        b.replies,
                        "BOT_OBSERVE"@,
                        enriched_text(
                            payload,
                            controller_json(
                                b.follow_enabled,
                                b.follow_target_name,
                                match (b.move_goal, facts.goal_facts) {
                                    (Some(g), Some(f)) => Some((g, f)),
                                    _ => None,
                                },
                                b.navigation,
                                json_value(facts.stalled),
                            ),
                        ),
                    ),
                    ..b
                })
            } else {
                after == b && fault == Some(ChatFaultView::NoObject)
            }
        }),
{
    reveal(reply_taken);
    tags_are_told_apart();
    reveal_strlit("BOT_OBSERVE");
    reveal_strlit("BOT_HUNT");
    reveal_strlit("BOT_COLLECT");
    reveal_strlit("BOT_PATH_NODE");
    reveal_strlit("BOT_GATHER_PATH");
    reveal_strlit("BOT_HUNT_PATH");
    assert("BOT_OBSERVE"@.len() == 11 && "BOT_HUNT"@.len() == 8 && "BOT_COLLECT"@.len() == 11);
    assert("BOT_PATH_NODE"@.len() == 13 && "BOT_GATHER_PATH"@.len() == 15
        && "BOT_HUNT_PATH"@.len() == 13);
    assert("BOT_OBSERVE"@[4] == 'O' && "BOT_COLLECT"@[4] == 'C');
}

/// The last step of a hunt ends the journey: well where its reply is `ok`, and otherwise as failed
/// with the reply's status. A hunt that needs a new route goes on with it instead.
pub proof fn hunts_end_with_their_reply(
    b: BotView,
    payload: Seq<char>,
    facts: ChatFacts,
    now: u64,
)
    requires
        response_status(payload) != Some("repath_required"@),
    ensures
        ({
            let (after, fault) = protocol_taken(b, "BOT_HUNT"@, payload, facts, now);
            let status = response_status(payload);
            &&& fault is None
            &&& after.replies == resolved(b.replies, "BOT_HUNT"@, payload)
            &&& after.move_goal == b.move_goal && after.session == b.session
            &&& reply_ok(payload) ==> after.navigation.status == "idle"@
                && after.navigation.last_error is None
            &&& !reply_ok(payload) ==> after.navigation.status == "failed"@
                && after.navigation.last_error == Some(
                if status is Some {
                    status->0
                } else {
                    "hunt_failed"@
                },
            )
        }),
{
    reveal(reply_taken);
    tags_are_told_apart();
    reveal_strlit("BOT_OBSERVE");
    reveal_strlit("BOT_HUNT");
    reveal_strlit("BOT_PATH_NODE");
    reveal_strlit("BOT_GATHER_PATH");
    reveal_strlit("BOT_HUNT_PATH");
    assert("BOT_OBSERVE"@.len() == 11 && "BOT_HUNT"@.len() == 8);
    assert("BOT_PATH_NODE"@.len() == 13 && "BOT_GATHER_PATH"@.len() == 15
        && "BOT_HUNT_PATH"@.len() == 13);
}

/// A reply says that its action succeeded only where it is JSON whose member `ok` is true.
pub proof fn success_has_to_be_said(payload: Seq<char>, v: JsonValue, e: Seq<char>)
    ensures
        parsed_json(payload) == Ok::<JsonValue, Seq<char>>(v) ==> (reply_ok(payload)
            <==> bool_member(v, "ok"@) == Some(true)),
        parsed_json(payload) == Err::<JsonValue, Seq<char>>(e) ==> !reply_ok(payload),
{
}

/// A message ends the turn where it is one of the server mod, or says that a command is not known.
pub proof fn server_messages_end_the_turn(
    b: BotView,
    sender: Seq<char>,
    message: Seq<char>,
    facts: ChatFacts,
    now: u64,
)
    ensures
        protocol_message(message) is Some ==> turn_ends_with(sender, message),
        protocol_message(message) is None ==> (turn_ends_with(sender, message)
            <==> unsupported_command(
            effective_message(sender, message).0,
            effective_message(sender, message).1,
        ) is Some),
        protocol_message(message) is Some ==> chat_taken(b, sender, message, facts, now)
            == protocol_taken(
            b,
            message_tag(message),
            message_payload(message),
            facts,
            now,
        ),
        protocol_message(message) is None ==> chat_taken(b, sender, message, facts, now)
            == speech_taken(
            b,
            effective_message(sender, message).0,
            effective_message(sender, message).1,
            facts,
            now,
        ),
{
    reveal(chat_taken);
}

/// Those on the list are obeyed, after what they say was heard.
pub proof fn listed_players_are_obeyed(
    b: BotView,
    sender: Seq<char>,
    message: Seq<char>,
    order: ControlView,
    facts: ChatFacts,
    now: u64,
)
    requires
        unsupported_command(sender, message) is None,
        sender_allowed(b.allow_list, sender),
        control_command(message) == Some(order),
    ensures
        speech_taken(b, sender, message, facts, now) == order_taken(
            heard(b, facts.ts_ms, sender, message),
            order,
            facts,
            now,
        ),
{
    reveal(speech_taken);
}

/// The tag of a message of the server mod.
pub open spec fn message_tag(message: Seq<char>) -> Seq<char> {
    match protocol_message(message) {
        Some((tag, _)) => tag,
        None => seq![],
    }
}

/// The payload of a message of the server mod.
pub open spec fn message_payload(message: Seq<char>) -> Seq<char> {
    match protocol_message(message) {
        Some((_, payload)) => payload,
        None => seq![],
    }
}

/// A reply brings a route where it answers a request for one, or where a hunt needs a new one.
pub proof fn routes_come_with_their_replies(status: Option<Seq<char>>)
    ensures
        carries_route("BOT_PATH_NODE"@, status),
        carries_route("BOT_GATHER_PATH"@, status),
        carries_route("BOT_HUNT_PATH"@, status),
        carries_route("BOT_HUNT"@, status) <==> status == Some("repath_required"@),
        !carries_route("BOT_COLLECT"@, status),
        !carries_route("BOT_OBSERVE"@, status),
{
    route_tags_are_told_apart();
    reveal_strlit("BOT_OBSERVE");
    reveal_strlit("BOT_HUNT");
    reveal_strlit("BOT_COLLECT");
    assert("BOT_OBSERVE"@.len() == 11 && "BOT_HUNT"@.len() == 8 && "BOT_COLLECT"@.len() == 11);
}

/// A route whose points were not handed in, or not all of them, is a fault and changes nothing.
pub proof fn points_have_to_be_handed_in(
    b: BotView,
    tag: Seq<char>,
    payload: Seq<char>,
    facts: ChatFacts,
    route: RouteView,
)
    requires
        tag == "BOT_PATH_NODE"@ || tag == "BOT_GATHER_PATH"@ || tag == "BOT_HUNT_PATH"@,
        route_in(payload) == Ok::<Option<RouteView>, Seq<char>>(Some(route)),
        facts.route is None || facts.route->0.points@.len() != route.path.len() + 1,
    ensures
        reply_taken(b, tag, payload, facts) == (b, Some(ChatFaultView::WrongPoints)),
{
    reveal(reply_taken);
    route_tags_are_told_apart();
}

/// The caller computes the points of exactly those routes that a reply brings and that can be
/// understood.
pub proof fn brought_routes_are_found(message: Seq<char>)
    ensures
        match message_route(message) {
            Some(route) => {
                &&& protocol_message(message) is Some
                &&& carries_route(
                    message_tag(message),
                    response_status(message_payload(message)),
                )
                &&& route_in(message_payload(message)) == Ok::<Option<RouteView>, Seq<char>>(
                    Some(route),
                )
            },
            None => {
                ||| protocol_message(message) is None
                ||| !carries_route(
                    message_tag(message),
                    response_status(message_payload(message)),
                )
                ||| route_in(message_payload(message)) is Err
                ||| route_in(message_payload(message)) == Ok::<Option<RouteView>, Seq<char>>(None)
            },
        },
{
}

} // verus!
