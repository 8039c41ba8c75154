//! Movement goals, server-provided routes, and navigation state.
//!
//! Distances are floating point and are computed by the caller: what the library
//! needs of them it takes as facts, such as which points are near each other.

use super::validation::{command_atom, get_position, position_member, valid_command_atom};
use crate::json::{
    array_of, bool_member, bool_member_is_true, bool_value, get_str, i64_member, json_text,
    json_value, json_values, member, member_of, null_value, number_text, number_text_of,
    parse_value, parsed_json, set_member, str_member, str_value, u64_member, value_text, JsonValue,
};
use crate::network::connection::MtpConnection;
use crate::network::outbound::chat_sent;
use crate::text::{dec, push_dec_unsigned, text_view};
use crate::types::{IVec3, Vec3};
use std::collections::VecDeque;
use vstd::prelude::*;
use vstd::string::*;

verus! {

/// A direction relative to the way the bot faces.
#[derive(Clone, Copy, Debug, PartialEq, Eq, Structural)]
pub enum MoveDirection {
    Forward,
    Backward,
    Left,
    Right,
}

/// Where to move, in nodes. Numbers are single precision bit patterns.
#[derive(Clone, Copy, Debug, PartialEq, Eq)]
pub enum MoveSpec {
    Direction { dir: MoveDirection, steps: u32 },
    Delta { dx: u32, dy: u32, dz: u32 },
    Target { x: u32, y: Option<u32>, z: u32 },
}

/// Where to move, and how fast.
#[derive(Clone, Copy, Debug, PartialEq, Eq)]
pub struct MoveRequest {
    pub spec: MoveSpec,
    pub speed: Option<u32>,
}

/// What happens once a destination is reached.
#[derive(Clone, Debug)]
#[allow(inconsistent_fields)]
pub enum ArrivalAction {
    Collect { node: String, count: u16, radius: i32, target: Option<IVec3> },
    Hunt { hunt_id: u64 },
}

/// The value of an [`ArrivalAction`].
pub ghost enum ArrivalView {
    Collect { node: Seq<char>, count: u16, radius: i32, target: Option<IVec3> },
    Hunt { hunt_id: u64 },
}

impl View for ArrivalAction {
    type V = ArrivalView;

    open spec fn view(&self) -> ArrivalView {
        match *self {
            ArrivalAction::Collect { node, count, radius, target } => ArrivalView::Collect {
                node: node@,
                count,
                radius,
                target,
            },
            ArrivalAction::Hunt { hunt_id } => ArrivalView::Hunt { hunt_id },
        }
    }
}

pub open spec fn arrival_view(action: Option<ArrivalAction>) -> Option<ArrivalView> {
    match action {
        Some(a) => Some(a@),
        None => None,
    }
}

pub open spec fn arrival_kind(action: ArrivalView) -> Seq<char> {
    match action {
        ArrivalView::Collect { .. } => "collect"@,
        ArrivalView::Hunt { .. } => "hunt"@,
    }
}

impl ArrivalAction {
    pub fn kind(&self) -> (kind: &'static str)
        ensures
            kind@ == arrival_kind(self@),
    {
        match self {
            ArrivalAction::Collect { .. } => "collect",
            ArrivalAction::Hunt { .. } => "hunt",
        }
    }
}

/// Where the bot is going. Numbers are single precision bit patterns.
#[derive(Clone, Debug)]
pub struct MoveGoal {
    /// Final standable destination. Intermediate route points are kept in
    /// `waypoints` and are never resource-node coordinates.
    pub target: Vec3,
    pub waypoints: VecDeque<Vec3>,
    pub speed: u32,
    pub stop_dist: u32,
    pub arrival_action: Option<ArrivalAction>,
}

/// The value of a [`MoveGoal`].
pub ghost struct GoalView {
    pub target: Vec3,
    pub waypoints: Seq<Vec3>,
    pub speed: u32,
    pub stop_dist: u32,
    pub arrival_action: Option<ArrivalView>,
}

impl View for MoveGoal {
    type V = GoalView;

    open spec fn view(&self) -> GoalView {
        GoalView {
            target: self.target,
            waypoints: self.waypoints@,
            speed: self.speed,
            stop_dist: self.stop_dist,
            arrival_action: arrival_view(self.arrival_action),
        }
    }
}

pub open spec fn goal_view(goal: Option<MoveGoal>) -> Option<GoalView> {
    match goal {
        Some(g) => Some(g@),
        None => None,
    }
}

/// The point that is headed for next.
pub open spec fn next_point(g: GoalView) -> Vec3 {
    if g.waypoints.len() > 0 {
        g.waypoints[0]
    } else {
        g.target
    }
}

/// The number of points that are left, the destination among them.
pub open spec fn points_left(g: GoalView, last_near_target: bool) -> int {
    g.waypoints.len() + (if g.waypoints.len() > 0 && last_near_target { 0int } else { 1int })
}

impl MoveGoal {
    pub fn current_waypoint(&self) -> (p: Vec3)
        ensures
            p == next_point(self@),
    {
        if self.waypoints.len() > 0 {
            self.waypoints[0]
        } else {
            self.target
        }
    }

    /// How many points are left, given whether the last waypoint is near the target.
    pub fn remaining_waypoints(&self, last_near_target: bool) -> (n: usize)
        requires
            self@.waypoints.len() < usize::MAX,
        ensures
            n == points_left(self@, last_near_target),
    {
        let n: usize = self.waypoints.len();
        if n > 0 && last_near_target {
            n
        } else {
            n + 1
        }
    }

    /// Drops the point that was reached; true when it was the final destination.
    pub fn advance_waypoint(&mut self) -> (finished: bool)
        ensures
            finished == (old(self)@.waypoints.len() <= 1),
            final(self)@ == (GoalView {
                waypoints: if old(self)@.waypoints.len() > 0 {
                    old(self)@.waypoints.drop_first()
                } else {
                    old(self)@.waypoints
                },
                ..old(self)@
            }),
    {
        match self.waypoints.pop_front() {
            Some(_) => {
                assert(self@.waypoints =~= old(self)@.waypoints.drop_first());
                self.waypoints.len() == 0
            },
            None => true,
        }
    }
}

/// What the bot reports of its movement.
#[derive(Clone, Debug)]
pub struct NavigationSnapshot {
    pub status: &'static str,
    pub recovering: bool,
    pub recovery_attempts: u8,
    /// Seconds, as a single precision bit pattern.
    pub stalled_for_seconds: u32,
    pub last_error: Option<String>,
}

/// The value of a [`NavigationSnapshot`].
pub ghost struct NavigationView {
    pub status: Seq<char>,
    pub recovering: bool,
    pub recovery_attempts: u8,
    pub stalled_for_seconds: u32,
    pub last_error: Option<Seq<char>>,
}

impl View for NavigationSnapshot {
    type V = NavigationView;

    open spec fn view(&self) -> NavigationView {
        NavigationView {
            status: self.status@,
            recovering: self.recovering,
            recovery_attempts: self.recovery_attempts,
            stalled_for_seconds: self.stalled_for_seconds,
            last_error: text_view(self.last_error),
        }
    }
}

/// Nothing is going on.
pub open spec fn navigation_begun(status: Seq<char>) -> NavigationView {
    NavigationView {
        status,
        recovering: false,
        recovery_attempts: 0,
        stalled_for_seconds: 0,
        last_error: None,
    }
}

pub open spec fn navigation_failed(n: NavigationView, error: Seq<char>) -> NavigationView {
    NavigationView {
        status: "failed"@,
        recovering: false,
        last_error: Some(error),
        ..n
    }
}

impl Default for NavigationSnapshot {
    fn default() -> (n: Self)
        ensures
            n@ == navigation_begun("idle"@),
    {
        NavigationSnapshot {
            status: "idle",
            recovering: false,
            recovery_attempts: 0,
            stalled_for_seconds: 0,
            last_error: None,
        }
    }
}

impl NavigationSnapshot {
    pub fn begin(&mut self, status: &'static str)
        ensures
            final(self)@ == navigation_begun(status@),
    {
        self.status = status;
        self.recovering = false;
        self.recovery_attempts = 0;
        self.stalled_for_seconds = 0;
        self.last_error = None;
    }

    pub fn stop(&mut self)
        ensures
            final(self)@ == navigation_begun("idle"@),
    {
        self.begin("idle")
    }

    /// Records a failure, which stays until something new begins.
    pub fn fail(&mut self, error: &str)
        ensures
            final(self)@ == navigation_failed(old(self)@, error@),
    {
        self.status = "failed";
        self.recovering = false;
        self.last_error = Some(error.to_owned());
    }
}

/// The longest route that is accepted.
pub const MAX_ROUTE_WAYPOINTS: usize = 256;

/// A position in a route: three numbers in decimal, in nodes.
#[derive(Debug)]
pub struct RoutePosition {
    pub x: String,
    pub y: String,
    pub z: String,
}

/// The value of a [`RoutePosition`].
pub ghost struct PositionView {
    pub x: Seq<char>,
    pub y: Seq<char>,
    pub z: Seq<char>,
}

impl View for RoutePosition {
    type V = PositionView;

    open spec fn view(&self) -> PositionView {
        PositionView { x: self.x@, y: self.y@, z: self.z@ }
    }
}

pub open spec fn position_views(path: Seq<RoutePosition>) -> Seq<PositionView> {
    path.map_values(|p: RoutePosition| p@)
}

/// A route as the server mod sends it.
#[derive(Debug)]
pub struct Route {
    pub path: Vec<RoutePosition>,
    /// Where to stand at the end.
    pub stand: RoutePosition,
    pub arrival_action: Option<ArrivalAction>,
}

/// The value of a [`Route`].
pub ghost struct RouteView {
    pub path: Seq<PositionView>,
    pub stand: PositionView,
    pub arrival_action: Option<ArrivalView>,
}

impl View for Route {
    type V = RouteView;

    open spec fn view(&self) -> RouteView {
        RouteView {
            path: position_views(self.path@),
            stand: self.stand@,
            arrival_action: arrival_view(self.arrival_action),
        }
    }
}

pub open spec fn number_member(v: JsonValue, key: Seq<char>) -> Option<Seq<char>> {
    match member_of(v, key) {
        Some(m) => number_text_of(m),
        None => None,
    }
}

pub open spec fn position_of(
    x: Option<Seq<char>>,
    y: Option<Seq<char>>,
    z: Option<Seq<char>>,
) -> Option<PositionView> {
    match (x, y, z) {
        (Some(x), Some(y), Some(z)) => Some(PositionView { x, y, z }),
        _ => None,
    }
}

/// A position in JSON: an array that starts with three numbers, or an object with
/// the numbers `x`, `y` and `z`.
pub open spec fn route_position(v: JsonValue) -> Option<PositionView> {
    match array_of(v) {
        Some(items) => if items.len() < 3 {
            None
        } else {
            position_of(number_text_of(items[0]), number_text_of(items[1]), number_text_of(items[2]))
        },
        None => position_of(
            number_member(v, "x"@),
            number_member(v, "y"@),
            number_member(v, "z"@),
        ),
    }
}

/// The positions of a path, if all of them are well formed.
pub open spec fn route_positions(items: Seq<JsonValue>) -> Option<Seq<PositionView>>
    decreases items.len(),
{
    if items.len() == 0 {
        Some(seq![])
    } else {
        match (route_positions(items.drop_last()), route_position(items.last())) {
            (Some(before), Some(p)) => Some(before.push(p)),
            _ => None,
        }
    }
}

pub open spec fn clamp_int(n: int, min: int, max: int) -> int {
    if n < min {
        min
    } else if n > max {
        max
    } else {
        n
    }
}

/// What a route says is to be done on arrival.
pub open spec fn arrival_action_of(v: Option<JsonValue>, target: Option<IVec3>) -> Result<
    Option<ArrivalView>,
    Seq<char>,
> {
    match v {
        None => Ok(None),
        Some(v) => {
            let kind = match str_member(v, "type"@) {
                Some(s) => s,
                None => "none"@,
            };
            if kind == "none"@ {
                Ok(None)
            } else if kind == "collect"@ {
                match str_member(v, "node"@) {
                    Some(node) => if command_atom(node) {
                        Ok(
                            Some(
                                ArrivalView::Collect {
                                    node,
                                    count: clamp_int(
                                        match u64_member(v, "count"@) {
                                            Some(n) => n as int,
                                            None => 1,
                                        },
                                        1,
                                        8,
                                    ) as u16,
                                    radius: clamp_int(
                                        match i64_member(v, "radius"@) {
                                            Some(n) => n as int,
                                            None => 6,
                                        },
                                        1,
                                        6,
                                    ) as i32,
                                    target,
                                },
                            ),
                        )
                    } else {
                        Err("collect arrival action has no valid node"@)
                    },
                    None => Err("collect arrival action has no valid node"@),
                }
            } else if kind == "hunt"@ {
                match u64_member(v, "hunt_id"@) {
                    Some(hunt_id) => Ok(Some(ArrivalView::Hunt { hunt_id })),
                    None => Err("hunt arrival action has no hunt_id"@),
                }
            } else {
                Err("unsupported arrival action '"@ + kind + "'"@)
            }
        },
    }
}

/// The path of a route: `path`, or `waypoints` where there is no `path`.
pub open spec fn path_items(v: JsonValue) -> Option<Seq<JsonValue>> {
    match member_of(v, "path"@) {
        Some(m) => array_of(m),
        None => match member_of(v, "waypoints"@) {
            Some(m) => array_of(m),
            None => None,
        },
    }
}

/// Where a route ends: `stand`, or the end of its path.
pub open spec fn stand_of(v: JsonValue, path: Seq<JsonValue>) -> Option<PositionView> {
    let stated = match member_of(v, "stand"@) {
        Some(m) => route_position(m),
        None => None,
    };
    match stated {
        Some(p) => Some(p),
        None => if path.len() > 0 {
            route_position(path.last())
        } else {
            None
        },
    }
}

/// The route in a reply: none where the reply is not a success, an error where a
/// success does not hold a usable route.
pub open spec fn route_of(v: JsonValue) -> Result<Option<RouteView>, Seq<char>> {
    if bool_member(v, "ok"@) != Some(true) {
        Ok(None)
    } else {
        match path_items(v) {
            None => Err("successful path response has no path array"@),
            Some(items) => if items.len() > MAX_ROUTE_WAYPOINTS {
                Err(
                    "path has "@ + dec(items.len() as int) + " waypoints; maximum is "@ + dec(
                        MAX_ROUTE_WAYPOINTS as int,
                    ),
                )
            } else {
                match stand_of(v, items) {
                    None => Err("successful path response has no stand position"@),
                    Some(stand) => match route_positions(items) {
                        None => Err("path contains an invalid waypoint"@),
                        Some(path) => match arrival_action_of(
                            member_of(v, "arrival_action"@),
                            position_member(v, "target"@),
                        ) {
                            Err(e) => Err(e),
                            Ok(arrival_action) => Ok(
                                Some(RouteView { path, stand, arrival_action }),
                            ),
                        },
                    },
                }
            },
        }
    }
}

fn get_number(v: &serde_json::Value, key: &str) -> (text: Option<String>)
    ensures
        text_view(text) == number_member(json_value(*v), key@),
{
    number_text(member(v, key)?)
}

fn to_position(x: Option<String>, y: Option<String>, z: Option<String>) -> (p: Option<RoutePosition>)
    ensures
        match p {
            Some(p) => position_of(text_view(x), text_view(y), text_view(z)) == Some(p@),
            None => position_of(text_view(x), text_view(y), text_view(z)) is None,
        },
{
    Some(RoutePosition { x: x?, y: y?, z: z? })
}

pub fn parse_route_position(v: &serde_json::Value) -> (p: Option<RoutePosition>)
    ensures
        match p {
            Some(p) => route_position(json_value(*v)) == Some(p@),
            None => route_position(json_value(*v)) is None,
        },
{
    match v.as_array() {
        Some(items) => {
            if items.len() < 3 {
                return None;
            }
            assert(json_values(items@)[0] == json_value(items@[0]));
            assert(json_values(items@)[1] == json_value(items@[1]));
            assert(json_values(items@)[2] == json_value(items@[2]));
            to_position(number_text(&items[0]), number_text(&items[1]), number_text(&items[2]))
        },
        None => to_position(get_number(v, "x"), get_number(v, "y"), get_number(v, "z")),
    }
}

pub open spec fn arrival_result(r: Result<Option<ArrivalAction>, String>) -> Result<
    Option<ArrivalView>,
    Seq<char>,
> {
    match r {
        Ok(a) => Ok(arrival_view(a)),
        Err(e) => Err(e@),
    }
}

pub open spec fn value_view(v: Option<&serde_json::Value>) -> Option<JsonValue> {
    match v {
        Some(v) => Some(json_value(*v)),
        None => None,
    }
}

pub fn parse_arrival_action(value: Option<&serde_json::Value>, target: Option<IVec3>) -> (r: Result<
    Option<ArrivalAction>,
    String,
>)
    ensures
        arrival_result(r) == arrival_action_of(value_view(value), target),
{
    let v = match value {
        Some(v) => v,
        None => return Ok(None),
    };
    let kind = match get_str(v, "type") {
        Some(s) => s.to_owned(),
        None => "none".to_owned(),
    };
    if kind == "none".to_owned() {
        return Ok(None);
    }
    if kind == "collect".to_owned() {
        let node = match get_str(v, "node") {
            Some(node) if valid_command_atom(node) => node.to_owned(),
            _ => return Err("collect arrival action has no valid node".to_owned()),
        };
        let count: u64 = match member(v, "count") {
            Some(m) => match m.as_u64() {
                Some(n) => n,
                None => 1,
            },
            None => 1,
        };
        let radius: i64 = match member(v, "radius") {
            Some(m) => match m.as_i64() {
                Some(n) => n,
                None => 6,
            },
            None => 6,
        };
        let count: u16 = if count < 1 { 1 } else if count > 8 { 8 } else { count as u16 };
        let radius: i32 = if radius < 1 { 1 } else if radius > 6 { 6 } else { radius as i32 };
        return Ok(Some(ArrivalAction::Collect { node, count, radius, target }));
    }
    if kind == "hunt".to_owned() {
        let id = match member(v, "hunt_id") {
            Some(m) => m.as_u64(),
            None => None,
        };
        return match id {
            Some(hunt_id) => Ok(Some(ArrivalAction::Hunt { hunt_id })),
            None => Err("hunt arrival action has no hunt_id".to_owned()),
        };
    }
    let mut error = "unsupported arrival action '".to_owned();
    error.append(kind.as_str());
    error.append("'");
    Err(error)
}

pub open spec fn route_result(r: Result<Option<Route>, String>) -> Result<
    Option<RouteView>,
    Seq<char>,
> {
    match r {
        Ok(Some(route)) => Ok(Some(route@)),
        Ok(None) => Ok(None),
        Err(e) => Err(e@),
    }
}

/// Reads the route in a reply.
pub fn read_route(v: &serde_json::Value) -> (r: Result<Option<Route>, String>)
    ensures
        route_result(r) == route_of(json_value(*v)),
{
    if !bool_member_is_true(v, "ok") {
        return Ok(None);
    }
    let found = match member(v, "path") {
        Some(m) => m.as_array(),
        None => match member(v, "waypoints") {
            Some(m) => m.as_array(),
            None => None,
        },
    };
    let items = match found {
        Some(items) => items,
        None => return Err("successful path response has no path array".to_owned()),
    };
    let ghost all = json_values(items@);
    if items.len() > MAX_ROUTE_WAYPOINTS {
        let mut error = "path has ".to_owned();
        push_dec_unsigned(&mut error, items.len() as u128);
        error.append(" waypoints; maximum is ");
        push_dec_unsigned(&mut error, MAX_ROUTE_WAYPOINTS as u128);
        return Err(error);
    }
    let stated = match member(v, "stand") {
        Some(m) => parse_route_position(m),
        None => None,
    };
    let stand = match stated {
        Some(p) => Some(p),
        None => if items.len() > 0 {
            assert(all.last() == json_value(items@[items@.len() - 1]));
            parse_route_position(&items[items.len() - 1])
        } else {
            None
        },
    };
    let stand = match stand {
        Some(p) => p,
        None => return Err("successful path response has no stand position".to_owned()),
    };
    let mut path: Vec<RoutePosition> = Vec::new();
    let mut i: usize = 0;
    assert(position_views(path@) =~= Seq::<PositionView>::empty());
    assert(all.take(0) =~= Seq::<JsonValue>::empty());
    while i < items.len()
        invariant
            i <= items.len(),
            all == json_values(items@),
            all.len() <= MAX_ROUTE_WAYPOINTS,
            path_items(json_value(*v)) == Some(all),
            bool_member(json_value(*v), "ok"@) == Some(true),
            stand_of(json_value(*v), all) == Some(stand@),
            route_positions(all.take(i as int)) == Some(position_views(path@)),
        decreases items.len() - i,
    {
        assert(all.take(i + 1).drop_last() =~= all.take(i as int));
        assert(all.take(i + 1).last() == json_value(items@[i as int]));
        match parse_route_position(&items[i]) {
            Some(p) => {
                let ghost before = position_views(path@);
                path.push(p);
                assert(position_views(path@) =~= before.push(p@));
            },
            None => {
                proof {
                    malformed_position_spoils_path(all, i as int + 1);
                }
                return Err("path contains an invalid waypoint".to_owned());
            },
        }
        i = i + 1;
    }
    assert(all.take(i as int) =~= all);
    match parse_arrival_action(member(v, "arrival_action"), get_position(v, "target")) {
        Ok(arrival_action) => Ok(Some(Route { path, stand, arrival_action })),
        Err(e) => Err(e),
    }
}

proof fn malformed_position_spoils_path(items: Seq<JsonValue>, n: int)
    requires
        0 <= n <= items.len(),
        route_positions(items.take(n)) is None,
    ensures
        route_positions(items) is None,
    decreases items.len(),
{
    if n < items.len() {
        assert(items.drop_last().take(n) =~= items.take(n));
        malformed_position_spoils_path(items.drop_last(), n);
    } else {
        assert(items.take(n) =~= items);
    }
}

/// The route in the text of a reply.
pub open spec fn route_in(payload: Seq<char>) -> Result<Option<RouteView>, Seq<char>> {
    match parsed_json(payload) {
        Ok(v) => route_of(v),
        Err(e) => Err("invalid JSON: "@ + e),
    }
}

/// Reads the route in the text of a reply.
pub fn parse_route(payload: &str) -> (r: Result<Option<Route>, String>)
    ensures
        route_result(r) == route_in(payload@),
{
    match parse_value(payload) {
        Ok(v) => read_route(&v),
        Err(e) => {
            let mut error = "invalid JSON: ".to_owned();
            error.append(e.as_str());
            Err(error)
        },
    }
}

/// Four nodes per second.
pub const DEFAULT_SPEED: u32 = 0x4080_0000;

/// A tenth of a node per second.
pub const MIN_SPEED: u32 = 0x3dcc_cccd;

/// Two tenths of a node, in network units: close enough to a waypoint.
pub const STOP_DIST: u32 = 0x4000_0000;

/// The bit pattern of a number that is finite and greater than zero.
pub open spec fn positive_bits(bits: u32) -> bool {
    0 < bits < 0x7f80_0000
}

/// A usable default speed.
pub open spec fn default_speed(speed: u32) -> u32 {
    if positive_bits(speed) {
        speed
    } else {
        DEFAULT_SPEED
    }
}

/// The speed, but at least the least one.
pub open spec fn at_least_min_speed(speed: u32) -> u32 {
    if positive_bits(speed) && speed > MIN_SPEED {
        speed
    } else {
        MIN_SPEED
    }
}

/// The speed of a goal: the requested one, or the default where none or no finite
/// one is requested.
pub open spec fn goal_speed(requested: Option<u32>, default: u32) -> u32 {
    let wanted = match requested {
        Some(r) => r,
        None => default_speed(default),
    };
    if crate::types::finite_bits(wanted) {
        at_least_min_speed(wanted)
    } else {
        at_least_min_speed(default_speed(default))
    }
}

fn usable_speed(speed: u32) -> (s: u32)
    ensures
        s == default_speed(speed),
{
    if 0 < speed && speed < 0x7f80_0000 {
        speed
    } else {
        DEFAULT_SPEED
    }
}

fn clamp_speed(speed: u32) -> (s: u32)
    ensures
        s == at_least_min_speed(speed),
{
    if speed > MIN_SPEED && speed < 0x7f80_0000 {
        speed
    } else {
        MIN_SPEED
    }
}

/// A goal without intermediate points.
pub fn build_move_goal(target: Vec3, requested_speed: Option<u32>, default: u32) -> (goal: MoveGoal)
    ensures
        goal@ == (GoalView {
            target,
            waypoints: seq![],
            speed: goal_speed(requested_speed, default),
            stop_dist: STOP_DIST,
            arrival_action: None,
        }),
{
    let usable: u32 = usable_speed(default);
    let wanted: u32 = match requested_speed {
        Some(r) => r,
        None => usable,
    };
    let speed: u32 = if crate::types::is_finite_bits(wanted) {
        clamp_speed(wanted)
    } else {
        clamp_speed(usable)
    };
    let waypoints: VecDeque<Vec3> = VecDeque::new();
    assert(waypoints@ =~= seq![]);
    MoveGoal { target, waypoints, speed, stop_dist: STOP_DIST, arrival_action: None }
}

/// The indices of the points that are kept: a point that is near the one kept
/// before it is left out.
pub open spec fn kept(near: Seq<Seq<bool>>, count: nat) -> Seq<int>
    decreases count,
{
    if count == 0 {
        seq![]
    } else {
        let before = kept(near, (count - 1) as nat);
        if before.len() > 0 && near[before.last()][count - 1] {
            before
        } else {
            before.push(count - 1)
        }
    }
}

/// Without the leading points that are reached already.
pub open spec fn still_ahead(points: Seq<int>, reached: Seq<bool>) -> Seq<int>
    decreases points.len(),
{
    if points.len() > 0 && reached[points[0]] {
        still_ahead(points.drop_first(), reached)
    } else {
        points
    }
}

pub open spec fn rows(near: Seq<Vec<bool>>) -> Seq<Seq<bool>> {
    near.map_values(|r: Vec<bool>| r@)
}

/// The facts about a route of `count` points are complete.
pub open spec fn facts_wf(near: Seq<Seq<bool>>, reached: Seq<bool>, count: int) -> bool {
    &&& near.len() == count
    &&& reached.len() == count
    &&& forall|i: int| 0 <= i < count ==> (#[trigger] near[i]).len() == count
}

proof fn kept_in_range(near: Seq<Seq<bool>>, count: nat)
    ensures
        forall|k: int| 0 <= k < kept(near, count).len() ==> 0 <= #[trigger] kept(near, count)[k]
            < count,
        count > 0 ==> kept(near, count).len() > 0,
    decreases count,
{
    if count > 0 {
        let before = kept(near, (count - 1) as nat);
        let all = kept(near, count);
        kept_in_range(near, (count - 1) as nat);
        assert forall|k: int| 0 <= k < all.len() implies 0 <= #[trigger] all[k] < count by {
            if k < before.len() {
                assert(all[k] == before[k]);
            }
        }
    }
}

/// Of the points of a route that are kept, none is near the one before it, they
/// are kept in their order, and the last of them is the end of the route or near it.
pub proof fn kept_points_are_apart(near: Seq<Seq<bool>>, count: nat)
    requires
        count > 0,
    ensures
        forall|k: int|
            0 <= k < kept(near, count).len() - 1 ==> !near[#[trigger] kept(near, count)[k]][kept(
                near,
                count,
            )[k + 1]] && kept(near, count)[k] < kept(near, count)[k + 1],
        kept(near, count).len() > 0,
        kept(near, count).last() == count - 1 || near[kept(near, count).last()][count - 1],
    decreases count,
{
    let before = kept(near, (count - 1) as nat);
    let all = kept(near, count);
    kept_in_range(near, (count - 1) as nat);
    if count > 1 {
        kept_points_are_apart(near, (count - 1) as nat);
    }
    assert forall|k: int| 0 <= k < all.len() - 1 implies !near[#[trigger] all[k]][all[k + 1]]
        && all[k] < all[k + 1] by {
        assert(all[k] == before[k]);
        if k + 1 < before.len() {
            assert(all[k + 1] == before[k + 1]);
        }
    }
}

/// The points of a route that are still to be visited.
pub open spec fn route_waypoints(points: Seq<Vec3>, near: Seq<Seq<bool>>, reached: Seq<bool>) -> Seq<
    Vec3,
> {
    still_ahead(kept(near, points.len()), reached).map_values(|i: int| points[i])
}

proof fn route_waypoints_are_few(points: Seq<Vec3>, near: Seq<Seq<bool>>, reached: Seq<bool>)
    ensures
        route_waypoints(points, near, reached).len() <= points.len(),
{
    kept_is_short(near, points.len());
    ahead_is_short(kept(near, points.len()), reached);
}

proof fn kept_is_short(near: Seq<Seq<bool>>, count: nat)
    ensures
        kept(near, count).len() <= count,
    decreases count,
{
    if count > 0 {
        kept_is_short(near, (count - 1) as nat);
    }
}

proof fn ahead_is_short(points: Seq<int>, reached: Seq<bool>)
    ensures
        still_ahead(points, reached).len() <= points.len(),
    decreases points.len(),
{
    if points.len() > 0 && reached[points[0]] {
        ahead_is_short(points.drop_first(), reached);
    }
}

/// The goal of a route: its points without repetitions and without those that are
/// reached already. `points` holds the path and, at its end, the place to stand.
/// `near[i][j]` says whether two points are near each other, `reached[i]` whether
/// the player is at a point already.
pub fn build_route_goal(
    points: &Vec<Vec3>,
    near: &Vec<Vec<bool>>,
    reached: &Vec<bool>,
    default: u32,
    arrival_action: Option<ArrivalAction>,
) -> (goal: MoveGoal)
    requires
        points@.len() > 0,
        facts_wf(rows(near@), reached@, points@.len() as int),
    ensures
        goal@ == (GoalView {
            target: points@.last(),
            waypoints: route_waypoints(points@, rows(near@), reached@),
            speed: default_speed(default),
            stop_dist: STOP_DIST,
            arrival_action: arrival_view(arrival_action),
        }),
        goal@.waypoints.len() <= points@.len(),
{
    proof {
        route_waypoints_are_few(points@, rows(near@), reached@);
    }
    let ghost table = rows(near@);
    let mut indices: Vec<usize> = Vec::new();
    let mut n: usize = 0;
    while n < points.len()
        invariant
            n <= points.len(),
            table == rows(near@),
            facts_wf(table, reached@, points@.len() as int),
            indices@.map_values(|i: usize| i as int) =~= kept(table, n as nat),
            forall|k: int| 0 <= k < indices@.len() ==> #[trigger] indices@[k] < n,
        decreases points.len() - n,
    {
        let ghost before = indices@;
        let mut skip = false;
        if indices.len() > 0 {
            let last: usize = indices[indices.len() - 1];
            assert(kept(table, n as nat).last() == last);
            assert(table[last as int] == near@[last as int]@);
            assert(table[last as int].len() == points@.len());
            skip = near[last][n];
        }
        if !skip {
            indices.push(n);
        }
        n = n + 1;
    }
    let mut start: usize = 0;
    let ghost all = kept(table, points@.len());
    assert(all.skip(0) =~= all);
    while start < indices.len() && reached[indices[start]]
        invariant
            start <= indices.len(),
            reached@.len() == points@.len(),
            all.len() == indices@.len(),
            forall|k: int| 0 <= k < indices@.len() ==> #[trigger] indices@[k] < points@.len(),
            forall|k: int| 0 <= k < indices@.len() ==> all[k] == #[trigger] indices@[k],
            still_ahead(all, reached@) == still_ahead(all.skip(start as int), reached@),
        ensures
            start <= indices.len(),
            still_ahead(all, reached@) == still_ahead(all.skip(start as int), reached@),
            start < indices.len() ==> !reached@[indices@[start as int] as int],
        decreases indices.len() - start,
    {
        assert(all.skip(start as int).drop_first() =~= all.skip(start + 1));
        start = start + 1;
    }
    proof {
        kept_in_range(table, points@.len());
        assert forall|k: int| 0 <= k < indices@.len() implies all[k] == #[trigger] indices@[k] by {
            assert(indices@.map_values(|i: usize| i as int)[k] == indices@[k]);
        }
        assert(still_ahead(all, reached@) == all.skip(start as int));
    }
    let mut waypoints: VecDeque<Vec3> = VecDeque::new();
    let mut k: usize = start;
    let ghost left = all.skip(start as int).map_values(|i: int| points@[i]);
    while k < indices.len()
        invariant
            start <= k <= indices.len(),
            all.len() == indices@.len(),
            forall|k: int| 0 <= k < indices@.len() ==> #[trigger] indices@[k] < points@.len(),
            forall|k: int| 0 <= k < indices@.len() ==> all[k] == #[trigger] indices@[k],
            left == all.skip(start as int).map_values(|i: int| points@[i]),
            waypoints@ =~= left.take(k - start),
        decreases indices.len() - k,
    {
        waypoints.push_back(points[indices[k]]);
        assert(left[k - start] == points@[indices@[k as int] as int]);
        k = k + 1;
    }
    assert(left.take(k - start) =~= left);
    MoveGoal {
        target: points[points.len() - 1],
        waypoints,
        speed: usable_speed(default),
        stop_dist: STOP_DIST,
        arrival_action,
    }
}

/// The status in the text of a reply.
pub open spec fn response_status(payload: Seq<char>) -> Option<Seq<char>> {
    match parsed_json(payload) {
        Ok(v) => str_member(v, "status"@),
        Err(_) => None,
    }
}

pub fn route_response_status(payload: &str) -> (status: Option<String>)
    ensures
        text_view(status) == response_status(payload@),
{
    match parse_value(payload) {
        Ok(v) => match get_str(&v, "status") {
            Some(s) => Some(s.to_owned()),
            None => None,
        },
        Err(_) => None,
    }
}

/// What a request is told when a route cannot be used.
pub open spec fn invalid_route_reply(error: Seq<char>) -> JsonValue {
    JsonValue::Object(
        Map::empty().insert("ok"@, JsonValue::Bool(false)).insert(
            "status"@,
            JsonValue::Str("invalid_path_response"@),
        ).insert("error"@, JsonValue::Str(error)),
    )
}

pub fn invalid_route_response(error: &str) -> (text: String)
    ensures
        text@ == json_text(invalid_route_reply(error@)),
{
    let mut v = null_value();
    set_member(&mut v, "ok", bool_value(false));
    set_member(&mut v, "status", str_value("invalid_path_response"));
    set_member(&mut v, "error", str_value(error));
    value_text(&v)
}

/// Goes on with a hunt on arrival.
pub fn send_hunt_arrival_action(conn: &mut MtpConnection, hunt_id: u64)
    requires
        old(conn).wf(),
    ensures
        final(conn).wf(),
        final(conn)@ == chat_sent(old(conn)@, "/bot_hunt "@ + dec(hunt_id as int)),
{
    let mut text = "/bot_hunt ".to_owned();
    push_dec_unsigned(&mut text, hunt_id as u128);
    conn.send_chat_message(text.as_str());
}

/// A position is read from the first three numbers of an array, or from the members `x`, `y`
/// and `z` of anything else.
pub proof fn route_positions_are_three_numbers(v: JsonValue, items: Seq<JsonValue>)
    ensures
        array_of(v) == Some(items) && items.len() >= 3 ==> match route_position(v) {
            Some(p) => number_text_of(items[0]) == Some(p.x) && number_text_of(items[1]) == Some(
                p.y,
            ) && number_text_of(items[2]) == Some(p.z),
            None => number_text_of(items[0]) is None || number_text_of(items[1]) is None
                || number_text_of(items[2]) is None,
        },
        array_of(v) == Some(items) && items.len() < 3 ==> route_position(v) is None,
        array_of(v) is None ==> match route_position(v) {
            Some(p) => {
                &&& member_of(v, "x"@) is Some && number_text_of(member_of(v, "x"@)->0) == Some(p.x)
                &&& member_of(v, "y"@) is Some && number_text_of(member_of(v, "y"@)->0) == Some(p.y)
                &&& member_of(v, "z"@) is Some && number_text_of(member_of(v, "z"@)->0) == Some(p.z)
            },
            None => number_member(v, "x"@) is None || number_member(v, "y"@) is None
                || number_member(v, "z"@) is None,
        },
{
}

proof fn positions_one_by_one(items: Seq<JsonValue>)
    ensures
        match route_positions(items) {
            Some(path) => path.len() == items.len() && forall|i: int|
                0 <= i < items.len() ==> route_position(items[i]) == Some(#[trigger] path[i]),
            None => exists|i: int|
                0 <= i < items.len() && route_position(#[trigger] items[i]) is None,
        },
    decreases items.len(),
{
    if items.len() > 0 {
        let before = items.drop_last();
        positions_one_by_one(before);
        match (route_positions(before), route_position(items.last())) {
            (Some(path), Some(p)) => {
                let all = path.push(p);
                assert forall|i: int| 0 <= i < items.len() implies route_position(items[i]) == Some(
                    #[trigger] all[i],
                ) by {
                    if i < before.len() {
                        assert(before[i] == items[i]);
                        assert(all[i] == path[i]);
                    }
                }
            },
            (None, _) => {
                let i = choose|i: int|
                    0 <= i < before.len() && route_position(#[trigger] before[i]) is None;
                assert(route_position(items[i]) is None);
            },
            (_, None) => {
                assert(route_position(items[items.len() - 1]) is None);
            },
        }
    }
}

/// A route is the one that the reply describes: all the positions of its path, in order, up to
/// 256 of them; the place to stand that it names, or else the end of the path; and what
/// is to be done on arrival. Only a reply that is `ok` holds one.
pub proof fn routes_are_as_the_reply_says(v: JsonValue)
    ensures
        route_of(v) == Ok::<Option<RouteView>, Seq<char>>(None) <==> bool_member(v, "ok"@) != Some(
            true,
        ),
        match route_of(v) {
            Ok(Some(route)) => {
                let listed = if member_of(v, "path"@) is Some {
                    member_of(v, "path"@)
                } else {
                    member_of(v, "waypoints"@)
                };
                &&& listed is Some
                &&& array_of(listed->0) is Some
                &&& ({
                    let items = array_of(listed->0)->0;
                    &&& route.path.len() == items.len()
                    &&& items.len() <= 256
                    &&& forall|i: int|
                        0 <= i < items.len() ==> route_position(items[i]) == Some(
                            #[trigger] route.path[i],
                        )
                    &&& member_of(v, "stand"@) is Some && route_position(
                        member_of(v, "stand"@)->0,
                    ) is Some ==> route_position(member_of(v, "stand"@)->0) == Some(route.stand)
                    &&& member_of(v, "stand"@) is None || route_position(
                        member_of(v, "stand"@)->0,
                    ) is None ==> items.len() > 0 && route.stand == route.path.last()
                })
                &&& arrival_action_of(
                    member_of(v, "arrival_action"@),
                    position_member(v, "target"@),
                ) == Ok::<Option<ArrivalView>, Seq<char>>(route.arrival_action)
            },
            _ => true,
        },
{
    if let Some(items) = path_items(v) {
        positions_one_by_one(items);
    }
}

/// A reply that is `ok` holds a route wherever its path is a list of up to 256 positions, it
/// says where to stand or the path is not empty, and what is to be done on arrival
/// can be understood.
pub proof fn right_routes_are_taken(v: JsonValue, items: Seq<JsonValue>)
    requires
        bool_member(v, "ok"@) == Some(true),
        member_of(v, "path"@) is Some,
        array_of(member_of(v, "path"@)->0) == Some(items),
        1 <= items.len() <= 256,
        forall|i: int| 0 <= i < items.len() ==> route_position(#[trigger] items[i]) is Some,
        arrival_action_of(member_of(v, "arrival_action"@), position_member(v, "target"@)) is Ok,
    ensures
        route_of(v) is Ok,
        route_of(v)->Ok_0 is Some,
{
    positions_one_by_one(items);
    assert(items.last() == items[items.len() - 1]);
}

/// What is to be done on arrival is what the reply says: nodes of a kind are collected, one to
/// eight of them and from up to six nodes away, or a hunt goes on. Anything else is
/// refused.
pub proof fn arrival_actions_are_as_the_reply_says(v: JsonValue, target: Option<IVec3>)
    ensures
        arrival_action_of(None, target) == Ok::<Option<ArrivalView>, Seq<char>>(None),
        str_member(v, "type"@) is None || str_member(v, "type"@) == Some("none"@)
            ==> arrival_action_of(Some(v), target) == Ok::<Option<ArrivalView>, Seq<char>>(None),
        match arrival_action_of(Some(v), target) {
            Ok(Some(ArrivalView::Collect { node, count, radius, target: at })) => {
                &&& str_member(v, "type"@) == Some("collect"@)
                &&& str_member(v, "node"@) == Some(node)
                &&& command_atom(node)
                &&& at == target
                &&& 1 <= count <= 8
                &&& u64_member(v, "count"@) is None ==> count == 1
                &&& u64_member(v, "count"@) is Some ==> if u64_member(v, "count"@)->0 < 1 {
                    count == 1
                } else if u64_member(v, "count"@)->0 > 8 {
                    count == 8
                } else {
                    count == u64_member(v, "count"@)->0
                }
                &&& 1 <= radius <= 6
                &&& i64_member(v, "radius"@) is None ==> radius == 6
                &&& i64_member(v, "radius"@) is Some ==> if i64_member(v, "radius"@)->0 < 1 {
                    radius == 1
                } else if i64_member(v, "radius"@)->0 > 6 {
                    radius == 6
                } else {
                    radius == i64_member(v, "radius"@)->0
                }
            },
            Ok(Some(ArrivalView::Hunt { hunt_id })) => {
                &&& str_member(v, "type"@) == Some("hunt"@)
                &&& u64_member(v, "hunt_id"@) == Some(hunt_id)
            },
            Ok(None) => str_member(v, "type"@) is None || str_member(v, "type"@) == Some("none"@),
            Err(_) => {
                let kind = str_member(v, "type"@);
                &&& kind is Some && kind != Some("none"@)
                &&& kind == Some("collect"@) ==> str_member(v, "node"@) is None || !command_atom(
                    str_member(v, "node"@)->0,
                )
                &&& kind == Some("hunt"@) ==> u64_member(v, "hunt_id"@) is None
            },
        },
{
    reveal_strlit("none");
    reveal_strlit("collect");
    reveal_strlit("hunt");
    assert("none"@.len() == 4 && "collect"@.len() == 7 && "hunt"@.len() == 4);
    assert("none"@[0] == 'n' && "hunt"@[0] == 'h');
}

/// A point is left out of a route only where it is near one that is kept before it; the first
/// point is always kept.
pub proof fn only_near_points_are_left_out(near: Seq<Seq<bool>>, count: nat, i: int)
    requires
        0 <= i < count,
    ensures
        kept(near, count)[0] == 0,
        kept(near, count).contains(i) || exists|k: int|
            0 <= k < kept(near, count).len() && kept(near, count)[k] < i
                && near[#[trigger] kept(near, count)[k]][i],
    decreases count,
{
    let before = kept(near, (count - 1) as nat);
    let all = kept(near, count);
    kept_in_range(near, (count - 1) as nat);
    kept_in_range(near, count);
    if count > 1 {
        only_near_points_are_left_out(near, (count - 1) as nat, 0);
        assert(all[0] == before[0]);
    }
    if i < count - 1 {
        only_near_points_are_left_out(near, (count - 1) as nat, i);
        if before.contains(i) {
            let j = choose|j: int| 0 <= j < before.len() && before[j] == i;
            assert(all[j] == i);
        } else {
            let k = choose|k: int|
                0 <= k < before.len() && before[k] < i && near[#[trigger] before[k]][i];
            assert(all[k] == before[k]);
        }
    } else if before.len() > 0 && near[before.last()][i] {
        let k = before.len() - 1;
        assert(all[k] == before.last());
    } else {
        assert(all[all.len() - 1] == i);
    }
}

/// Of the points that are kept only leading ones are dropped, and only such as are reached.
pub proof fn only_reached_points_are_dropped(points: Seq<int>, reached: Seq<bool>)
    ensures
        ({
            let rest = still_ahead(points, reached);
            let n = points.len() - rest.len();
            &&& n >= 0
            &&& rest == points.skip(n)
            &&& forall|k: int| 0 <= k < n ==> reached[#[trigger] points[k]]
            &&& rest.len() > 0 ==> !reached[rest[0]]
        }),
    decreases points.len(),
{
    if points.len() > 0 && reached[points[0]] {
        let fewer = points.drop_first();
        only_reached_points_are_dropped(fewer, reached);
        let rest = still_ahead(points, reached);
        let n = points.len() - rest.len();
        assert(rest =~= points.skip(n));
        assert forall|k: int| 0 <= k < n implies reached[#[trigger] points[k]] by {
            if k > 0 {
                assert(fewer[k - 1] == points[k]);
            }
        }
    } else {
        assert(points.skip(0) =~= points);
    }
}

/// A goal's speed is the one that was asked for, where it is finite and at least the least
/// one; a lower one is raised to it; and where none, or none that is finite, was asked for,
/// it is the usual one.
pub proof fn goals_have_a_usable_speed(requested: u32, default: u32)
    ensures
        0x3dcc_cccd <= requested < 0x7f80_0000 ==> goal_speed(Some(requested), default) == requested,
        requested < 0x3dcc_cccd ==> goal_speed(Some(requested), default) == 0x3dcc_cccd,
        0x7f80_0000 <= requested < 0x8000_0000 ==> goal_speed(Some(requested), default)
            == goal_speed(None, default),
        0x3dcc_cccd <= default < 0x7f80_0000 ==> goal_speed(None, default) == default,
        default == 0 || default >= 0x7f80_0000 ==> goal_speed(None, default) == 0x4080_0000,
        0x3dcc_cccd <= goal_speed(Some(requested), default) < 0x7f80_0000,
{
}

/// A failure keeps its reason until something new begins, and ends any recovery; beginning
/// something leaves nothing of what was before.
pub proof fn failures_are_kept(n: NavigationView, error: Seq<char>, status: Seq<char>)
    ensures
        navigation_failed(n, error).status == "failed"@,
        navigation_failed(n, error).last_error == Some(error),
        !navigation_failed(n, error).recovering,
        navigation_failed(n, error).recovery_attempts == n.recovery_attempts,
        navigation_failed(n, error).stalled_for_seconds == n.stalled_for_seconds,
        navigation_begun(status).status == status,
        navigation_begun(status).last_error is None,
        !navigation_begun(status).recovering,
        navigation_begun(status).recovery_attempts == 0,
        navigation_begun(status).stalled_for_seconds == 0,
{
}

/// A route that cannot be understood is reported as such, with the reason.
pub proof fn invalid_routes_are_reported(error: Seq<char>)
    ensures
        bool_member(invalid_route_reply(error), "ok"@) == Some(false),
        str_member(invalid_route_reply(error), "status"@) == Some("invalid_path_response"@),
        str_member(invalid_route_reply(error), "error"@) == Some(error),
{
    reveal_strlit("ok");
    reveal_strlit("status");
    reveal_strlit("error");
    assert("ok"@.len() == 2 && "status"@.len() == 6 && "error"@.len() == 5);
}

} // verus!
