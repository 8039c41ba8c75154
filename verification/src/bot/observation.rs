//! Local voxel observations and controller-state enrichment.
//!
//! Positions are floored and formatted by the caller, in floating point.

use super::chat::{escaped, json_escape};
use super::entities::{Players, RemoteView};
use super::navigation::{
    arrival_kind, points_left, ArrivalView, GoalView, MoveGoal, NavigationSnapshot, NavigationView,
};
use crate::json::{
    bool_member, bool_value, int_value, json_text, json_value, member_of, members_of, null_value,
    opt_str, opt_str_value, parse_value, parsed_json, set_member, str_member, str_value, str_view,
    takes_members, u64_member, unsigned_value, value_text, JsonValue,
};
use crate::text::{dec, push_dec};
use crate::trace::{truth, truth_text};
use crate::types::IVec3;
use crate::world::{air_or_ignore, name_of_node, node_at, World, WorldView};
use vstd::arithmetic::div_mod::lemma_fundamental_div_mod_converse;
use vstd::prelude::*;
use vstd::string::*;

verus! {

/// The direction to the left.
pub open spec fn left_of(facing: Seq<char>) -> Seq<char> {
    if facing == "north"@ {
        "west"@
    } else if facing == "west"@ {
        "south"@
    } else if facing == "south"@ {
        "east"@
    } else if facing == "east"@ {
        "north"@
    } else {
        "north"@
    }
}

pub fn turn_left(facing: &str) -> (turned: &'static str)
    ensures
        turned@ == left_of(facing@),
{
    let name = facing.to_owned();
    if name == "north".to_owned() {
        "west"
    } else if name == "west".to_owned() {
        "south"
    } else if name == "south".to_owned() {
        "east"
    } else if name == "east".to_owned() {
        "north"
    } else {
        "north"
    }
}

/// The direction to the right.
pub open spec fn right_of(facing: Seq<char>) -> Seq<char> {
    if facing == "north"@ {
        "east"@
    } else if facing == "east"@ {
        "south"@
    } else if facing == "south"@ {
        "west"@
    } else if facing == "west"@ {
        "north"@
    } else {
        "north"@
    }
}

pub fn turn_right(facing: &str) -> (turned: &'static str)
    ensures
        turned@ == right_of(facing@),
{
    let name = facing.to_owned();
    if name == "north".to_owned() {
        "east"
    } else if name == "east".to_owned() {
        "south"
    } else if name == "south".to_owned() {
        "west"
    } else if name == "west".to_owned() {
        "north"
    } else {
        "north"
    }
}

/// The opposite direction.
pub open spec fn behind(facing: Seq<char>) -> Seq<char> {
    if facing == "north"@ {
        "south"@
    } else if facing == "south"@ {
        "north"@
    } else if facing == "east"@ {
        "west"@
    } else if facing == "west"@ {
        "east"@
    } else {
        "south"@
    }
}

pub fn turn_back(facing: &str) -> (turned: &'static str)
    ensures
        turned@ == behind(facing@),
{
    let name = facing.to_owned();
    if name == "north".to_owned() {
        "south"
    } else if name == "south".to_owned() {
        "north"
    } else if name == "east".to_owned() {
        "west"
    } else if name == "west".to_owned() {
        "east"
    } else {
        "south"
    }
}

/// One step in a direction, along x and along z.
pub open spec fn step_of(facing: Seq<char>) -> (int, int) {
    if facing == "north"@ {
        (0int, 1int)
    } else if facing == "south"@ {
        (0int, -1int)
    } else if facing == "east"@ {
        (1int, 0int)
    } else if facing == "west"@ {
        (-1int, 0int)
    } else {
        (0int, 1int)
    }
}

pub fn offset_from_facing(facing: &str) -> (step: (i32, i32))
    ensures
        (step.0 as int, step.1 as int) == step_of(facing@),
        -1 <= step.0 <= 1,
        -1 <= step.1 <= 1,
{
    let name = facing.to_owned();
    if name == "north".to_owned() {
        (0, 1)
    } else if name == "south".to_owned() {
        (0, -1)
    } else if name == "east".to_owned() {
        (1, 0)
    } else if name == "west".to_owned() {
        (-1, 0)
    } else {
        (0, 1)
    }
}

pub open spec fn is_facing(facing: Seq<char>) -> bool {
    facing == "north"@ || facing == "south"@ || facing == "east"@ || facing == "west"@
}

/// Left and right undo each other, two turns to one side make a turn around, and a
/// step back undoes a step.
pub proof fn turns_undo_each_other(facing: Seq<char>)
    requires
        is_facing(facing),
    ensures
        right_of(left_of(facing)) == facing,
        left_of(right_of(facing)) == facing,
        behind(behind(facing)) == facing,
        left_of(left_of(facing)) == behind(facing),
        right_of(right_of(facing)) == behind(facing),
        step_of(behind(facing)).0 == -step_of(facing).0,
        step_of(behind(facing)).1 == -step_of(facing).1,
        is_facing(left_of(facing)) && is_facing(right_of(facing)) && is_facing(behind(facing)),
{
    reveal_strlit("north");
    reveal_strlit("south");
    reveal_strlit("east");
    reveal_strlit("west");
    assert("north"@.len() == 5 && "south"@.len() == 5 && "east"@.len() == 4 && "west"@.len() == 4);
    assert("north"@[0] == 'n' && "south"@[0] == 's' && "east"@[0] == 'e' && "west"@[0] == 'w');
}

/// What is at a place: air, something solid, or nothing that is known.
pub open spec fn kind_at(w: WorldView, p: IVec3) -> Seq<char> {
    match node_at(w, p) {
        Some(node) => if air_or_ignore(node) {
            "air"@
        } else {
            "solid"@
        },
        None => "unknown"@,
    }
}

pub fn obstacle_kind(world: &World, pos: IVec3) -> (kind: &'static str)
    requires
        world.wf(),
    ensures
        kind@ == kind_at(world@, pos),
{
    match world.get_node(pos) {
        Some(node) => if world.is_air_or_ignore(node) {
            "air"
        } else {
            "solid"
        },
        None => "unknown",
    }
}

/// The edge of a cube.
pub open spec fn side_of(radius: int) -> int {
    if radius < 0 {
        0
    } else {
        2 * radius + 1
    }
}

/// The `n`th place of a cube, by height, then along x, then along z.
pub open spec fn cube_place(center: IVec3, radius: int, n: int) -> (int, int, int) {
    let side = side_of(radius);
    (
        center.x - radius + (n / side) % side,
        center.y - radius + n / (side * side),
        center.z - radius + n % side,
    )
}

pub open spec fn place_pos(p: (int, int, int)) -> IVec3 {
    IVec3 { x: p.0 as i32, y: p.1 as i32, z: p.2 as i32 }
}

/// What the node at a place is called.
pub open spec fn place_name(w: WorldView, p: (int, int, int)) -> Seq<char> {
    match node_at(w, place_pos(p)) {
        Some(node) => name_of_node(w, node),
        None => "unknown"@,
    }
}

/// One node in JSON.
pub open spec fn node_text(w: WorldView, p: (int, int, int)) -> Seq<char> {
    "{\"pos\":["@ + dec(p.0) + ","@ + dec(p.1) + ","@ + dec(p.2) + "],\"name\":\""@ + escaped(
        place_name(w, p),
    ) + "\"}"@
}

/// The first `n` nodes of a cube in JSON, with commas between them.
pub open spec fn nodes_text(w: WorldView, center: IVec3, radius: int, n: nat) -> Seq<char>
    decreases n,
{
    if n == 0 {
        seq![]
    } else if n == 1 {
        node_text(w, cube_place(center, radius, 0))
    } else {
        nodes_text(w, center, radius, (n - 1) as nat) + ","@ + node_text(
            w,
            cube_place(center, radius, n - 1),
        )
    }
}

/// A cube around a place lies within the coordinates that there are, and its nodes
/// can be counted.
pub open spec fn cube_fits(center: IVec3, radius: int) -> bool {
    &&& radius <= 0xffff
    &&& i32::MIN <= center.x - radius && center.x + radius <= i32::MAX
    &&& i32::MIN <= center.y - radius && center.y + radius <= i32::MAX
    &&& i32::MIN <= center.z - radius && center.z + radius <= i32::MAX
}

fn push_node(out: &mut String, world: &World, p: IVec3)
    requires
        world.wf(),
    ensures
        final(out)@ == old(out)@ + node_text(world@, (p.x as int, p.y as int, p.z as int)),
{
    let name = match world.get_node(p) {
        Some(node) => world.node_name(node),
        None => "unknown".to_owned(),
    };
    out.append("{\"pos\":[");
    push_dec(out, p.x as i64);
    out.append(",");
    push_dec(out, p.y as i64);
    out.append(",");
    push_dec(out, p.z as i64);
    out.append("],\"name\":\"");
    out.append(json_escape(name.as_str()).as_str());
    out.append("\"}");
    assert(out@ =~= old(out)@ + node_text(world@, (p.x as int, p.y as int, p.z as int)));
}

proof fn cube_offsets(n: int, side: int)
    requires
        0 < side,
        0 <= n < side * side * side,
    ensures
        0 <= n / (side * side) < side,
        0 <= (n / side) % side < side,
        0 <= n % side < side,
{
    assert(0 <= n / (side * side) < side) by (nonlinear_arith)
        requires
            0 < side,
            0 <= n < side * side * side,
    ;
    assert(n / side >= 0) by (nonlinear_arith)
        requires
            0 < side,
            0 <= n,
    ;
}

fn build_nodes(world: &World, center: IVec3, radius: i32) -> (out: String)
    requires
        world.wf(),
        cube_fits(center, radius as int),
    ensures
        out@ == nodes_text(
            world@,
            center,
            radius as int,
            (side_of(radius as int) * side_of(radius as int) * side_of(radius as int)) as nat,
        ),
{
    let mut out = String::new();
    if radius < 0 {
        assert(out@ =~= nodes_text(world@, center, radius as int, 0));
        return out;
    }
    let side: i64 = 2 * radius as i64 + 1;
    assert(0 < side * side <= 0x4_0000_0000) by (nonlinear_arith)
        requires
            0 < side <= 0x1_ffff,
    ;
    let plane: i64 = side * side;
    assert(0 < plane * side <= 0x8_0000_0000_0000) by (nonlinear_arith)
        requires
            0 < side <= 0x1_ffff,
            0 < plane <= 0x4_0000_0000,
    ;
    let total: i64 = plane * side;
    let mut n: i64 = 0;
    assert(out@ =~= nodes_text(world@, center, radius as int, 0));
    while n < total
        invariant
            0 <= n <= total,
            0 <= radius,
            side == 2 * radius + 1,
            side == side_of(radius as int),
            plane == side * side,
            total == plane * side,
            0 < plane,
            total <= 0x8_0000_0000_0000,
            world.wf(),
            cube_fits(center, radius as int),
            out@ == nodes_text(world@, center, radius as int, n as nat),
        decreases total - n,
    {
        proof {
            cube_offsets(n as int, side as int);
        }
        let p = IVec3 {
            x: (center.x as i64 - radius as i64 + (n / side) % side) as i32,
            y: (center.y as i64 - radius as i64 + n / plane) as i32,
            z: (center.z as i64 - radius as i64 + n % side) as i32,
        };
        assert((p.x as int, p.y as int, p.z as int) == cube_place(center, radius as int, n as int));
        if n > 0 {
            out.append(",");
        }
        push_node(&mut out, world, p);
        n = n + 1;
        assert(out@ =~= nodes_text(world@, center, radius as int, n as nat));
    }
    out
}

/// Texts with commas between them.
pub open spec fn with_commas(parts: Seq<Seq<char>>) -> Seq<char>
    decreases parts.len(),
{
    if parts.len() == 0 {
        seq![]
    } else if parts.len() == 1 {
        parts[0]
    } else {
        with_commas(parts.drop_last()) + ","@ + parts.last()
    }
}

/// A player in JSON, by its distance along the axes.
pub open spec fn item_text(name: Seq<char>, dx: int, dy: int, dz: int) -> Seq<char> {
    "{\"type\":\"player\",\"name\":\""@ + escaped(name) + "\",\"dx\":"@ + dec(dx) + ",\"dy\":"@
        + dec(dy) + ",\"dz\":"@ + dec(dz) + "}"@
}

pub open spec fn beyond(d: int, radius: int) -> bool {
    d > radius || -d > radius
}

/// A player is reported unless it is the one that is followed or too far away.
pub open spec fn item_visible(
    name: Seq<char>,
    place: IVec3,
    center: IVec3,
    radius: int,
    followed: Option<Seq<char>>,
) -> bool {
    &&& followed != Some(name)
    &&& !beyond(place.x - center.x, radius)
    &&& !beyond(place.y - center.y, radius)
    &&& !beyond(place.z - center.z, radius)
}

/// The players that are reported, among the first `n`. `places` are their places
/// in nodes.
pub open spec fn items(
    players: Seq<(u16, RemoteView)>,
    places: Seq<IVec3>,
    center: IVec3,
    radius: int,
    followed: Option<Seq<char>>,
    n: nat,
) -> Seq<Seq<char>>
    decreases n,
{
    if n == 0 {
        seq![]
    } else {
        let before = items(players, places, center, radius, followed, (n - 1) as nat);
        let name = players[n - 1].1.name;
        let place = places[n - 1];
        if item_visible(name, place, center, radius, followed) {
            before.push(
                item_text(name, place.x - center.x, place.y - center.y, place.z - center.z),
            )
        } else {
            before
        }
    }
}

/// Who is followed.
pub open spec fn followed(enabled: bool, target: Option<Seq<char>>) -> Option<Seq<char>> {
    if enabled {
        target
    } else {
        None
    }
}

fn is_beyond(d: i64, radius: i32) -> (yes: bool)
    requires
        -0x1_0000_0000 <= d <= 0x1_0000_0000,
    ensures
        yes == beyond(d as int, radius as int),
{
    d > radius as i64 || -d > radius as i64
}

fn build_item(name: &str, dx: i64, dy: i64, dz: i64) -> (out: String)
    ensures
        out@ == item_text(name@, dx as int, dy as int, dz as int),
{
    let mut out = "{\"type\":\"player\",\"name\":\"".to_owned();
    out.append(json_escape(name).as_str());
    out.append("\",\"dx\":");
    push_dec(&mut out, dx);
    out.append(",\"dy\":");
    push_dec(&mut out, dy);
    out.append(",\"dz\":");
    push_dec(&mut out, dz);
    out.append("}");
    out
}

fn build_items(
    players: &Players,
    places: &Vec<IVec3>,
    center: IVec3,
    radius: i32,
    follow_enabled: bool,
    follow_target: Option<&str>,
) -> (out: String)
    requires
        places@.len() == players@.len(),
    ensures
        out@ == with_commas(
            items(
                players@,
                places@,
                center,
                radius as int,
                followed(follow_enabled, str_view(follow_target)),
                players@.len(),
            ),
        ),
{
    let ghost target = followed(follow_enabled, str_view(follow_target));
    let mut out = String::new();
    let mut count: usize = 0;
    let mut i: usize = 0;
    assert(out@ =~= with_commas(items(players@, places@, center, radius as int, target, 0)));
    while i < players.len()
        invariant
            i <= players@.len(),
            places@.len() == players@.len(),
            target == followed(follow_enabled, str_view(follow_target)),
            count == items(players@, places@, center, radius as int, target, i as nat).len(),
            count <= i,
            out@ == with_commas(items(players@, places@, center, radius as int, target, i as nat)),
        decreases players@.len() - i,
    {
        let (_, info) = players.entry(i);
        let place: IVec3 = places[i];
        let dx: i64 = place.x as i64 - center.x as i64;
        let dy: i64 = place.y as i64 - center.y as i64;
        let dz: i64 = place.z as i64 - center.z as i64;
        let skipped = match follow_target {
            Some(target) => follow_enabled && info.name == target.to_owned(),
            None => false,
        };
        let ghost before = items(players@, places@, center, radius as int, target, i as nat);
        if !skipped && !is_beyond(dx, radius) && !is_beyond(dy, radius) && !is_beyond(dz, radius) {
            let item = build_item(info.name.as_str(), dx, dy, dz);
            let ghost after = before.push(item@);
            assert(after.drop_last() =~= before);
            if count > 0 {
                out.append(",");
            }
            out.append(item.as_str());
            count = count + 1;
            assert(out@ =~= with_commas(after));
        }
        i = i + 1;
    }
    out
}

/// What the four sides are called, and in which direction they are.
pub open spec fn side_text(w: WorldView, center: IVec3, label: Seq<char>, facing: Seq<char>) -> Seq<char> {
    let (dx, dz) = step_of(facing);
    let place = IVec3 { x: (center.x + dx) as i32, y: center.y, z: (center.z + dz) as i32 };
    "\""@ + label + "\":\""@ + kind_at(w, place) + "\""@
}

pub open spec fn obstacles_text(w: WorldView, center: IVec3, facing: Seq<char>) -> Seq<char> {
    side_text(w, center, "front"@, facing) + ","@ + side_text(w, center, "left"@, left_of(facing))
        + ","@ + side_text(w, center, "right"@, right_of(facing)) + ","@ + side_text(
        w,
        center,
        "back"@,
        behind(facing),
    )
}

/// The places next to a node are within the coordinates that there are.
pub open spec fn neighbours_fit(center: IVec3) -> bool {
    i32::MIN < center.x < i32::MAX && i32::MIN < center.z < i32::MAX
}

fn build_side(world: &World, center: IVec3, label: &str, facing: &str) -> (out: String)
    requires
        world.wf(),
        neighbours_fit(center),
    ensures
        out@ == side_text(world@, center, label@, facing@),
{
    let (dx, dz) = offset_from_facing(facing);
    let place = IVec3 { x: center.x + dx, y: center.y, z: center.z + dz };
    let mut out = "\"".to_owned();
    out.append(label);
    out.append("\":\"");
    out.append(obstacle_kind(world, place));
    out.append("\"");
    out
}

fn build_obstacles(world: &World, center: IVec3, facing: &str) -> (out: String)
    requires
        world.wf(),
        neighbours_fit(center),
    ensures
        out@ == obstacles_text(world@, center, facing@),
{
    let mut out = build_side(world, center, "front", facing);
    out.append(",");
    out.append(build_side(world, center, "left", turn_left(facing)).as_str());
    out.append(",");
    out.append(build_side(world, center, "right", turn_right(facing)).as_str());
    out.append(",");
    out.append(build_side(world, center, "back", turn_back(facing)).as_str());
    out
}

/// What the caller computes of a goal, in nodes.
#[derive(Debug)]
pub struct GoalFacts {
    /// The target with two decimals.
    pub x: String,
    pub y: String,
    pub z: String,
    /// The target as an array of numbers.
    pub target: serde_json::Value,
    /// The next point as an array of numbers.
    pub waypoint: serde_json::Value,
    /// The last waypoint is near the target.
    pub last_near_target: bool,
}

/// The state of the navigation in JSON.
pub open spec fn navigation_json(
    n: NavigationView,
    stalled: JsonValue,
    goal: Option<(GoalView, GoalFacts)>,
) -> JsonValue {
    JsonValue::Object(
        Map::empty().insert("status"@, JsonValue::Str(n.status)).insert(
            "current_waypoint"@,
            match goal {
                Some((_, facts)) => json_value(facts.waypoint),
                None => JsonValue::Null,
            },
        ).insert(
            "waypoints_remaining"@,
            JsonValue::Int(
                match goal {
                    Some((g, facts)) => points_left(g, facts.last_near_target),
                    None => 0,
                },
            ),
        ).insert("recovering"@, JsonValue::Bool(n.recovering)).insert(
            "recovery_attempts"@,
            JsonValue::Int(n.recovery_attempts as int),
        ).insert("stalled_for_seconds"@, stalled).insert("last_error"@, opt_str(n.last_error)).insert(
            "arrival_action"@,
            match goal {
                Some((g, _)) => match g.arrival_action {
                    Some(action) => JsonValue::Str(arrival_kind(action)),
                    None => JsonValue::Null,
                },
                None => JsonValue::Null,
            },
        ),
    )
}

pub open spec fn goal_pair(goal: Option<(&MoveGoal, &GoalFacts)>) -> Option<(GoalView, GoalFacts)> {
    match goal {
        Some((g, facts)) => Some((g@, *facts)),
        None => None,
    }
}

/// A goal whose points can be counted.
pub open spec fn countable(goal: Option<(&MoveGoal, &GoalFacts)>) -> bool {
    match goal {
        Some((g, _)) => g@.waypoints.len() < usize::MAX,
        None => true,
    }
}

/// The state of the navigation. `stalled` is the time without progress as a number.
pub fn navigation_observation(
    navigation: &NavigationSnapshot,
    stalled: &serde_json::Value,
    goal: Option<(&MoveGoal, &GoalFacts)>,
) -> (v: serde_json::Value)
    requires
        countable(goal),
    ensures
        json_value(v) == navigation_json(navigation@, json_value(*stalled), goal_pair(goal)),
{
    let (waypoint, remaining, action): (serde_json::Value, usize, Option<&str>) = match goal {
        Some((g, facts)) => (
            facts.waypoint.clone(),
            g.remaining_waypoints(facts.last_near_target),
            match &g.arrival_action {
                Some(a) => Some(a.kind()),
                None => None,
            },
        ),
        None => (null_value(), 0, None),
    };
    let last_error = match &navigation.last_error {
        Some(e) => Some(e.as_str()),
        None => None,
    };
    let mut v = null_value();
    set_member(&mut v, "status", str_value(navigation.status));
    set_member(&mut v, "current_waypoint", waypoint);
    set_member(&mut v, "waypoints_remaining", unsigned_value(remaining as u64));
    set_member(&mut v, "recovering", bool_value(navigation.recovering));
    set_member(&mut v, "recovery_attempts", int_value(navigation.recovery_attempts as i64));
    set_member(&mut v, "stalled_for_seconds", stalled.clone());
    set_member(&mut v, "last_error", opt_str_value(last_error));
    set_member(&mut v, "arrival_action", opt_str_value(action));
    v
}

/// What the bot is doing, in JSON.
pub open spec fn controller_text(
    follow_enabled: bool,
    follow_target: Option<Seq<char>>,
    goal: Option<(GoalView, GoalFacts)>,
    n: NavigationView,
    stalled: JsonValue,
) -> Seq<char> {
    "\"controller\":{\"follow_enabled\":"@ + truth(follow_enabled) + (match follow_target {
        Some(target) => ",\"follow_target\":\""@ + escaped(target) + "\""@,
        None => ",\"follow_target\":null"@,
    }) + ",\"move_active\":"@ + truth(goal is Some) + (match goal {
        Some((_, facts)) => ",\"move_target\":["@ + facts.x@ + ","@ + facts.y@ + ","@ + facts.z@
            + "]"@,
        None => ",\"move_target\":null"@,
    }) + ",\"navigation\":"@ + json_text(navigation_json(n, stalled, goal)) + "},"@
}

fn build_controller(
    follow_enabled: bool,
    follow_target: Option<&str>,
    goal: Option<(&MoveGoal, &GoalFacts)>,
    navigation: &NavigationSnapshot,
    stalled: &serde_json::Value,
) -> (out: String)
    requires
        countable(goal),
    ensures
        out@ == controller_text(
            follow_enabled,
            str_view(follow_target),
            goal_pair(goal),
            navigation@,
            json_value(*stalled),
        ),
{
    let mut target_part = ",\"follow_target\":null".to_owned();
    if let Some(target) = follow_target {
        target_part = ",\"follow_target\":\"".to_owned();
        target_part.append(json_escape(target).as_str());
        target_part.append("\"");
    }
    let mut move_part = ",\"move_target\":null".to_owned();
    if let Some((_, facts)) = goal {
        move_part = ",\"move_target\":[".to_owned();
        move_part.append(facts.x.as_str());
        move_part.append(",");
        move_part.append(facts.y.as_str());
        move_part.append(",");
        move_part.append(facts.z.as_str());
        move_part.append("]");
    }
    let mut out = "\"controller\":{\"follow_enabled\":".to_owned();
    out.append(truth_text(follow_enabled));
    out.append(target_part.as_str());
    out.append(",\"move_active\":");
    out.append(truth_text(goal.is_some()));
    out.append(move_part.as_str());
    out.append(",\"navigation\":");
    out.append(value_text(&navigation_observation(navigation, stalled, goal)).as_str());
    out.append("},");
    out
}

/// What the bot is after, in JSON.
pub open spec fn purpose_text(follow_enabled: bool, follow_target: Option<Seq<char>>) -> Seq<char> {
    if follow_enabled {
        match follow_target {
            Some(target) => "\"goal\":\"follow "@ + escaped(target) + "\""@,
            None => "\"goal\":\"follow\""@,
        }
    } else {
        "\"goal\":\"idle\""@
    }
}

fn build_purpose(follow_enabled: bool, follow_target: Option<&str>) -> (out: String)
    ensures
        out@ == purpose_text(follow_enabled, str_view(follow_target)),
{
    if !follow_enabled {
        return "\"goal\":\"idle\"".to_owned();
    }
    match follow_target {
        Some(target) => {
            let mut out = "\"goal\":\"follow ".to_owned();
            out.append(json_escape(target).as_str());
            out.append("\"");
            out
        },
        None => "\"goal\":\"follow\"".to_owned(),
    }
}

/// What the bot sees around it: nodes, players, obstacles, and what it does.
pub open spec fn observe_text(
    center: IVec3,
    facing: Seq<char>,
    radius: int,
    w: WorldView,
    players: Seq<(u16, RemoteView)>,
    places: Seq<IVec3>,
    follow_enabled: bool,
    follow_target: Option<Seq<char>>,
    goal: Option<(GoalView, GoalFacts)>,
    n: NavigationView,
    stalled: JsonValue,
) -> Seq<char> {
    let side = side_of(radius);
    "{\"health\":null,\"position\":["@ + dec(center.x as int) + ","@ + dec(center.y as int) + ","@
        + dec(center.z as int) + "],\"facing\":\""@ + facing + "\",\"nodes\":["@ + nodes_text(
        w,
        center,
        radius,
        (side * side * side) as nat,
    ) + "],\"hostiles\":[],\"items\":["@ + with_commas(
        items(
            players,
            places,
            center,
            radius,
            followed(follow_enabled, follow_target),
            players.len(),
        ),
    ) + "],\"obstacles\":{"@ + obstacles_text(w, center, facing) + "},"@ + controller_text(
        follow_enabled,
        follow_target,
        goal,
        n,
        stalled,
    ) + purpose_text(follow_enabled, follow_target) + "}"@
}

/// Reports what the bot sees. `center` is the node that it is in, `facing` the
/// direction in which it looks, and `places` the nodes that the players are in.
pub fn build_observe_json(
    center: IVec3,
    facing: &str,
    radius: i32,
    world: &World,
    players: &Players,
    places: &Vec<IVec3>,
    follow_enabled: bool,
    follow_target: Option<&str>,
    goal: Option<(&MoveGoal, &GoalFacts)>,
    navigation: &NavigationSnapshot,
    stalled: &serde_json::Value,
) -> (out: String)
    requires
        world.wf(),
        cube_fits(center, radius as int),
        neighbours_fit(center),
        places@.len() == players@.len(),
        countable(goal),
    ensures
        out@ == observe_text(
            center,
            facing@,
            radius as int,
            world@,
            players@,
            places@,
            follow_enabled,
            str_view(follow_target),
            goal_pair(goal),
            navigation@,
            json_value(*stalled),
        ),
{
    let mut out = "{\"health\":null,\"position\":[".to_owned();
    push_dec(&mut out, center.x as i64);
    out.append(",");
    push_dec(&mut out, center.y as i64);
    out.append(",");
    push_dec(&mut out, center.z as i64);
    out.append("],\"facing\":\"");
    out.append(facing);
    out.append("\",\"nodes\":[");
    out.append(build_nodes(world, center, radius).as_str());
    out.append("],\"hostiles\":[],\"items\":[");
    out.append(
        build_items(players, places, center, radius, follow_enabled, follow_target).as_str(),
    );
    out.append("],\"obstacles\":{");
    out.append(build_obstacles(world, center, facing).as_str());
    out.append("},");
    out.append(
        build_controller(follow_enabled, follow_target, goal, navigation, stalled).as_str(),
    );
    out.append(build_purpose(follow_enabled, follow_target).as_str());
    out.append("}");
    out
}

/// What the bot is doing, as a member of the server's observation.
pub open spec fn controller_json(
    follow_enabled: bool,
    follow_target: Option<Seq<char>>,
    goal: Option<(GoalView, GoalFacts)>,
    n: NavigationView,
    stalled: JsonValue,
) -> JsonValue {
    JsonValue::Object(
        Map::empty().insert("follow_enabled"@, JsonValue::Bool(follow_enabled)).insert(
            "follow_target"@,
            opt_str(follow_target),
        ).insert("move_active"@, JsonValue::Bool(goal is Some)).insert(
            "move_target"@,
            match goal {
                Some((_, facts)) => json_value(facts.target),
                None => JsonValue::Null,
            },
        ).insert("navigation"@, navigation_json(n, stalled, goal)),
    )
}

/// The server's observation can be given members.
pub open spec fn enrichable(v: JsonValue) -> bool {
    v is Object || v is Null
}

/// The server's observation with what the bot is doing.
pub open spec fn enriched(v: JsonValue, controller: JsonValue) -> JsonValue {
    JsonValue::Object(members_of(v).insert("controller"@, controller))
}

/// Adds what the bot is doing to the server's observation.
pub fn enrich_value(
    value: &mut serde_json::Value,
    follow_enabled: bool,
    follow_target: Option<&str>,
    goal: Option<(&MoveGoal, &GoalFacts)>,
    navigation: &NavigationSnapshot,
    stalled: &serde_json::Value,
)
    requires
        enrichable(json_value(*old(value))),
        countable(goal),
    ensures
        json_value(*final(value)) == enriched(
            json_value(*old(value)),
            controller_json(
                follow_enabled,
                str_view(follow_target),
                goal_pair(goal),
                navigation@,
                json_value(*stalled),
            ),
        ),
{
    let move_target = match goal {
        Some((_, facts)) => facts.target.clone(),
        None => null_value(),
    };
    let mut controller = null_value();
    set_member(&mut controller, "follow_enabled", bool_value(follow_enabled));
    set_member(&mut controller, "follow_target", opt_str_value(follow_target));
    set_member(&mut controller, "move_active", bool_value(goal.is_some()));
    set_member(&mut controller, "move_target", move_target);
    set_member(
        &mut controller,
        "navigation",
        navigation_observation(navigation, stalled, goal),
    );
    set_member(value, "controller", controller);
}

/// The text of the server's observation with what the bot is doing; a text that is
/// no JSON stays as it is.
pub open spec fn enriched_text(raw: Seq<char>, controller: JsonValue) -> Seq<char> {
    match parsed_json(raw) {
        Ok(v) => json_text(enriched(v, controller)),
        Err(_) => raw,
    }
}

/// The text is no JSON, or JSON that can be given members.
pub open spec fn enrichable_text(raw: Seq<char>) -> bool {
    match parsed_json(raw) {
        Ok(v) => enrichable(v),
        Err(_) => true,
    }
}

/// Adds what the bot is doing to the text of the server's observation, if members
/// can be added to it.
pub fn try_enrich_server_observation(
    raw: &str,
    follow_enabled: bool,
    follow_target: Option<&str>,
    goal: Option<(&MoveGoal, &GoalFacts)>,
    navigation: &NavigationSnapshot,
    stalled: &serde_json::Value,
) -> (text: Option<String>)
    requires
        countable(goal),
    ensures
        match text {
            Some(t) => enrichable_text(raw@) && t@ == enriched_text(
                raw@,
                controller_json(
                    follow_enabled,
                    str_view(follow_target),
                    goal_pair(goal),
                    navigation@,
                    json_value(*stalled),
                ),
            ),
            None => !enrichable_text(raw@),
        },
{
    if let Ok(value) = parse_value(raw) {
        if !takes_members(&value) {
            return None;
        }
    }
    Some(
        enrich_server_observation(
            raw,
            follow_enabled,
            follow_target,
            goal,
            navigation,
            stalled,
        ),
    )
}

/// Adds what the bot is doing to the text of the server's observation.
pub fn enrich_server_observation(
    raw: &str,
    follow_enabled: bool,
    follow_target: Option<&str>,
    goal: Option<(&MoveGoal, &GoalFacts)>,
    navigation: &NavigationSnapshot,
    stalled: &serde_json::Value,
) -> (text: String)
    requires
        enrichable_text(raw@),
        countable(goal),
    ensures
        text@ == enriched_text(
            raw@,
            controller_json(
                follow_enabled,
                str_view(follow_target),
                goal_pair(goal),
                navigation@,
                json_value(*stalled),
            ),
        ),
{
    match parse_value(raw) {
        Ok(mut value) => {
            enrich_value(
                &mut value,
                follow_enabled,
                follow_target,
                goal,
                navigation,
                stalled,
            );
            value_text(&value)
        },
        Err(_) => raw.to_owned(),
    }
}

/// Enriching leaves the other members of the server's observation alone, and says
/// what the bot is doing.
pub proof fn enriching_keeps_the_observation(v: JsonValue, controller: JsonValue, key: Seq<char>)
    requires
        enrichable(v),
    ensures
        members_of(enriched(v, controller))["controller"@] == controller,
        key != "controller"@ ==> members_of(enriched(v, controller)).dom().contains(key)
            == members_of(v).dom().contains(key) && (members_of(v).dom().contains(key)
            ==> members_of(enriched(v, controller))[key] == members_of(v)[key]),
{
}

/// A turn to the left turns a step a quarter counterclockwise, one to the right clockwise. North
/// is along the z axis and east along the x axis.
pub proof fn turns_are_quarter_turns(facing: Seq<char>)
    requires
        is_facing(facing),
    ensures
        step_of(left_of(facing)).0 == -step_of(facing).1,
        step_of(left_of(facing)).1 == step_of(facing).0,
        step_of(right_of(facing)).0 == step_of(facing).1,
        step_of(right_of(facing)).1 == -step_of(facing).0,
        step_of("north"@) == (0int, 1int),
        step_of("east"@) == (1int, 0int),
        step_of("south"@) == (0int, -1int),
        step_of("west"@) == (-1int, 0int),
{
    reveal_strlit("north");
    reveal_strlit("south");
    reveal_strlit("east");
    reveal_strlit("west");
    assert("north"@.len() == 5 && "south"@.len() == 5 && "east"@.len() == 4 && "west"@.len() == 4);
    assert("north"@[0] == 'n' && "south"@[0] == 's' && "east"@[0] == 'e' && "west"@[0] == 'w');
}

/// Every place of the cube has its turn: the place at any offset is walked through once.
pub proof fn every_place_has_its_turn(center: IVec3, radius: int, dx: int, dy: int, dz: int)
    requires
        0 <= radius,
        -radius <= dx <= radius,
        -radius <= dy <= radius,
        -radius <= dz <= radius,
    ensures
        ({
            let side = 2 * radius + 1;
            let n = (dy + radius) * (side * side) + (dx + radius) * side + (dz + radius);
            &&& 0 <= n < side * side * side
            &&& cube_place(center, radius, n) == (center.x + dx, center.y + dy, center.z + dz)
        }),
{
    let side = 2 * radius + 1;
    let a = dy + radius;
    let b = dx + radius;
    let c = dz + radius;
    let n = a * (side * side) + b * side + c;
    let row = a * side + b;
    assert(n == row * side + c) by (nonlinear_arith)
        requires
            n == a * (side * side) + b * side + c,
            row == a * side + b,
    ;
    lemma_fundamental_div_mod_converse(n, side, row, c);
    lemma_fundamental_div_mod_converse(row, side, a, b);
    assert(0 <= b * side + c < side * side) by (nonlinear_arith)
        requires
            0 <= b < side,
            0 <= c < side,
    ;
    lemma_fundamental_div_mod_converse(n, side * side, a, b * side + c);
    assert(0 <= n < side * side * side) by (nonlinear_arith)
        requires
            0 <= a < side,
            0 <= b < side,
            0 <= c < side,
            n == a * (side * side) + b * side + c,
    ;
}

/// Each node is reported with its place and its name, one behind the other with a comma between
/// them.
pub proof fn nodes_are_reported_in_turn(w: WorldView, center: IVec3, radius: int, n: nat)
    ensures
        nodes_text(w, center, radius, 0) == Seq::<char>::empty(),
        nodes_text(w, center, radius, 1) == node_text(w, cube_place(center, radius, 0)),
        n > 0 ==> nodes_text(w, center, radius, n + 1) == nodes_text(w, center, radius, n) + ","@
            + node_text(w, cube_place(center, radius, n as int)),
        ({
            let p = cube_place(center, radius, n as int);
            let known = node_at(w, IVec3 { x: p.0 as i32, y: p.1 as i32, z: p.2 as i32 });
            node_text(w, p) == "{\"pos\":["@ + dec(p.0) + ","@ + dec(p.1) + ","@ + dec(p.2)
                + "],\"name\":\""@ + escaped(
                match known {
                    Some(node) => name_of_node(w, node),
                    None => "unknown"@,
                },
            ) + "\"}"@
        }),
{
}

/// A player is reported exactly where it is not the one who is followed and is no further away
/// than the radius along any axis, with its distance along each.
pub proof fn near_players_are_reported(
    players: Seq<(u16, RemoteView)>,
    places: Seq<IVec3>,
    center: IVec3,
    radius: int,
    whom: Option<Seq<char>>,
    n: nat,
)
    requires
        n < players.len(),
        n < places.len(),
    ensures
        ({
            let name = players[n as int].1.name;
            let dx = places[n as int].x - center.x;
            let dy = places[n as int].y - center.y;
            let dz = places[n as int].z - center.z;
            let before = items(players, places, center, radius, whom, n);
            let after = items(players, places, center, radius, whom, n + 1);
            if whom != Some(name) && -radius <= dx <= radius && -radius <= dy <= radius && -radius
                <= dz <= radius {
                after == before.push(
                    "{\"type\":\"player\",\"name\":\""@ + escaped(name) + "\",\"dx\":"@ + dec(dx)
                        + ",\"dy\":"@ + dec(dy) + ",\"dz\":"@ + dec(dz) + "}"@,
                )
            } else {
                after == before
            }
        }),
        items(players, places, center, radius, whom, 0) == Seq::<Seq<char>>::empty(),
        followed(true, whom) == whom,
        followed(false, whom) is None,
{
}

/// Obstacles are looked for one step ahead, to the left, to the right and behind, on the same
/// height.
pub proof fn obstacles_are_one_step_away(w: WorldView, center: IVec3, label: Seq<char>)
    requires
        neighbours_fit(center),
    ensures
        side_text(w, center, label, "north"@) == "\""@ + label + "\":\""@ + kind_at(
            w,
            IVec3 { x: center.x, y: center.y, z: (center.z + 1) as i32 },
        ) + "\""@,
        side_text(w, center, label, "south"@) == "\""@ + label + "\":\""@ + kind_at(
            w,
            IVec3 { x: center.x, y: center.y, z: (center.z - 1) as i32 },
        ) + "\""@,
        side_text(w, center, label, "east"@) == "\""@ + label + "\":\""@ + kind_at(
            w,
            IVec3 { x: (center.x + 1) as i32, y: center.y, z: center.z },
        ) + "\""@,
        side_text(w, center, label, "west"@) == "\""@ + label + "\":\""@ + kind_at(
            w,
            IVec3 { x: (center.x - 1) as i32, y: center.y, z: center.z },
        ) + "\""@,
        obstacles_text(w, center, label) == side_text(w, center, "front"@, label) + ","@
            + side_text(w, center, "left"@, left_of(label)) + ","@ + side_text(
            w,
            center,
            "right"@,
            right_of(label),
        ) + ","@ + side_text(w, center, "back"@, behind(label)),
{
    turns_are_quarter_turns("north"@);
}

/// A place is air where there is air or nothing loaded, solid where there is anything else, and
/// unknown where its block has not come.
pub proof fn places_are_air_or_solid(w: WorldView, p: IVec3)
    ensures
        node_at(w, p) is None ==> kind_at(w, p) == "unknown"@,
        node_at(w, p) is Some ==> kind_at(w, p) == if node_at(w, p)->0.content == 0 || node_at(
            w,
            p,
        )->0.content == 127 {
            "air"@
        } else {
            "solid"@
        },
{
}

/// What is reported of the navigation is what it is: its status, whether and how often it has
/// tried to get unstuck, its last error, the points that are left, and what is to be
/// done on arrival.
pub proof fn navigation_is_reported(
    n: NavigationView,
    stalled: JsonValue,
    goal: Option<(GoalView, GoalFacts)>,
)
    ensures
        ({
            let v = navigation_json(n, stalled, goal);
            &&& str_member(v, "status"@) == Some(n.status)
            &&& bool_member(v, "recovering"@) == Some(n.recovering)
            &&& u64_member(v, "recovery_attempts"@) == Some(n.recovery_attempts as u64)
            &&& member_of(v, "stalled_for_seconds"@) == Some(stalled)
            &&& str_member(v, "last_error"@) == n.last_error
            &&& match goal {
                Some((g, facts)) => {
                    &&& member_of(v, "current_waypoint"@) == Some(json_value(facts.waypoint))
                    &&& member_of(v, "waypoints_remaining"@) == Some(
                        JsonValue::Int(
                            if g.waypoints.len() > 0 && facts.last_near_target {
                                g.waypoints.len() as int
                            } else {
                                g.waypoints.len() as int + 1
                            },
                        ),
                    )
                    &&& str_member(v, "arrival_action"@) == match g.arrival_action {
                        Some(ArrivalView::Collect { .. }) => Some("collect"@),
                        Some(ArrivalView::Hunt { .. }) => Some("hunt"@),
                        None => None,
                    }
                },
                None => member_of(v, "current_waypoint"@) == Some(JsonValue::Null) && member_of(
                    v,
                    "waypoints_remaining"@,
                ) == Some(JsonValue::Int(0)) && str_member(v, "arrival_action"@) is None,
            }
        }),
{
    reveal_strlit("status");
    reveal_strlit("current_waypoint");
    reveal_strlit("waypoints_remaining");
    reveal_strlit("recovering");
    reveal_strlit("recovery_attempts");
    reveal_strlit("stalled_for_seconds");
    reveal_strlit("last_error");
    reveal_strlit("arrival_action");
    assert("status"@.len() == 6 && "current_waypoint"@.len() == 16 && "recovering"@.len() == 10);
    assert("waypoints_remaining"@.len() == 19 && "recovery_attempts"@.len() == 17);
    assert("stalled_for_seconds"@.len() == 19 && "last_error"@.len() == 10);
    assert("arrival_action"@.len() == 14);
    assert("waypoints_remaining"@[0] == 'w' && "stalled_for_seconds"@[0] == 's');
    assert("recovering"@[0] == 'r' && "last_error"@[0] == 'l');
}

/// What is reported of the bot is what it does: whom it follows, where it moves, and how its
/// navigation fares.
pub proof fn controller_is_reported(
    follow_enabled: bool,
    follow_target: Option<Seq<char>>,
    goal: Option<(GoalView, GoalFacts)>,
    n: NavigationView,
    stalled: JsonValue,
)
    ensures
        ({
            let v = controller_json(follow_enabled, follow_target, goal, n, stalled);
            &&& bool_member(v, "follow_enabled"@) == Some(follow_enabled)
            &&& str_member(v, "follow_target"@) == follow_target
            &&& bool_member(v, "move_active"@) == Some(goal is Some)
            &&& member_of(v, "move_target"@) == Some(
                match goal {
                    Some((_, facts)) => json_value(facts.target),
                    None => JsonValue::Null,
                },
            )
            &&& member_of(v, "navigation"@) == Some(navigation_json(n, stalled, goal))
        }),
{
    reveal_strlit("follow_enabled");
    reveal_strlit("follow_target");
    reveal_strlit("move_active");
    reveal_strlit("move_target");
    reveal_strlit("navigation");
    assert("follow_enabled"@.len() == 14 && "follow_target"@.len() == 13);
    assert("move_active"@.len() == 11 && "move_target"@.len() == 11 && "navigation"@.len() == 10);
    assert("move_active"@[5] == 'a' && "move_target"@[5] == 't');
}

/// An observation that is JSON is passed on with what the bot does as one more member, and
/// anything else as it is.
pub proof fn observations_are_enriched(raw: Seq<char>, controller: JsonValue)
    ensures
        match parsed_json(raw) {
            Ok(v) => enriched_text(raw, controller) == json_text(enriched(v, controller))
                && member_of(enriched(v, controller), "controller"@) == Some(controller),
            Err(_) => enriched_text(raw, controller) == raw,
        },
{
}

/// An observation names the place, the facing, all nodes of the cube, the players near by, the
/// obstacles, what the bot does and what for, in this order.
pub proof fn observations_are_complete(
    center: IVec3,
    facing: Seq<char>,
    radius: int,
    w: WorldView,
    players: Seq<(u16, RemoteView)>,
    places: Seq<IVec3>,
    whom: Option<Seq<char>>,
    goal: Option<(GoalView, GoalFacts)>,
    n: NavigationView,
    stalled: JsonValue,
)
    requires
        0 <= radius,
    ensures
        ({
            let side = 2 * radius + 1;
            let head = "{\"health\":null,\"position\":["@ + dec(center.x as int) + ","@ + dec(
                center.y as int,
            ) + ","@ + dec(center.z as int) + "],\"facing\":\""@ + facing + "\",\"nodes\":["@
                + nodes_text(w, center, radius, (side * side * side) as nat)
                + "],\"hostiles\":[],\"items\":["@;
            let seen = |hidden: Option<Seq<char>>|
                with_commas(items(players, places, center, radius, hidden, players.len()));
            let middle = "],\"obstacles\":{"@;
            &&& observe_text(
                center,
                facing,
                radius,
                w,
                players,
                places,
                true,
                whom,
                goal,
                n,
                stalled,
            ) == head + seen(whom) + middle + obstacles_text(w, center, facing) + "},"@
                + controller_text(true, whom, goal, n, stalled) + purpose_text(true, whom) + "}"@
            &&& observe_text(
                center,
                facing,
                radius,
                w,
                players,
                places,
                false,
                whom,
                goal,
                n,
                stalled,
            ) == head + seen(None) + middle + obstacles_text(w, center, facing) + "},"@
                + controller_text(false, whom, goal, n, stalled) + purpose_text(false, whom) + "}"@
        }),
        purpose_text(false, whom) == "\"goal\":\"idle\""@,
        purpose_text(true, None) == "\"goal\":\"follow\""@,
        whom is Some ==> purpose_text(true, whom) == "\"goal\":\"follow "@ + escaped(whom->0)
            + "\""@,
{
}

/// What the bot does is told in words too: whether and whom it follows, whether and where it moves,
/// and how its navigation fares.
pub proof fn controller_is_told(
    follows: bool,
    whom: Seq<char>,
    g: GoalView,
    facts: GoalFacts,
    n: NavigationView,
    stalled: JsonValue,
)
    ensures
        controller_text(follows, None, None, n, stalled) == "\"controller\":{\"follow_enabled\":"@
            + truth(follows) + ",\"follow_target\":null"@ + ",\"move_active\":"@ + "false"@
            + ",\"move_target\":null"@ + ",\"navigation\":"@ + json_text(
            navigation_json(n, stalled, None),
        ) + "},"@,
        controller_text(follows, Some(whom), Some((g, facts)), n, stalled)
            == "\"controller\":{\"follow_enabled\":"@ + truth(follows) + (
        ",\"follow_target\":\""@ + escaped(whom) + "\""@) + ",\"move_active\":"@ + "true"@ + (
        ",\"move_target\":["@ + facts.x@ + ","@ + facts.y@ + ","@ + facts.z@ + "]"@)
            + ",\"navigation\":"@ + json_text(navigation_json(n, stalled, Some((g, facts))))
            + "},"@,
        truth(true) == "true"@ && truth(false) == "false"@,
{
}

/// Parts are told one after the other with commas between them.
pub proof fn parts_are_told_with_commas(parts: Seq<Seq<char>>, part: Seq<char>)
    ensures
        with_commas(seq![]) == Seq::<char>::empty(),
        with_commas(seq![part]) == part,
        parts.len() > 0 ==> with_commas(parts.push(part)) == with_commas(parts) + ","@ + part,
{
    assert(parts.push(part).drop_last() =~= parts);
}

} // verus!
