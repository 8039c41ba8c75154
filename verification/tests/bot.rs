//! The bot: chat, routes, tasks and replies.

use luanti_proto_bot::bot::chat::{
    bot_protocol_message, build_chat_json, collect_chat_entries, effective_chat_sender_message,
    extract_chat_player, is_invalid_server_command, is_sender_allowed, json_escape, log_chat,
    normalize_player_name, parse_allowlist, parse_control_command, resolve_unsupported_bot_command,
    ChatLog, ControlCommand,
};
use luanti_proto_bot::bot::navigation::{
    build_move_goal, build_route_goal, invalid_route_response, parse_route, route_response_status,
    ArrivalAction, MoveGoal, NavigationSnapshot, RoutePosition,
};
use luanti_proto_bot::bot::observation::{
    enrich_server_observation, offset_from_facing, try_enrich_server_observation, turn_back,
    turn_left, turn_right, GoalFacts,
};
use luanti_proto_bot::bot::replies::PendingReplies;
use luanti_proto_bot::bot::tasks::crafting::NativeCraftTask;
use luanti_proto_bot::bot::tasks::inventory::{
    InventoryTransferOperation, NativeInventoryTransferPhase, NativeInventoryTransferTask, TaskIds,
    API_INVENTORY_TRANSFER_TIMEOUT, NATIVE_INVENTORY_TASK_TIMEOUT,
};
use luanti_proto_bot::bot::validation::{
    chest_reply_has_nonce, parse_node_position, valid_command_atom,
};
use luanti_proto_bot::types::{IVec3, Vec3};

fn vec3(x: f32, y: f32, z: f32) -> Vec3 {
    Vec3 { x: x.to_bits(), y: y.to_bits(), z: z.to_bits() }
}

fn floats(v: Vec3) -> (f32, f32, f32) {
    (f32::from_bits(v.x), f32::from_bits(v.y), f32::from_bits(v.z))
}

fn value(text: &str) -> serde_json::Value {
    serde_json::from_str(text).unwrap()
}

fn in_bs(p: &RoutePosition) -> Vec3 {
    let scaled = |s: &String| s.parse::<f64>().unwrap() as f32 * 10.0;
    vec3(scaled(&p.x), scaled(&p.y), scaled(&p.z))
}

fn nearly_equal(a: Vec3, b: Vec3) -> bool {
    let (a, b) = (floats(a), floats(b));
    (a.0 - b.0).abs() <= 0.05 && (a.1 - b.1).abs() <= 0.05 && (a.2 - b.2).abs() <= 0.05
}

fn reached(position: Vec3, waypoint: Vec3, stop_dist: f32) -> bool {
    let (p, w) = (floats(position), floats(waypoint));
    let (dx, dz) = (w.0 - p.0, w.2 - p.2);
    (dx * dx + dz * dz).sqrt() <= stop_dist && (w.1 - p.1).abs() <= 5.0
}

/// The goal of a route, with the arithmetic that a driver of the library does.
fn parse_route_goal(payload: &str, position: Vec3, speed: f32) -> Result<Option<MoveGoal>, String> {
    let Some(route) = parse_route(payload)? else {
        return Ok(None);
    };
    let mut points: Vec<Vec3> = route.path.iter().map(in_bs).collect();
    points.push(in_bs(&route.stand));
    let near: Vec<Vec<bool>> = points
        .iter()
        .map(|a| points.iter().map(|b| nearly_equal(*a, *b)).collect())
        .collect();
    let arrived: Vec<bool> = points.iter().map(|p| reached(position, *p, 2.0)).collect();
    Ok(Some(build_route_goal(&points, &near, &arrived, speed.to_bits(), route.arrival_action)))
}

fn last_near_target(goal: &MoveGoal) -> bool {
    goal.waypoints.back().is_some_and(|last| nearly_equal(*last, goal.target))
}

fn numbers(v: Vec3) -> serde_json::Value {
    let (x, y, z) = floats(v);
    serde_json::Value::from(vec![x / 10.0, y / 10.0, z / 10.0])
}

fn goal_facts(goal: &MoveGoal) -> GoalFacts {
    let (x, y, z) = floats(goal.target);
    GoalFacts {
        x: format!("{:.2}", x / 10.0),
        y: format!("{:.2}", y / 10.0),
        z: format!("{:.2}", z / 10.0),
        target: numbers(goal.target),
        waypoint: numbers(goal.current_waypoint()),
        last_near_target: last_near_target(goal),
    }
}

#[test]
fn server_observation_includes_active_controller_state() {
    let goal = MoveGoal {
        target: vec3(100.0, 650.0, -30.0),
        waypoints: std::collections::VecDeque::new(),
        speed: 3.0_f32.to_bits(),
        stop_dist: 2.0_f32.to_bits(),
        arrival_action: None,
    };
    let mut navigation = NavigationSnapshot::default();
    navigation.begin("moving");
    let facts = goal_facts(&goal);
    let enriched = enrich_server_observation(
        r#"{"position":[1,2,3]}"#,
        true,
        Some("test"),
        Some((&goal, &facts)),
        &navigation,
        &serde_json::Value::from(0.0),
    );
    let value: serde_json::Value = serde_json::from_str(&enriched).unwrap();
    let expected = serde_json::Value::from(vec![10.0, 65.0, -3.0]);
    assert_eq!(value["controller"]["follow_target"], "test");
    assert_eq!(value["controller"]["move_target"], expected);
    assert_eq!(value["controller"]["navigation"]["status"], "moving");
    assert_eq!(value["controller"]["navigation"]["current_waypoint"], expected);
}

#[test]
fn route_reply_uses_stand_position_and_collect_arrival_action() {
    let payload = r#"{
            "ok":true,
            "status":"path_found",
            "target":[3,0,0],
            "stand":[2,0,0],
            "path":[[0,0,0],{"x":1,"y":0,"z":0},[2,0,0]],
            "arrival_action":{"type":"collect","node":"mcl_core:coal_ore","count":3,"radius":6}
        }"#;
    let goal = parse_route_goal(payload, vec3(0.0, 0.0, 0.0), 4.0).unwrap().unwrap();
    assert_eq!(f32::from_bits(goal.target.x), 20.0);
    assert_eq!(f32::from_bits(goal.current_waypoint().x), 10.0);
    assert_eq!(goal.remaining_waypoints(last_near_target(&goal)), 2);
    let Some(ArrivalAction::Collect { node, count, radius, target }) = goal.arrival_action else {
        panic!("collect arrival action was not preserved");
    };
    assert_eq!(node, "mcl_core:coal_ore");
    assert_eq!(count, 3);
    assert_eq!(radius, 6);
    assert_eq!(target, Some(IVec3 { x: 3, y: 0, z: 0 }));
}

#[test]
fn hunt_route_carries_hunt_id_to_arrival() {
    let payload = r#"{
            "ok":true,
            "status":"path_found",
            "stand":[1,0,0],
            "path":[[1,0,0]],
            "arrival_action":{"type":"hunt","hunt_id":42}
        }"#;
    let goal = parse_route_goal(payload, vec3(0.0, 0.0, 0.0), 4.0).unwrap().unwrap();
    assert!(matches!(goal.arrival_action, Some(ArrivalAction::Hunt { hunt_id: 42 })));
}

#[test]
fn bot_protocol_messages_are_separate_from_player_chat() {
    assert_eq!(
        bot_protocol_message("BOT_HUNT {\"ok\":true}"),
        Some((String::from("BOT_HUNT"), String::from("{\"ok\":true}")))
    );
    assert_eq!(bot_protocol_message("hello BOT_HUNT"), None);
}

#[test]
fn navigation_failure_persists_until_stop() {
    let mut navigation = NavigationSnapshot::default();
    navigation.fail("stuck_after_recovery");
    assert_eq!(navigation.status, "failed");
    assert_eq!(navigation.last_error.as_deref(), Some("stuck_after_recovery"));

    navigation.stop();
    assert_eq!(navigation.status, "idle");
    assert_eq!(navigation.last_error, None);
}

#[test]
fn recognizes_builtin_invalid_command_responses() {
    assert!(is_invalid_server_command(
        "-!- @__builtin)Invalid command",
        "bot_collect",
        "bot_collect"
    ));
}

#[test]
fn first_chat_message_is_visible_from_the_initial_cursor() {
    let mut log = ChatLog::default();
    log_chat(&mut log, 7, "Alice", "hello");

    let (entries, last_id) = collect_chat_entries(&log, 0, 10);
    assert_eq!(entries.len(), 1);
    assert_eq!(entries[0].id, 1);
    assert_eq!(last_id, 1);
}

#[test]
fn native_inventory_tasks_get_distinct_reply_nonces() {
    let target = IVec3 { x: 1, y: 2, z: 3 };
    let mut ids = TaskIds::new();
    let first = NativeInventoryTransferTask::new(
        &mut ids,
        InventoryTransferOperation::ChestDeposit,
        target,
        "mcl_core:stone".to_string(),
        1,
        0,
    );
    let second = NativeInventoryTransferTask::new(
        &mut ids,
        InventoryTransferOperation::ChestDeposit,
        target,
        "mcl_core:stone".to_string(),
        1,
        0,
    );
    assert_ne!(first.id, second.id);
    assert!(NATIVE_INVENTORY_TASK_TIMEOUT < API_INVENTORY_TRANSFER_TIMEOUT);
}

#[test]
fn inventory_transfer_operations_route_to_the_correct_adapter_and_list() {
    let cases = [
        (
            InventoryTransferOperation::ChestDeposit,
            "chest",
            "bot_chest_prepare",
            "main",
            true,
        ),
        (
            InventoryTransferOperation::ChestWithdraw,
            "chest",
            "bot_chest_prepare",
            "main",
            false,
        ),
        (
            InventoryTransferOperation::FurnaceInput,
            "furnace",
            "bot_furnace_prepare",
            "src",
            true,
        ),
        (
            InventoryTransferOperation::FurnaceFuel,
            "furnace",
            "bot_furnace_prepare",
            "fuel",
            true,
        ),
        (
            InventoryTransferOperation::FurnaceOutput,
            "furnace",
            "bot_furnace_prepare",
            "dst",
            false,
        ),
    ];
    for (operation, kind, prepare, list, deposits) in cases {
        assert_eq!(operation.container_kind(), kind);
        assert_eq!(operation.prepare_command(), prepare);
        assert_eq!(operation.expected_container_list(), list);
        assert_eq!(operation.deposits_into_container(), deposits);
    }
}

#[test]
fn dispatched_inventory_actions_report_an_unknown_outcome_when_cancelled() {
    assert!(!NativeInventoryTransferPhase::Ready.action_dispatched());
    assert!(!NativeInventoryTransferPhase::Preparing {
        nonce: "prepare".to_string(),
        deadline: 0,
    }
    .action_dispatched());
    assert!(NativeInventoryTransferPhase::WaitingForReceipt {
        nonce: "sent".to_string(),
        action_count: 1,
        poll_at: 0,
        expires_at: 0,
    }
    .action_dispatched());

    let mut task = NativeInventoryTransferTask::new(
        &mut TaskIds::new(),
        InventoryTransferOperation::FurnaceInput,
        IVec3 { x: 1, y: 2, z: 3 },
        "mcl_mobitems:beef".to_string(),
        2,
        0,
    );
    task.moved = 1;
    task.last_error = Some("receipt_timeout_outcome_unknown".to_string());
    assert_eq!(
        task.result_status(),
        ("receipt_timeout_outcome_unknown", false, true)
    );
}

#[test]
fn craft_tasks_get_distinct_nonces_and_keep_minimum_output() {
    let mut ids = TaskIds::new();
    let first = NativeCraftTask::new(&mut ids, "mcl_core:stick".to_string(), 4);
    let second = NativeCraftTask::new(&mut ids, "mcl_core:stick".to_string(), 8);
    assert_ne!(first.id, second.id);
    assert_eq!(first.requested, 4);
    assert_eq!(second.requested, 8);
}

#[test]
fn chest_replies_require_the_current_nonce() {
    let current = value(r#"{"nonce": "a-2", "ok": true}"#);
    assert!(chest_reply_has_nonce(&current, "a-2"));
    assert!(!chest_reply_has_nonce(&current, "a-1"));
    assert!(!chest_reply_has_nonce(&value(r#"{"ok": true}"#), "a-2"));
}

#[test]
fn attackall_remains_an_alias_for_attack() {
    let Some(ControlCommand::Attack(target)) = parse_control_command("!attackall Alice") else {
        panic!("!attackall did not parse as attack");
    };
    assert_eq!(target, "Alice");
}

/// The reply that was delivered to the request with the given ticket.
fn delivered(pending: &mut PendingReplies, ticket: u64) -> Option<String> {
    pending.take_delivered().into_iter().find(|d| d.ticket == ticket).map(|d| d.payload)
}

#[test]
fn pending_replies_are_resolved_by_tag() {
    let mut pending = PendingReplies::default();
    let ticket = pending.register("BOT_TEST").unwrap();
    assert!(pending.register("BOT_TEST").is_none());
    assert!(pending.resolve("BOT_TEST", "reply".to_string()));
    assert_eq!(delivered(&mut pending, ticket).unwrap(), "reply");
    assert!(!pending.resolve("BOT_TEST", "late".to_string()));
}

#[test]
fn unsupported_world_commands_resolve_the_matching_request() {
    let mut pending = PendingReplies::default();
    let ticket = pending.register("BOT_FIGHT").unwrap();
    assert_eq!(
        resolve_unsupported_bot_command(
            &mut pending,
            "-!- @__builtin)Invalid command",
            "bot_fight",
        ),
        Some("bot_fight")
    );
    assert!(delivered(&mut pending, ticket).unwrap().contains("unsupported_command"));

    let ticket = pending.register("BOT_CHEST_INSPECT").unwrap();
    assert_eq!(
        resolve_unsupported_bot_command(
            &mut pending,
            "-!- @__builtin)Invalid command",
            "bot_chest_inspect",
        ),
        Some("bot_chest_inspect")
    );
    assert!(delivered(&mut pending, ticket).unwrap().contains("unsupported_command"));
}

#[test]
fn a_cancelled_request_gets_no_reply() {
    let mut pending = PendingReplies::default();
    pending.register("BOT_MINE").unwrap();
    let other = pending.register("BOT_USE").unwrap();
    pending.cancel("BOT_MINE");
    assert!(!pending.resolve("BOT_MINE", "x".to_string()));
    assert!(pending.resolve("BOT_USE", "y".to_string()));
    assert_eq!(delivered(&mut pending, other).unwrap(), "y");
}

#[test]
fn senders_are_found_in_messages() {
    let found = |sender: &str, message: &str| effective_chat_sender_message(sender, message);
    let pair = |a: &str, b: &str| (a.to_string(), b.to_string());
    assert_eq!(found("Alice", " hi "), pair("Alice", "hi"));
    assert_eq!(found("", "Bob: hello"), pair("Bob", "hello"));
    assert_eq!(found("", "<Carol> hello"), pair("Carol", "hello"));
    assert_eq!(found("", "hello"), pair("", "hello"));
    assert_eq!(normalize_player_name(" @__builtin)Dave "), "Dave");
    assert_eq!(extract_chat_player("*** Eve joined the game").as_deref(), Some("Eve"));
    assert_eq!(extract_chat_player("Eve joined the game"), None);
}

#[test]
fn orders_need_an_exclamation_mark() {
    assert!(matches!(
        parse_control_command("!AttackMobs 9"),
        Some(ControlCommand::AttackMobs(Some(9)))
    ));
    assert!(matches!(parse_control_command("!stop"), Some(ControlCommand::Stop)));
    assert!(matches!(parse_control_command("!where"), Some(ControlCommand::Where)));
    assert!(parse_control_command("stop").is_none());
    assert!(parse_control_command("!follow").is_none());
}

#[test]
fn the_list_of_allowed_senders_may_be_empty() {
    let nobody_in_particular = parse_allowlist(" , ");
    assert!(nobody_in_particular.is_empty());
    assert!(is_sender_allowed(&nobody_in_particular, "Mallory"));
    let some = parse_allowlist("Alice, Bob");
    assert_eq!(some, ["Alice", "Bob"]);
    assert!(is_sender_allowed(&some, " Bob "));
    assert!(!is_sender_allowed(&some, "Mallory"));
}

#[test]
fn chat_is_paged_by_its_cursor() {
    let mut log = ChatLog::default();
    for n in 0..205_u32 {
        log_chat(&mut log, n as u128, "Alice", &format!("{n}"));
    }
    let (entries, last_id) = collect_chat_entries(&log, 203, 10);
    assert_eq!(last_id, 205);
    assert_eq!(entries.iter().map(|e| e.id).collect::<Vec<_>>(), [204, 205]);
    let (entries, _) = collect_chat_entries(&log, 0, 3);
    assert_eq!(entries.len(), 3);
    let text = build_chat_json(entries, last_id);
    let parsed = value(&text);
    assert_eq!(parsed["last"], 205);
    assert_eq!(parsed["messages"][0]["from"], "Alice");
}

#[test]
fn escaped_text_is_read_back_as_it_was() {
    let odd = "a\"b\\c\nd\te\u{1}";
    let quoted = format!("\"{}\"", json_escape(odd));
    assert_eq!(value(&quoted), odd);
}

#[test]
fn routes_are_refused_with_a_reason() {
    assert!(parse_route("{").unwrap_err().starts_with("invalid JSON"));
    assert!(parse_route(r#"{"ok":false}"#).unwrap().is_none());
    assert_eq!(
        parse_route(r#"{"ok":true}"#).unwrap_err(),
        "successful path response has no path array"
    );
    assert_eq!(
        parse_route(r#"{"ok":true,"path":[]}"#).unwrap_err(),
        "successful path response has no stand position"
    );
    assert_eq!(
        parse_route(r#"{"ok":true,"stand":[0,0,0],"path":[7]}"#).unwrap_err(),
        "path contains an invalid waypoint"
    );
    let long = vec!["[0,0,0]"; 257].join(",");
    assert_eq!(
        parse_route(&format!("{{\"ok\":true,\"path\":[{long}]}}")).unwrap_err(),
        "path has 257 waypoints; maximum is 256"
    );
    assert_eq!(
        parse_route(r#"{"ok":true,"path":[[0,0,0]],"arrival_action":{"type":"dance"}}"#)
            .unwrap_err(),
        "unsupported arrival action 'dance'"
    );
    assert_eq!(route_response_status(r#"{"status":"no_path"}"#).as_deref(), Some("no_path"));
    let reply = value(&invalid_route_response("why"));
    assert_eq!(reply["status"], "invalid_path_response");
    assert_eq!(reply["error"], "why");
}

#[test]
fn repeated_and_reached_points_are_left_out() {
    let payload = r#"{"ok":true,"path":[[0,0,0],[0,0,0],[3,0,0],[3,0,0],[6,0,0]]}"#;
    let goal = parse_route_goal(payload, vec3(1.0, 0.0, 0.0), -1.0).unwrap().unwrap();
    let xs: Vec<f32> = goal.waypoints.iter().map(|p| f32::from_bits(p.x)).collect();
    assert_eq!(xs, [30.0, 60.0]);
    assert_eq!(f32::from_bits(goal.speed), 4.0);
    assert_eq!(f32::from_bits(goal.stop_dist), 2.0);
}

#[test]
fn a_goal_is_passed_point_by_point() {
    let payload = r#"{"ok":true,"path":[[3,0,0],[6,0,0]]}"#;
    let mut goal = parse_route_goal(payload, vec3(0.0, 0.0, 0.0), 2.0).unwrap().unwrap();
    assert_eq!(f32::from_bits(goal.current_waypoint().x), 30.0);
    assert!(!goal.advance_waypoint());
    assert_eq!(f32::from_bits(goal.current_waypoint().x), 60.0);
    assert!(goal.advance_waypoint());
}

#[test]
fn a_move_has_a_least_speed() {
    let target = vec3(1.0, 2.0, 3.0);
    let speed = |s: f32| f32::from_bits(build_move_goal(target, Some(s.to_bits()), 0).speed);
    assert_eq!(speed(5.0), 5.0);
    assert_eq!(speed(0.01), speed(-3.0));
    assert_eq!(build_move_goal(target, None, 2.5_f32.to_bits()).speed, 2.5_f32.to_bits());
}

#[test]
fn observations_that_are_no_objects_are_not_enriched() {
    let navigation = NavigationSnapshot::default();
    let zero = serde_json::Value::from(0.0);
    let enrich =
        |raw: &str| try_enrich_server_observation(raw, false, None, None, &navigation, &zero);
    assert!(enrich("[1]").is_none());
    assert_eq!(enrich("not json").as_deref(), Some("not json"));
    let kept = value(&enrich(r#"{"health":7}"#).unwrap());
    assert_eq!(kept["health"], 7);
    assert_eq!(kept["controller"]["navigation"]["status"], "idle");
}

#[test]
fn turning_left_undoes_turning_right() {
    for facing in ["north", "east", "south", "west"] {
        assert_eq!(turn_left(turn_right(facing)), facing);
        assert_eq!(turn_back(turn_back(facing)), facing);
    }
    assert_eq!(offset_from_facing("north"), (0, 1));
    assert_eq!(offset_from_facing("west"), (-1, 0));
}

#[test]
fn command_words_are_checked() {
    assert!(valid_command_atom("mcl_core:stone"));
    assert!(!valid_command_atom(""));
    assert!(!valid_command_atom("two words"));
    assert!(!valid_command_atom(&"a".repeat(129)));
    assert_eq!(parse_node_position(&value("[1,-2,3]")), Some(IVec3 { x: 1, y: -2, z: 3 }));
    assert_eq!(parse_node_position(&value("[1,2]")), None);
}

#[test]
fn orders_are_read_from_two_words() {
    let target = |message: &str| match parse_control_command(message) {
        Some(ControlCommand::Follow(target)) => target,
        _ => panic!("no order to follow"),
    };
    assert_eq!(target("!follow Bob"), "Bob");
    assert_eq!(target(" \t!FOLLOW\u{a0} Bob \n"), "Bob");
    assert_eq!(target("!Follow Bob and Carol"), "Bob");
    assert!(parse_control_command("please !follow Bob").is_none());
    assert!(matches!(
        parse_control_command("!sleep soundly 5"),
        Some(ControlCommand::Sleep(None))
    ));
    assert!(parse_control_command("!dance Bob").is_none());
}

#[test]
fn a_reply_that_nobody_listens_for_is_dropped() {
    let mut pending = PendingReplies::default();
    let ticket = pending.register("BOT_USE").unwrap();
    let other = pending.register("BOT_MINE").unwrap();
    pending.hang_up(ticket);
    assert!(pending.register("BOT_USE").is_none());
    assert!(!pending.resolve("BOT_USE", "x".to_string()));
    assert!(pending.register("BOT_USE").is_some());
    assert!(pending.resolve("BOT_MINE", "y".to_string()));
    let delivered = pending.take_delivered();
    assert_eq!(delivered.len(), 1);
    assert_eq!((delivered[0].ticket, delivered[0].payload.as_str()), (other, "y"));
}
