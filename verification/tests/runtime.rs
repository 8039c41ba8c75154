//! A bot in the game: events, orders, commands, tasks and steps.

use luanti_proto_bot::bot::commands::{ApiCommand, CommandFacts};
use luanti_proto_bot::bot::events::EventFacts;
use luanti_proto_bot::bot::messages::{
    ends_turn, route_in_message, ChatFacts, ChatFault, RouteFacts,
};
use luanti_proto_bot::bot::modes::{chat_speaker, Herald, Walker};
use luanti_proto_bot::bot::motion::{Heading, StepFacts};
use luanti_proto_bot::bot::navigation::{ArrivalAction, MoveRequest, MoveSpec};
use luanti_proto_bot::bot::runtime::Bot;
use luanti_proto_bot::bot::tasks::crafting::fail_craft_send;
use luanti_proto_bot::bot::tasks::inventory::InventoryTransferOperation;
use luanti_proto_bot::bot::tasks::mining::mine_prepare_hint;
use luanti_proto_bot::game::navigation::Measurements;
use luanti_proto_bot::game::player::{Turn, WireFields};
use luanti_proto_bot::network::events::{ActiveObjectInit, ActiveObjectMessage, MtpEvent};
use luanti_proto_bot::network::wire::{read_wstring_slice, write_string};
use luanti_proto_bot::session::Outcome;
use luanti_proto_bot::types::{BlockPos, IVec3, Vec3};
use std::collections::VecDeque;

const ORIGIN: Vec3 = Vec3 { x: 0, y: 0, z: 0 };

fn vec3(x: f32, y: f32, z: f32) -> Vec3 {
    Vec3 { x: x.to_bits(), y: y.to_bits(), z: z.to_bits() }
}

fn fields() -> WireFields {
    let zero = IVec3 { x: 0, y: 0, z: 0 };
    WireFields {
        pos: zero,
        speed: zero,
        pitch: 0,
        yaw: 0,
        fov: 72,
        wanted_range: 10,
        summary: String::from("state"),
    }
}

fn chat_facts() -> ChatFacts {
    ChatFacts {
        ts_ms: 1_000,
        fields: fields(),
        where_text: String::from("pos=(1.00,2.00,3.00)"),
        turn: Turn { pitch: 0.5_f32.to_bits(), yaw: 1.0_f32.to_bits() },
        turned_fields: fields(),
        dig_ms: Some(500),
        route: None,
        goal_facts: None,
        stalled: serde_json::Value::from(0.0),
    }
}

fn event_facts() -> EventFacts {
    EventFacts { pitch: 0.25_f32.to_bits(), yaw: 0.5_f32.to_bits(), chat: chat_facts() }
}

fn command_facts() -> CommandFacts {
    CommandFacts {
        fields: fields(),
        where_text: String::from("here"),
        move_target: vec3(10.0, 0.0, 0.0),
        targets: VecDeque::new(),
    }
}

fn bot() -> Bot {
    let mut bot = Bot::new(
        "robot",
        "secret",
        "Alice",
        "/tp {player}",
        "/follow {player}",
        "/halt",
        4.0_f32.to_bits(),
        0,
    );
    bot.session.conn.take_outbox();
    bot
}

/// What the bot has said in chat since the last call.
fn said(bot: &mut Bot) -> Vec<String> {
    let mut lines = Vec::new();
    for packet in bot.session.conn.take_outbox() {
        if packet.len() > 13 && packet[7] == 3 && packet[11..13] == [0, 0x32] {
            lines.push(read_wstring_slice(&packet, &mut 13).unwrap());
        }
    }
    lines
}

fn hear(bot: &mut Bot, sender: &str, message: &str) {
    bot.take_chat(sender, message, &chat_facts(), 0).unwrap();
}

fn answer(bot: &mut Bot, ticket: u64) -> serde_json::Value {
    let delivered = bot.replies.take_delivered();
    let found = delivered.into_iter().find(|d| d.ticket == ticket).unwrap();
    serde_json::from_str(&found.payload).unwrap()
}

fn player_object(id: u16, name: &str, x: f32) -> ActiveObjectInit {
    let mut data = vec![1];
    write_string(&mut data, name);
    data.extend_from_slice(&[1, 0, 0]);
    data.extend_from_slice(&x.to_be_bytes());
    data.extend_from_slice(&[0; 8 + 12 + 2 + 1]);
    ActiveObjectInit { id, ao_type: 7, data }
}

fn come(bot: &mut Bot, id: u16, name: &str, x: f32) {
    let event = MtpEvent::ActiveObjectRemoveAdd {
        removed: vec![],
        added: vec![player_object(id, name, x)],
    };
    bot.take_event(&event, &event_facts(), 0).unwrap();
}

#[test]
fn only_those_on_the_list_give_orders() {
    let mut bot = bot();
    hear(&mut bot, "Mallory", "!follow Mallory");
    assert!(!bot.follow_enabled);
    hear(&mut bot, "Alice", "!follow Bob");
    assert!(bot.follow_enabled);
    assert_eq!(bot.follow_target_name.as_deref(), Some("Bob"));
    assert_eq!(bot.navigation.status, "following");
    assert_eq!(said(&mut bot), ["/follow Bob"]);
    hear(&mut bot, "Alice", "!stop");
    assert!(!bot.follow_enabled && bot.follow_target_name.is_none());
    assert_eq!(said(&mut bot), ["/halt"]);
}

#[test]
fn orders_are_passed_on_in_chat() {
    let mut bot = bot();
    let lines = [
        ("!tp Bob", "/tp Bob"),
        ("!attack Bob", "/bot_attack Bob"),
        ("!attackmobs", "/bot_attack_mobs 6"),
        ("!attackmobs 99", "/bot_attack_mobs 20"),
        ("!sleep 0", "/bot_sleep 1"),
        ("!where", "pos=(1.00,2.00,3.00)"),
    ];
    for (order, line) in lines {
        hear(&mut bot, "Alice", order);
        assert_eq!(said(&mut bot), [line]);
    }
}

#[test]
fn chat_is_kept_but_for_confirmations_and_replies() {
    let mut bot = bot();
    hear(&mut bot, "Bob", "hello");
    hear(&mut bot, "", "ok");
    hear(&mut bot, "", "You cannot send more messages now");
    hear(&mut bot, "", "BOT_MINE {\"ok\":true}");
    hear(&mut bot, "", "");
    let (entries, last) = luanti_proto_bot::bot::chat::collect_chat_entries(&bot.chat_log, 0, 50);
    assert_eq!(last, 1);
    assert_eq!(entries[0].message, "hello");
    assert_eq!(entries[0].ts_ms, 1_000);
}

#[test]
fn replies_answer_the_request_with_their_tag() {
    let mut bot = bot();
    let ticket = bot.replies.register("BOT_USE").unwrap();
    hear(&mut bot, "", "BOT_USE {\"ok\":true}");
    assert_eq!(answer(&mut bot, ticket)["ok"], true);
    hear(&mut bot, "", "BOT_USE {\"ok\":true}");
    assert!(bot.replies.take_delivered().is_empty());
}

#[test]
fn observations_are_enriched_on_the_way() {
    let mut bot = bot();
    let ticket = bot.replies.register("BOT_OBSERVE").unwrap();
    hear(&mut bot, "", "BOT_OBSERVE {\"health\":20}");
    let seen = answer(&mut bot, ticket);
    assert_eq!(seen["health"], 20);
    assert_eq!(seen["controller"]["follow_enabled"], false);
    let fault = bot.take_chat("", "BOT_OBSERVE [1]", &chat_facts(), 0).unwrap_err();
    assert!(matches!(fault, ChatFault::NoObject));
}

fn route_facts(xs: &[f32]) -> RouteFacts {
    let count = xs.len();
    RouteFacts {
        points: xs.iter().map(|x| vec3(*x, 0.0, 0.0)).collect(),
        near: (0..count)
            .map(|i| (0..count).map(|j| xs[i] == xs[j]).collect())
            .collect(),
        reached: xs.iter().map(|x| *x == 0.0).collect(),
    }
}

#[test]
fn a_route_that_was_asked_for_becomes_the_goal() {
    let mut bot = bot();
    let message = "BOT_PATH_NODE {\"ok\":true,\"path\":[[0,0,0],[3,0,0]],\"stand\":[6,0,0]}";
    let route = route_in_message(message).unwrap();
    assert_eq!((route.path.len(), route.stand.x.as_str()), (2, "6"));
    let facts = ChatFacts { route: Some(route_facts(&[0.0, 30.0, 60.0])), ..chat_facts() };
    bot.take_chat("", message, &facts, 0).unwrap();
    assert!(bot.move_goal.is_none());
    let ticket = bot.replies.register("BOT_PATH_NODE").unwrap();
    bot.take_chat("", message, &facts, 0).unwrap();
    assert_eq!(answer(&mut bot, ticket)["ok"], true);
    let goal = bot.move_goal.as_ref().unwrap();
    assert_eq!(goal.target, vec3(60.0, 0.0, 0.0));
    assert_eq!(goal.waypoints, [vec3(30.0, 0.0, 0.0), vec3(60.0, 0.0, 0.0)]);
    assert_eq!(bot.navigation.status, "moving");
}

#[test]
fn a_route_that_is_not_found_is_reported() {
    let mut bot = bot();
    bot.replies.register("BOT_PATH_NODE").unwrap();
    hear(&mut bot, "", "BOT_PATH_NODE {\"ok\":false,\"status\":\"no_path\"}");
    assert_eq!(bot.navigation.status, "failed");
    assert_eq!(bot.navigation.last_error.as_deref(), Some("no_path"));
    let ticket = bot.replies.register("BOT_PATH_NODE").unwrap();
    hear(&mut bot, "", "BOT_PATH_NODE {\"ok\":true}");
    assert_eq!(answer(&mut bot, ticket)["status"], "invalid_path_response");
    assert!(bot.navigation.last_error.as_deref().unwrap().starts_with("invalid_path_response: "));
}

#[test]
fn a_hunt_ends_with_its_reply() {
    let mut bot = bot();
    hear(&mut bot, "", "BOT_HUNT {\"ok\":false,\"status\":\"lost\"}");
    assert_eq!(bot.navigation.last_error.as_deref(), Some("lost"));
    hear(&mut bot, "", "BOT_HUNT {\"ok\":true}");
    assert_eq!(bot.navigation.status, "idle");
}

#[test]
fn unknown_commands_fail_what_needs_them() {
    let mut bot = bot();
    hear(&mut bot, "-!- @__builtin)Invalid command", "bot_path_node");
    assert_eq!(
        bot.navigation.last_error.as_deref(),
        Some("unsupported_command:bot_path_node")
    );
    let ticket = bot.replies.register("BOT_MINE").unwrap();
    let target = IVec3 { x: 1, y: 2, z: 3 };
    bot.handle_api_command(ApiCommand::Mine(Some(target)), command_facts(), 0).unwrap();
    hear(&mut bot, "-!- @__builtin)Invalid command", "bot_prepare_mine");
    assert!(bot.mining.is_none());
    assert_eq!(answer(&mut bot, ticket)["status"], "unsupported_command:bot_prepare_mine");
}

#[test]
fn a_node_is_mined_step_by_step() {
    let mut bot = bot();
    let ticket = bot.replies.register("BOT_MINE").unwrap();
    let target = IVec3 { x: 1, y: 2, z: 3 };
    bot.handle_api_command(ApiCommand::Mine(Some(target)), command_facts(), 0).unwrap();
    assert_eq!(said(&mut bot), ["/bot_prepare_mine 1 2 3"]);
    assert!(bot.is_busy());
    let prepared = "{\"ok\":true,\"target\":[1,2,3],\"above\":[1,3,3],\"wield_index\":2,\
        \"dig_time\":0.4,\"node\":\"default:stone\"}";
    let hint = mine_prepare_hint(prepared);
    assert_eq!(hint.target, Some(target));
    assert_eq!(hint.dig_time.as_deref(), Some("0.4"));
    let before = bot.session.state;
    hear(&mut bot, "", &format!("BOT_MINE_PREPARE {prepared}"));
    let after = bot.session.state;
    assert_eq!((after.pitch, after.yaw), (0.5_f32.to_bits(), 1.0_f32.to_bits()));
    assert_eq!((after.pos, after.speed, after.fov), (before.pos, before.speed, before.fov));
    bot.advance_tasks(&fields(), true, 499).unwrap();
    assert!(said(&mut bot).is_empty());
    bot.advance_tasks(&fields(), true, 500).unwrap();
    assert_eq!(said(&mut bot), ["/bot_verify_mine 1 2 3 default:stone"]);
    hear(&mut bot, "", "BOT_MINE_VERIFY {\"ok\":true,\"target\":[1,2,3]}");
    let result = answer(&mut bot, ticket);
    assert_eq!(result["status"], "mined");
    assert_eq!(result["mined"], 1);
    assert!(!bot.is_busy());
}

#[test]
fn a_dig_out_of_reach_fails() {
    let mut bot = bot();
    let ticket = bot.replies.register("BOT_MINE").unwrap();
    bot.handle_api_command(ApiCommand::Mine(None), command_facts(), 0).unwrap();
    hear(
        &mut bot,
        "",
        "BOT_MINE_PREPARE {\"ok\":true,\"target\":[1,2,3],\"above\":[1,3,3],\"wield_index\":2,\
         \"dig_time\":0.4,\"node\":\"default:stone\"}",
    );
    bot.advance_tasks(&fields(), false, 500).unwrap();
    assert_eq!(answer(&mut bot, ticket)["status"], "moved_out_of_range");
}

#[test]
fn a_preparation_that_does_not_come_fails() {
    let mut bot = bot();
    let ticket = bot.replies.register("BOT_MINE").unwrap();
    bot.handle_api_command(ApiCommand::Mine(None), command_facts(), 0).unwrap();
    bot.advance_tasks(&fields(), true, 2_999).unwrap();
    assert!(bot.is_busy());
    bot.advance_tasks(&fields(), true, 3_000).unwrap();
    assert_eq!(answer(&mut bot, ticket)["status"], "prepare_timeout");
}

#[test]
fn items_are_moved_into_a_chest() {
    let mut bot = bot();
    let ticket = bot.replies.register("BOT_CHEST_DEPOSIT").unwrap();
    let pos = IVec3 { x: 4, y: 5, z: 6 };
    let deposit = ApiCommand::ChestDeposit { pos, item: String::from("default:dirt"), count: 3 };
    bot.handle_api_command(deposit, command_facts(), 0).unwrap();
    let lines = said(&mut bot);
    let words: Vec<&str> = lines[0].split(' ').collect();
    assert_eq!(words[0], "/bot_chest_prepare");
    assert_eq!(words[3..], ["4", "5", "6", "default:dirt", "3"]);
    let nonce = words[1];
    hear(&mut bot, "", "BOT_CHEST_PREPARE {\"nonce\":\"stale\",\"ok\":false}");
    assert!(bot.is_busy());
    let common = format!(
        "\"nonce\":\"{nonce}\",\"ok\":true,\"operation\":\"{}\",\"item\":\"default:dirt\",\
         \"requested_target\":[4,5,6]",
        InventoryTransferOperation::ChestDeposit.command_name()
    );
    hear(
        &mut bot,
        "",
        &format!(
            "BOT_CHEST_PREPARE {{{common},\"container_pos\":[4,5,7],\"action_count\":3,\
             \"player_slot\":1}}"
        ),
    );
    bot.advance_tasks(&fields(), true, 200).unwrap();
    assert_eq!(said(&mut bot), [format!("/bot_chest_receipt {nonce}")]);
    hear(&mut bot, "", &format!("BOT_CHEST_RECEIPT {{{common},\"moved\":3}}"));
    let result = answer(&mut bot, ticket);
    assert_eq!(result["ok"], true);
    assert_eq!(result["moved"], 3);
    assert_eq!(result["remaining"], 0);
}

#[test]
fn a_dispatched_transfer_that_is_stopped_has_an_unknown_outcome() {
    let mut bot = bot();
    let ticket = bot.replies.register("BOT_CHEST_WITHDRAW").unwrap();
    let pos = IVec3 { x: 4, y: 5, z: 6 };
    let withdraw = ApiCommand::ChestWithdraw { pos, item: String::from("default:dirt"), count: 1 };
    bot.handle_api_command(withdraw, command_facts(), 0).unwrap();
    let lines = said(&mut bot);
    let nonce = lines[0].split(' ').nth(1).unwrap();
    hear(
        &mut bot,
        "",
        &format!(
            "BOT_CHEST_PREPARE {{\"nonce\":\"{nonce}\",\"ok\":true,\"operation\":\"{}\",\
             \"item\":\"default:dirt\",\"requested_target\":[4,5,6],\"container_pos\":[4,5,6],\
             \"action_count\":1,\"chest_slot\":0}}",
            InventoryTransferOperation::ChestWithdraw.command_name()
        ),
    );
    bot.stop(&fields(), 0).unwrap();
    let result = answer(&mut bot, ticket);
    assert_eq!(result["outcome_unknown"], true);
    assert_eq!(result["ok"], false);
    assert!(!bot.is_busy());
}

#[test]
fn something_is_crafted() {
    let mut bot = bot();
    let ticket = bot.replies.register("BOT_CRAFT").unwrap();
    let craft = ApiCommand::Craft { item: String::from("default:stick"), count: 4 };
    bot.handle_api_command(craft, command_facts(), 0).unwrap();
    let lines = said(&mut bot);
    let nonce = lines[0].split(' ').nth(1).unwrap();
    assert_eq!(lines[0], format!("/bot_craft_prepare {nonce} default:stick 4"));
    hear(
        &mut bot,
        "",
        &format!(
            "BOT_CRAFT_PREPARE {{\"nonce\":\"{nonce}\",\"ok\":true,\"item\":\"default:stick\",\
             \"batches\":1,\"produced\":4,\"grid_size\":4,\
             \"moves\":[{{\"player_slot\":0,\"craft_slot\":0,\"count\":1}}]}}"
        ),
    );
    bot.advance_tasks(&fields(), true, 250).unwrap();
    bot.advance_tasks(&fields(), true, 500).unwrap();
    bot.session.conn.take_outbox();
    bot.advance_tasks(&fields(), true, 700).unwrap();
    assert_eq!(said(&mut bot), [format!("/bot_craft_receipt {nonce}")]);
    hear(
        &mut bot,
        "",
        &format!(
            "BOT_CRAFT_RECEIPT {{\"nonce\":\"{nonce}\",\"ok\":true,\"item\":\"default:stick\",\
             \"delivered\":4}}"
        ),
    );
    let result = answer(&mut bot, ticket);
    assert_eq!(result["status"], "crafted");
    assert_eq!(result["surplus"], 0);
}

#[test]
fn one_task_is_done_at_a_time() {
    let mut bot = bot();
    bot.handle_api_command(ApiCommand::Mine(None), command_facts(), 0).unwrap();
    let ticket = bot.replies.register("BOT_CRAFT").unwrap();
    let craft = ApiCommand::Craft { item: String::from("default:stick"), count: 4 };
    bot.handle_api_command(craft, command_facts(), 0).unwrap();
    assert_eq!(answer(&mut bot, ticket)["ok"], false);
    assert!(bot.craft.is_none() && bot.mining.is_some());
}

#[test]
fn a_move_is_a_goal() {
    let mut bot = bot();
    let request = MoveRequest {
        spec: MoveSpec::Delta { dx: 1.0_f32.to_bits(), dy: 0, dz: 0 },
        speed: None,
    };
    bot.handle_api_command(ApiCommand::Move(request), command_facts(), 0).unwrap();
    assert_eq!(bot.move_goal.as_ref().unwrap().target, vec3(10.0, 0.0, 0.0));
    assert!(!bot.follow_enabled);
}

#[test]
fn players_come_into_view_and_leave() {
    let mut bot = bot();
    hear(&mut bot, "Alice", "!follow Bob");
    assert_eq!(bot.follow_target_id, None);
    come(&mut bot, 8, "robot", 0.0);
    come(&mut bot, 9, "Bob", 50.0);
    assert_eq!(bot.players.len(), 1);
    assert_eq!(bot.follow_target_id, Some(9));
    let mut data = vec![1];
    data.extend_from_slice(&70.0_f32.to_be_bytes());
    data.extend_from_slice(&[0; 50]);
    let moved = MtpEvent::ActiveObjectMessages {
        messages: vec![ActiveObjectMessage { id: 9, data }],
    };
    bot.take_event(&moved, &event_facts(), 0).unwrap();
    assert!(matches!(bot.head(), Heading::Player(p) if p == vec3(70.0, 0.0, 0.0)));
    let left = MtpEvent::ActiveObjectRemoveAdd { removed: vec![9], added: vec![] };
    bot.take_event(&left, &event_facts(), 0).unwrap();
    assert_eq!(bot.follow_target_id, None);
    assert!(matches!(bot.head(), Heading::Nowhere));
}

#[test]
fn the_server_moves_the_player() {
    let mut bot = bot();
    let pos = vec3(1.0, 2.0, 3.0);
    let event = MtpEvent::MovePlayer { pos, pitch_degrees: 0, yaw_degrees: 0 };
    for _ in 0..2 {
        bot.session.state.pos = ORIGIN;
        bot.take_event(&event, &event_facts(), 0).unwrap();
        assert_eq!(bot.session.state.pos, pos);
    }
    assert_eq!(bot.session.state.yaw, 0.5_f32.to_bits());
    assert_eq!(bot.last_server_pos, Some(pos));
    assert!(bot.session.got_spawn);
    bot.session.state.pos = ORIGIN;
    assert!(!bot.hold_still(false));
    assert!(bot.hold_still(true));
    assert_eq!(bot.session.state.pos, pos);
}

#[test]
fn blocks_are_confirmed_ten_at_a_time() {
    let mut bot = bot();
    let mut content = vec![1, 2];
    content.extend(std::iter::repeat(5).take(3 * 4096));
    let data = zstd::encode_all(content.as_slice(), 1).unwrap();
    for x in 0..12 {
        let pos = BlockPos { x, y: 0, z: 0 };
        let event = MtpEvent::BlockData { pos, data: data.clone() };
        bot.take_event(&event, &event_facts(), 0).unwrap();
    }
    let broken = MtpEvent::BlockData { pos: BlockPos { x: 99, y: 0, z: 0 }, data: vec![1] };
    bot.take_event(&broken, &event_facts(), 0).unwrap();
    assert_eq!(bot.world.block_count(), 12);
    assert_eq!(bot.gotblocks_pending.len(), 12);
    bot.confirm_blocks();
    assert_eq!(bot.gotblocks_pending.len(), 2);
    assert_eq!(bot.session.conn.take_outbox()[0][13], 10);
    bot.confirm_blocks();
    assert!(bot.gotblocks_pending.is_empty());
    bot.session.conn.take_outbox();
    bot.confirm_blocks();
    assert!(bot.session.conn.take_outbox().is_empty());
}

#[test]
fn a_denial_ends_the_session() {
    let mut bot = bot();
    let denied = MtpEvent::AccessDenied { reason: 2 };
    assert_eq!(bot.take_event(&denied, &event_facts(), 0).unwrap(), Outcome::Denied(2));
    let odd = MtpEvent::NodeDef { data: vec![1, 2, 3] };
    assert_eq!(bot.take_event(&odd, &event_facts(), 0).unwrap(), Outcome::Continue);
    assert!(bot.session.got_nodedef);
}

fn step_facts(stalled_for: f32, recovering: f32) -> StepFacts {
    StepFacts {
        yaw: 0,
        pitch: 0,
        far: true,
        above: false,
        apart: true,
        dt: 0.2_f32.to_bits(),
        measurements: Measurements {
            target_jumped: false,
            target_distance: Some(10.0_f32.to_bits()),
            moved: false,
            approached: false,
            stalled_for: stalled_for.to_bits(),
            recovery_remaining: recovering.to_bits(),
            turned: (1, 2, 3),
        },
    }
}

fn goal_bot() -> Bot {
    let mut bot = bot();
    bot.replies.register("BOT_PATH_NODE").unwrap();
    let facts = ChatFacts { route: Some(route_facts(&[10.0, 30.0, 60.0])), ..chat_facts() };
    let message = "BOT_PATH_NODE {\"ok\":true,\"path\":[[1,0,0],[3,0,0]],\"stand\":[6,0,0],\
        \"arrival_action\":{\"type\":\"hunt\",\"hunt_id\":5}}";
    bot.take_chat("", message, &facts, 0).unwrap();
    said(&mut bot);
    bot
}

#[test]
fn points_are_passed_until_the_goal() {
    let mut bot = goal_bot();
    assert!(bot.pass_points(&[true, false, false]).is_none());
    assert!(matches!(bot.head(), Heading::Point(p) if p == vec3(30.0, 0.0, 0.0)));
    let action = bot.pass_points(&[true, true]).unwrap();
    assert!(bot.move_goal.is_none());
    assert!(matches!(action, ArrivalAction::Hunt { hunt_id: 5 }));
    bot.start_arrival(action, VecDeque::new(), 0);
    assert_eq!(said(&mut bot), ["/bot_hunt 5"]);
    assert_eq!(bot.navigation.status, "moving");
}

#[test]
fn collecting_starts_on_arrival() {
    let mut bot = bot();
    let collect = || ArrivalAction::Collect {
        node: String::from("default:stone"),
        count: 1,
        radius: 3,
        target: None,
    };
    let target = IVec3 { x: 1, y: 1, z: 1 };
    bot.start_arrival(collect(), VecDeque::from([Some(target)]), 0);
    assert_eq!(said(&mut bot), ["/bot_prepare_mine 1 1 1"]);
    assert_eq!(bot.navigation.status, "mining");
    bot.start_arrival(collect(), VecDeque::new(), 0);
    assert_eq!(bot.navigation.last_error.as_deref(), Some("mining_busy"));
    let digging = bot.steer(Heading::Nowhere, false, &step_facts(0.0, 0.0));
    assert!(!digging.forward && !digging.jump);
}

#[test]
fn a_stuck_bot_gives_its_goal_up() {
    let mut bot = goal_bot();
    let mut gave_up = false;
    for _ in 0..20 {
        let heading = bot.head();
        let before = bot.anti_stuck.recovery_attempts();
        let s = bot.steer(heading, false, &step_facts(2.0, 0.0));
        assert!(before <= 3);
        if bot.navigation.status == "recovering" {
            assert!(s.forward && !s.jump && !s.auto_jump && s.on_course);
        }
        if bot.move_goal.is_none() {
            gave_up = true;
            assert!(!s.forward && !s.on_course);
            break;
        }
    }
    assert!(gave_up);
    assert_eq!(bot.navigation.status, "failed");
    assert_eq!(bot.navigation.last_error.as_deref(), Some("stuck_after_recovery"));
    assert_eq!(bot.navigation.recovery_attempts, 3);
    bot.steer(Heading::Nowhere, false, &step_facts(0.0, 0.0));
    assert_eq!(bot.navigation.status, "failed");
}

#[test]
fn a_step_presses_keys_and_is_sent() {
    let mut bot = bot();
    bot.report_step(true, true, true, &fields(), 700).unwrap();
    assert_eq!(bot.session.state.key_pressed, 17);
    assert_eq!(bot.session.state.movement_speed, 1.0_f32.to_bits());
    assert_eq!(bot.session.last_send, 700);
    assert_eq!(bot.last_sent_pos, Some(ORIGIN));
    assert_eq!(bot.session.conn.take_outbox().len(), 1);
    bot.session.state.speed.y = 2.0_f32.to_bits();
    bot.report_step(false, false, true, &fields(), 900).unwrap();
    assert_eq!(bot.session.state.key_pressed, 0);
    bot.report_step(false, false, false, &fields(), 900).unwrap();
    assert_eq!(bot.session.state.key_pressed, 16);
    bot.session.state.pos.x = f32::NAN.to_bits();
    assert!(bot.report_step(false, false, false, &fields(), 900).is_err());
}

#[test]
fn a_walker_follows_whoever_speaks_first() {
    let mut walker = Walker::new("robot", "x", 4.0_f32.to_bits(), true, 0);
    assert!(!walker.timed_out(30_000));
    assert!(walker.timed_out(30_001));
    let event = |sender: &str, message: &str| MtpEvent::ChatMessage {
        message_type: 0,
        sender: String::from(sender),
        message: String::from(message),
    };
    come(&mut walker.bot, 3, "Bob", 20.0);
    walker.take_event(&event("robot", "I am here"), &event_facts(), 0).unwrap();
    assert!(matches!(walker.heading(), Heading::Nowhere));
    walker.take_event(&event("", "*** Bob joined the game"), &event_facts(), 0).unwrap();
    walker.take_event(&event("Carol", "hi"), &event_facts(), 0).unwrap();
    assert!(matches!(walker.heading(), Heading::Player(p) if p == vec3(20.0, 0.0, 0.0)));
    assert_eq!(walker.keys(&step_facts(0.0, 0.0)), (true, false));
    assert_eq!(walker.step(true, false, false, &fields(), 200).unwrap(), Outcome::Continue);
    assert_eq!(walker.step(true, false, true, &fields(), 400).unwrap(), Outcome::Finished);
    let own = String::from("robot");
    assert_eq!(chat_speaker(&own, &own, "hello"), None);
}

#[test]
fn a_herald_sends_each_command_once() {
    let mut herald = Herald::new("robot", "x", "/tp {player}", "/f {player} {player}", 0);
    herald.take_event(&MtpEvent::AuthAccept { recommended_send_interval: 0 });
    herald.take_event(&MtpEvent::ItemDef);
    herald.take_event(&MtpEvent::NodeDef { data: vec![] });
    assert_eq!(herald.advance(), Outcome::Continue);
    herald.session.conn.take_outbox();
    let event = MtpEvent::ChatMessage {
        message_type: 0,
        sender: String::from("Bob"),
        message: String::from("hi"),
    };
    assert_eq!(herald.take_event(&event), Outcome::Continue);
    assert_eq!(herald.target.as_deref(), Some("Bob"));
    assert_eq!(herald.advance(), Outcome::Finished);
    let sent = herald.session.conn.take_outbox();
    assert_eq!(sent.len(), 3);
    assert_eq!(read_wstring_slice(&sent[0], &mut 13).unwrap(), "/tp Bob");
    assert_eq!(read_wstring_slice(&sent[1], &mut 13).unwrap(), "/f Bob Bob");
}

#[test]
fn a_craft_that_is_stopped_takes_its_ingredients_back() {
    let mut bot = bot();
    let ticket = bot.replies.register("BOT_CRAFT").unwrap();
    let craft = ApiCommand::Craft { item: String::from("default:stick"), count: 4 };
    bot.handle_api_command(craft, command_facts(), 0).unwrap();
    let lines = said(&mut bot);
    let nonce = lines[0].split(' ').nth(1).unwrap();
    hear(
        &mut bot,
        "",
        &format!(
            "BOT_CRAFT_PREPARE {{\"nonce\":\"{nonce}\",\"ok\":true,\"item\":\"default:stick\",\
             \"batches\":1,\"produced\":4,\"grid_size\":4,\
             \"moves\":[{{\"player_slot\":7,\"craft_slot\":2,\"count\":1}}]}}"
        ),
    );
    let placed = bot.session.conn.take_outbox();
    let action = |packet: &Vec<u8>| String::from_utf8_lossy(&packet[13..]).into_owned();
    assert_eq!(action(&placed[0]), "Move 1 current_player main 7 current_player craft 2");
    bot.stop(&fields(), 0).unwrap();
    let sent: Vec<String> = bot.session.conn.take_outbox().iter().map(action).collect();
    assert!(sent.iter().any(|text| text.contains("current_player craft 2 current_player main")));
    let result = answer(&mut bot, ticket);
    assert_eq!(result["ok"], false);
    assert_eq!(result["outcome_unknown"], false);
}

#[test]
fn stopping_leaves_nothing_to_do() {
    let mut bot = goal_bot();
    let ticket = bot.replies.register("BOT_MINE").unwrap();
    bot.handle_api_command(ApiCommand::Mine(None), command_facts(), 0).unwrap();
    hear(
        &mut bot,
        "",
        "BOT_MINE_PREPARE {\"ok\":true,\"target\":[1,2,3],\"above\":[1,3,3],\"wield_index\":2,\
         \"dig_time\":0.4,\"node\":\"default:stone\"}",
    );
    bot.session.conn.take_outbox();
    bot.stop(&fields(), 0).unwrap();
    assert_eq!(answer(&mut bot, ticket)["status"], "cancelled");
    assert!(!bot.is_busy() && bot.move_goal.is_none() && !bot.follow_enabled);
    assert_eq!(bot.navigation.status, "idle");
    let sent = bot.session.conn.take_outbox();
    assert_eq!(sent[0][11..14], [0, 0x39, 1]);
}

#[test]
fn a_dig_that_cannot_be_sent_stops_the_bot() {
    let mut bot = bot();
    bot.handle_api_command(ApiCommand::Mine(None), command_facts(), 0).unwrap();
    bot.session.conn.take_outbox();
    let far = "BOT_MINE_PREPARE {\"ok\":true,\"target\":[40000,2,3],\"above\":[40000,3,3],\
        \"wield_index\":2,\"dig_time\":0.4,\"node\":\"default:stone\"}";
    let fault = bot.take_chat("", far, &chat_facts(), 0).unwrap_err();
    assert!(matches!(fault, ChatFault::Outbound(_)));
    assert_eq!(bot.session.conn.take_outbox().len(), 1);
    assert_eq!(bot.session.state.yaw, 1.0_f32.to_bits());
    assert!(bot.is_busy());
}

#[test]
fn a_craft_that_was_not_asked_for_is_not_withdrawn() {
    let mut bot = bot();
    let ticket = bot.replies.register("BOT_CRAFT").unwrap();
    let craft = ApiCommand::Craft { item: String::from("default:stick"), count: 4 };
    bot.handle_api_command(craft, command_facts(), 0).unwrap();
    bot.session.conn.take_outbox();
    fail_craft_send(&mut bot.craft, &mut bot.session.conn, "no route", &mut bot.replies);
    assert!(bot.craft.is_none());
    assert!(bot.session.conn.take_outbox().is_empty());
    let result = answer(&mut bot, ticket);
    assert_eq!(result["status"], "prepare_send_failed:no route");
    assert_eq!(result["outcome_unknown"], false);
}

#[test]
fn turns_end_with_messages_of_the_server() {
    assert!(ends_turn("", "BOT_MINE {}"));
    assert!(ends_turn("-!- @__builtin)Invalid command", "bot_collect"));
    assert!(ends_turn("", "-!- Invalid command: bot_collect"));
    assert!(!ends_turn("-!- @__builtin)Invalid command", "dance"));
    assert!(!ends_turn("Alice", "hello"));
}

#[test]
fn a_route_without_its_points_is_a_fault() {
    let mut bot = bot();
    let message = "BOT_PATH_NODE {\"ok\":true,\"path\":[[3,0,0]],\"stand\":[6,0,0]}";
    let ticket = bot.replies.register("BOT_PATH_NODE").unwrap();
    let facts = ChatFacts { route: Some(route_facts(&[30.0])), ..chat_facts() };
    let fault = bot.take_chat("", message, &facts, 0).unwrap_err();
    assert!(matches!(fault, ChatFault::WrongPoints));
    let facts = ChatFacts { route: Some(route_facts(&[30.0, 60.0])), ..chat_facts() };
    bot.replies.hang_up(ticket);
    bot.take_chat("", message, &facts, 0).unwrap();
    assert!(bot.move_goal.is_none());
    assert!(bot.replies.take_delivered().is_empty());
}
