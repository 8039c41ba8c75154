//! Framing, reassembly, and the commands in both directions.

use luanti_proto_bot::game::player::{PlayerState, WireFields};
use luanti_proto_bot::network::connection::{
    build_reliable_packet, build_unreliable_packet, ping_packet, ping_peer_id, MtpConnection,
    SplitBuffer,
};
use luanti_proto_bot::network::events::{InventoryLocation, MtpEvent};
use luanti_proto_bot::network::inbound::parse_to_client;
use luanti_proto_bot::network::outbound::{
    build_inventory_craft_payload, build_inventory_move_payload,
    build_inventory_move_somewhere_payload, build_node_interact_payload,
    build_wield_selection_payload, validate_outbound_player_state, write_player_state_fields,
    OutboundError,
};
use luanti_proto_bot::network::protocol::{
    CHANNEL_DEFAULT, PACKET_TYPE_ORIGINAL, PACKET_TYPE_RELIABLE, PROTOCOL_ID, SEQNUM_INITIAL,
    TOCLIENT_ACCESS_DENIED, TOCLIENT_AUTH_ACCEPT, TOCLIENT_HELLO, TOCLIENT_MOVEMENT,
    TOCLIENT_MOVE_PLAYER, TOSERVER_INIT2, TOSERVER_INVENTORY_ACTION, TOSERVER_PLAYERITEM,
    TOSERVER_PLAYERPOS,
};
use luanti_proto_bot::network::wire::write_wstring;
use luanti_proto_bot::types::{BlockPos, IVec3, Vec3};

fn header(packet_type: u8) -> Vec<u8> {
    let mut expected = PROTOCOL_ID.to_be_bytes().to_vec();
    expected.extend_from_slice(&0x2345u16.to_be_bytes());
    expected.extend_from_slice(&[CHANNEL_DEFAULT, packet_type]);
    expected
}

fn push_f32(buf: &mut Vec<u8>, value: f32) {
    buf.extend_from_slice(&value.to_be_bytes());
}

fn vec3(x: f32, y: f32, z: f32) -> Vec3 {
    Vec3 { x: x.to_bits(), y: y.to_bits(), z: z.to_bits() }
}

fn wire_vec(v: Vec3) -> IVec3 {
    let scaled = |bits: u32| (f32::from_bits(bits) * 100.0).round() as i32;
    IVec3 { x: scaled(v.x), y: scaled(v.y), z: scaled(v.z) }
}

fn wire_fields(state: &PlayerState) -> WireFields {
    let degrees = |bits: u32| (f32::from_bits(bits).to_degrees() * 100.0).round() as i32;
    WireFields {
        pos: wire_vec(state.pos),
        speed: wire_vec(state.speed),
        pitch: degrees(state.pitch),
        yaw: degrees(state.yaw),
        fov: (f32::from_bits(state.fov) * 80.0).round().clamp(0.0, 255.0) as u8,
        wanted_range: (f32::from_bits(state.wanted_range) / 16.0).ceil().clamp(1.0, 255.0) as u8,
        summary: String::from("state"),
    }
}

#[test]
fn reliable_commands_share_framing_and_wrap_sequence() {
    let mut sequence = u16::MAX;
    let packet = build_reliable_packet(0x2345, &mut sequence, TOSERVER_INIT2.to_be_bytes().to_vec());
    let mut expected = header(PACKET_TYPE_RELIABLE);
    expected.extend_from_slice(&u16::MAX.to_be_bytes());
    expected.push(PACKET_TYPE_ORIGINAL);
    expected.extend_from_slice(&TOSERVER_INIT2.to_be_bytes());
    assert_eq!(packet, expected);
    assert_eq!(sequence, 0);

    let mut payload = TOSERVER_PLAYERITEM.to_be_bytes().to_vec();
    payload.extend_from_slice(&7u16.to_be_bytes());
    let packet = build_reliable_packet(0x2345, &mut sequence, payload);
    let mut expected = header(PACKET_TYPE_RELIABLE);
    expected.extend_from_slice(&0u16.to_be_bytes());
    expected.push(PACKET_TYPE_ORIGINAL);
    expected.extend_from_slice(&TOSERVER_PLAYERITEM.to_be_bytes());
    expected.extend_from_slice(&7u16.to_be_bytes());
    assert_eq!(packet, expected);
    assert_eq!(sequence, 1);
}

#[test]
fn unreliable_packets_have_no_reliable_envelope() {
    let payload = TOSERVER_PLAYERPOS.to_be_bytes().to_vec();
    let packet = build_unreliable_packet(0x2345, payload.clone());
    let mut expected = header(PACKET_TYPE_ORIGINAL);
    expected.extend_from_slice(&payload);
    assert_eq!(packet, expected);
}

#[test]
fn dummy_reliable_packet_contains_an_empty_original_payload() {
    let mut sequence = SEQNUM_INITIAL;
    let packet = build_reliable_packet(0x2345, &mut sequence, Vec::new());
    let mut expected = header(PACKET_TYPE_RELIABLE);
    expected.extend_from_slice(&SEQNUM_INITIAL.to_be_bytes());
    expected.push(PACKET_TYPE_ORIGINAL);
    assert_eq!(packet, expected);
    assert_eq!(sequence, SEQNUM_INITIAL.wrapping_add(1));
}

#[test]
fn split_buffer_reassembles_out_of_order_chunks_without_duplicates() {
    let mut buffer = SplitBuffer::new(3, 0);
    buffer.insert(2, vec![3]);
    buffer.insert(0, vec![1]);
    buffer.insert(2, vec![99]);
    buffer.insert(3, vec![99]);
    assert!(!buffer.is_complete());
    buffer.insert(1, vec![2]);
    assert!(buffer.is_complete());
    assert_eq!(buffer.assemble(), vec![1, 2, 3]);
}

fn check_move_player() {
    let mut payload = Vec::new();
    for value in [7000.0, 250.0, 3500.0, -15.0, 90.0] {
        push_f32(&mut payload, value);
    }

    let Some(MtpEvent::MovePlayer { pos, pitch_degrees, yaw_degrees }) =
        parse_to_client(TOCLIENT_MOVE_PLAYER, &payload)
    else {
        panic!("MOVE_PLAYER did not parse");
    };
    assert_eq!(f32::from_bits(pos.x), 7000.0);
    assert_eq!(f32::from_bits(pos.y), 250.0);
    assert_eq!(f32::from_bits(pos.z), 3500.0);
    let pitch = f32::from_bits(pitch_degrees).to_radians();
    let yaw = f32::from_bits(yaw_degrees).to_radians();
    assert!((pitch.to_degrees() + 15.0).abs() < 0.001);
    assert!((yaw.to_degrees() - 90.0).abs() < 0.001);
}

#[test]
fn mtp_move_player_uses_network_f32_values() {
    check_move_player();
}

#[test]
fn inbound_move_player_uses_network_f32_values() {
    check_move_player();
}

fn check_movement() {
    let values = [3.0, 2.0, 10.0, 4.0, 1.35, 20.0, 3.0, 6.5, 1.0, 0.5, 10.0, 9.81];
    let mut payload = Vec::new();
    for value in values {
        push_f32(&mut payload, value);
    }

    let Some(MtpEvent::Movement(settings)) = parse_to_client(TOCLIENT_MOVEMENT, &payload) else {
        panic!("MOVEMENT did not parse");
    };
    assert_eq!(f32::from_bits(settings.acceleration_default), 3.0);
    assert_eq!(f32::from_bits(settings.speed_walk), 4.0);
    assert_eq!(f32::from_bits(settings.speed_fast), 20.0);
    assert!((f32::from_bits(settings.gravity) - 9.81).abs() < 0.001);
}

#[test]
fn mtp_movement_settings_use_network_f32_values() {
    check_movement();
}

#[test]
fn inbound_movement_settings_use_network_f32_values() {
    check_movement();
}

fn check_auth_accept() {
    let mut payload = Vec::new();
    for value in [0.0, 0.0, 0.0] {
        push_f32(&mut payload, value);
    }
    payload.extend_from_slice(&123_u64.to_be_bytes());
    push_f32(&mut payload, 0.1);

    let Some(MtpEvent::AuthAccept { recommended_send_interval }) =
        parse_to_client(TOCLIENT_AUTH_ACCEPT, &payload)
    else {
        panic!("AUTH_ACCEPT did not parse");
    };
    assert!((f32::from_bits(recommended_send_interval) - 0.1).abs() < 0.001);
}

#[test]
fn mtp_auth_accept_interval_uses_network_f32_value() {
    check_auth_accept();
}

#[test]
fn inbound_auth_accept_interval_uses_network_f32_value() {
    check_auth_accept();
}

fn check_far_state() {
    let state = PlayerState { pos: vec3(1_200_000.0, 250.0, 3500.0), ..PlayerState::default() };
    assert!(validate_outbound_player_state(&state, &wire_fields(&state)).is_err());
}

#[test]
fn mtp_outbound_state_rejects_million_scale_coordinates() {
    check_far_state();
}

#[test]
fn outbound_outbound_state_rejects_million_scale_coordinates() {
    check_far_state();
}

#[test]
fn node_interact_serializes_pointed_node_and_player_state() {
    let state = PlayerState {
        pos: vec3(1.25, -2.0, 3.0),
        speed: vec3(0.5, 0.0, -0.25),
        pitch: 10.0_f32.to_radians().to_bits(),
        yaw: (-90.0_f32).to_radians().to_bits(),
        movement_speed: 4.0_f32.to_bits(),
        movement_dir: 0.5_f32.to_bits(),
        key_pressed: 0x0102_0304,
        fov: 1.2_f32.to_bits(),
        wanted_range: 128.0_f32.to_bits(),
        camera_inverted: true,
    };
    let fields = wire_fields(&state);
    let under = IVec3 { x: 10, y: -5, z: 300 };
    let above = IVec3 { x: 10, y: -4, z: 300 };

    let payload = build_node_interact_payload(0, 2, under, above, &state, &fields).unwrap();
    let expected_header_and_pointed = [
        0x00, 0x39, // TOSERVER_INTERACT
        0x00, // INTERACT_START_DIGGING
        0x00, 0x02, // zero-based wield index
        0x00, 0x00, 0x00, 0x0e, // long-string length
        0x00, 0x01, // PointedThing version, POINTEDTHING_NODE
        0x00, 0x0a, 0xff, 0xfb, 0x01, 0x2c, // under
        0x00, 0x0a, 0xff, 0xfc, 0x01, 0x2c, // above
    ];
    assert_eq!(&payload[..expected_header_and_pointed.len()], expected_header_and_pointed);

    let mut player_fields = Vec::new();
    write_player_state_fields(&mut player_fields, &state, &fields);
    assert_eq!(&payload[expected_header_and_pointed.len()..], player_fields);
    assert_eq!(player_fields.len(), 47);
}

#[test]
fn node_interact_rejects_coordinates_outside_v3s16() {
    let state = PlayerState::default();
    let result = build_node_interact_payload(
        0,
        0,
        IVec3 { x: i16::MAX as i32 + 1, y: 0, z: 0 },
        IVec3 { x: 0, y: 0, z: 0 },
        &state,
        &wire_fields(&state),
    );
    assert!(result.is_err());
}

#[test]
fn wield_selection_serializes_zero_based_index() {
    assert_eq!(build_wield_selection_payload(7), [0x00, 0x37, 0x00, 0x07]);
}

#[test]
fn inventory_move_somewhere_serializes_native_action() {
    let payload = build_inventory_move_somewhere_payload(
        12,
        InventoryLocation::CurrentPlayer,
        "main",
        4,
        InventoryLocation::NodeMeta(IVec3 { x: 10, y: 20, z: -3 }),
        "main",
    )
    .unwrap();
    assert_eq!(&payload[..2], &TOSERVER_INVENTORY_ACTION.to_be_bytes());
    assert_eq!(
        std::str::from_utf8(&payload[2..]).unwrap(),
        "MoveSomewhere 12 current_player main 4 nodemeta:10,20,-3 main"
    );
}

#[test]
fn furnace_inventory_moves_use_native_src_fuel_and_dst_lists() {
    let furnace = InventoryLocation::NodeMeta(IVec3 { x: 4, y: 5, z: 6 });
    for list in ["src", "fuel"] {
        let payload = build_inventory_move_somewhere_payload(
            2,
            InventoryLocation::CurrentPlayer,
            "main",
            3,
            furnace,
            list,
        )
        .unwrap();
        assert_eq!(
            std::str::from_utf8(&payload[2..]).unwrap(),
            format!("MoveSomewhere 2 current_player main 3 nodemeta:4,5,6 {list}")
        );
    }
    let payload = build_inventory_move_somewhere_payload(
        1,
        furnace,
        "dst",
        0,
        InventoryLocation::CurrentPlayer,
        "main",
    )
    .unwrap();
    assert_eq!(
        std::str::from_utf8(&payload[2..]).unwrap(),
        "MoveSomewhere 1 nodemeta:4,5,6 dst 0 current_player main"
    );
}

#[test]
fn inventory_move_serializes_exact_destination_slot() {
    let payload = build_inventory_move_payload(
        3,
        InventoryLocation::CurrentPlayer,
        "main",
        5,
        InventoryLocation::CurrentPlayer,
        "craft",
        2,
    )
    .unwrap();
    assert_eq!(&payload[..2], &TOSERVER_INVENTORY_ACTION.to_be_bytes());
    assert_eq!(
        std::str::from_utf8(&payload[2..]).unwrap(),
        "Move 3 current_player main 5 current_player craft 2"
    );
}

#[test]
fn inventory_craft_serializes_bounded_native_action() {
    let payload = build_inventory_craft_payload(2).unwrap();
    assert_eq!(&payload[..2], &TOSERVER_INVENTORY_ACTION.to_be_bytes());
    assert_eq!(std::str::from_utf8(&payload[2..]).unwrap(), "Craft 2 current_player");
    assert!(build_inventory_craft_payload(0).is_err());
}

#[test]
fn inventory_move_rejects_zero_count_and_unsafe_lists() {
    assert!(build_inventory_move_somewhere_payload(
        0,
        InventoryLocation::CurrentPlayer,
        "main",
        0,
        InventoryLocation::CurrentPlayer,
        "main",
    )
    .is_err());
    assert!(build_inventory_move_somewhere_payload(
        1,
        InventoryLocation::CurrentPlayer,
        "main injected",
        0,
        InventoryLocation::CurrentPlayer,
        "main",
    )
    .is_err());
}

#[test]
fn rejected_actions_say_why() {
    let player = InventoryLocation::CurrentPlayer;
    let zero = build_inventory_move_payload(0, player, "main", 0, player, "craft", 0).unwrap_err();
    assert!(matches!(zero, OutboundError::ZeroMoveCount));
    let craft = build_inventory_craft_payload(0).unwrap_err();
    assert!(matches!(craft, OutboundError::ZeroCraftCount));
    let list = build_inventory_move_payload(1, player, "a b", 0, player, "craft", 0).unwrap_err();
    assert!(matches!(&list, OutboundError::ListName(name) if name == "a b"));
    let far = InventoryLocation::NodeMeta(IVec3 { x: 0, y: -40_000, z: 0 });
    let place = build_inventory_move_payload(1, far, "main", 0, player, "craft", 0).unwrap_err();
    assert!(matches!(place, OutboundError::Coordinate { value: -40_000, .. }));
    let state = PlayerState { yaw: f32::NAN.to_bits(), ..PlayerState::default() };
    let fields = wire_fields(&state);
    let unsafe_state = validate_outbound_player_state(&state, &fields).unwrap_err();
    assert!(matches!(unsafe_state, OutboundError::UnsafeState(_)));
    assert!(!zero.message().is_empty());
}

#[test]
fn states_within_the_limits_are_accepted() {
    let state = PlayerState { pos: vec3(-500_000.0, 0.0, 500_000.0), ..PlayerState::default() };
    assert!(validate_outbound_player_state(&state, &wire_fields(&state)).is_ok());
    let state = PlayerState { speed: vec3(10_000.5, 0.0, 0.0), ..PlayerState::default() };
    assert!(validate_outbound_player_state(&state, &wire_fields(&state)).is_err());
}

/// A datagram of the server.
fn datagram(body: &[u8]) -> Vec<u8> {
    let mut d = PROTOCOL_ID.to_be_bytes().to_vec();
    d.extend_from_slice(&[0, 1, 0]);
    d.extend_from_slice(body);
    d
}

#[test]
fn reliable_commands_are_acknowledged_and_understood() {
    let mut conn = MtpConnection::new();
    conn.set_peer_id(0x2345);
    let seen = conn.recv_packet(&datagram(&[3, 0x12, 0x34, 1, 0, 0x0a, 5]), 0);
    assert!(matches!(seen, Some(MtpEvent::AccessDenied { reason: 5 })));
    let sent = conn.take_outbox();
    assert_eq!(sent.len(), 1);
    let mut ack = header(0);
    ack.extend_from_slice(&[0, 0x12, 0x34]);
    assert_eq!(sent[0], ack);
    assert_eq!(conn.last_command(), Some((TOCLIENT_ACCESS_DENIED, 1)));
    assert!(conn.take_outbox().is_empty());
}

#[test]
fn split_commands_are_put_together() {
    let mut conn = MtpConnection::new();
    let first = datagram(&[2, 0, 9, 0, 2, 0, 0, 0, 0x0a]);
    let second = datagram(&[2, 0, 9, 0, 2, 0, 1, 7]);
    assert!(conn.recv_packet(&second, 0).is_none());
    let seen = conn.recv_packet(&first, 1);
    assert!(matches!(seen, Some(MtpEvent::AccessDenied { reason: 7 })));
}

#[test]
fn foreign_datagrams_are_ignored() {
    let mut conn = MtpConnection::new();
    assert!(conn.recv_packet(&[1, 2, 3], 0).is_none());
    assert!(conn.recv_packet(&[9, 9, 9, 9, 0, 1, 0, 1, 0, 0x0a, 5], 0).is_none());
    assert!(conn.take_outbox().is_empty());
}

#[test]
fn a_peer_id_is_announced() {
    let mut conn = MtpConnection::new();
    let seen = conn.recv_packet(&datagram(&[0, 1, 0, 42]), 0);
    assert!(matches!(seen, Some(MtpEvent::SetPeerId(42))));
    conn.set_peer_id(42);
    assert_eq!(conn.peer_id(), 42);
}

#[test]
fn traced_packets_carry_their_command() {
    let mut conn = MtpConnection::new();
    let Some((trace, event)) = conn.recv_packet_trace(&datagram(&[1, 0, 0x0a, 5]), 0) else {
        panic!("the packet was not traced");
    };
    assert_eq!(trace.cmd, Some(TOCLIENT_ACCESS_DENIED));
    assert!(matches!(event, Some(MtpEvent::AccessDenied { reason: 5 })));
}

#[test]
fn a_ping_is_answered_with_a_peer_id() {
    assert!(ping_packet().starts_with(&PROTOCOL_ID.to_be_bytes()));
    assert_eq!(ping_peer_id(&[0; 13]), None);
    assert_eq!(ping_peer_id(&[0, 0, 0, 0, 0, 0, 0, 0, 0, 0, 0, 0, 1, 2]), Some(0x0102));
}

#[test]
fn a_hello_tells_versions_and_mechanisms() {
    let mut payload = vec![29, 0, 0, 0, 46];
    payload.extend_from_slice(&6_u32.to_be_bytes());
    payload.extend_from_slice(&[0, 0]);
    let Some(MtpEvent::ToClientHello { auth_mechs, proto_ver, ser_ver }) =
        parse_to_client(TOCLIENT_HELLO, &payload)
    else {
        panic!("HELLO did not parse");
    };
    assert_eq!((auth_mechs, proto_ver, ser_ver), (6, 46, 29));
}

#[test]
fn chat_is_sent_as_wide_characters() {
    let mut conn = MtpConnection::new();
    conn.send_chat_message("hi\u{e9}");
    let sent = conn.take_outbox();
    let mut text = Vec::new();
    write_wstring(&mut text, "hi\u{e9}");
    assert!(sent[0].ends_with(&text));
}

#[test]
fn received_blocks_are_confirmed() {
    let mut conn = MtpConnection::new();
    conn.send_gotblocks(&[BlockPos { x: 1, y: 2, z: -1 }]);
    let sent = conn.take_outbox();
    assert!(sent[0].ends_with(&[0, 0x24, 1, 0, 1, 0, 2, 0xff, 0xff]));
    conn.send_gotblocks(&[]);
    assert!(conn.take_outbox().is_empty());
}
