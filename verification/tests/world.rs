//! Blocks, definitions, objects and what can be collected.

use luanti_proto_bot::bot::entities::{
    find_target_id, parse_active_object_init, parse_active_object_update_position, ObjectFault,
    Players, RemotePlayer,
};
use luanti_proto_bot::bot::observation::{build_observe_json, obstacle_kind};
use luanti_proto_bot::bot::navigation::NavigationSnapshot;
use luanti_proto_bot::bot::tasks::targets::{choose_targets, collect_candidates, Ranked};
use luanti_proto_bot::codec::ByteReader;
use luanti_proto_bot::nodedef::{parse_nodedef, parse_nodedef_zstd, DefFault, NodeDefError};
use luanti_proto_bot::types::{BlockPos, IVec3, Vec3};
use luanti_proto_bot::world::{
    decode_zstd_frame, div_floor, judge_stream, mod_floor, parse_nodes, BlockError, MapNode, World,
};

const NODES: usize = 4096;
const AIR: u16 = 0;

/// A block of air with some other nodes.
fn content(others: &[(usize, u16)]) -> Vec<u8> {
    let mut ids = vec![AIR; NODES];
    for (index, id) in others {
        ids[*index] = *id;
    }
    let mut d = vec![0, 0xff, 2, 2];
    for id in ids {
        d.extend_from_slice(&id.to_be_bytes());
    }
    d.extend(std::iter::repeat(15).take(NODES));
    d.extend(std::iter::repeat(1).take(NODES));
    d
}

fn block(others: &[(usize, u16)]) -> Vec<u8> {
    let mut data = vec![29];
    data.extend(zstd::encode_all(content(others).as_slice(), 1).unwrap());
    data
}

fn string16(out: &mut Vec<u8>, s: &str) {
    out.extend_from_slice(&(s.len() as u16).to_be_bytes());
    out.extend_from_slice(s.as_bytes());
}

fn features(name: &str, walkable: bool, boxes: &[[f32; 6]]) -> Vec<u8> {
    let mut d = vec![13];
    string16(&mut d, name);
    d.extend_from_slice(&[0, 1]);
    string16(&mut d, "cracky");
    d.extend_from_slice(&[0, 3]);
    d.extend_from_slice(&[0, 0, 0]);
    string16(&mut d, "");
    d.extend_from_slice(&1.0_f32.to_be_bytes());
    d.push(6);
    for _ in 0..12 {
        d.push(6);
        string16(&mut d, "t.png");
        d.extend_from_slice(&[0, 0, 0]);
    }
    d.push(0);
    d.extend_from_slice(&[255, 0, 0, 0]);
    string16(&mut d, "");
    d.extend_from_slice(&[0, 0, 0, 0]);
    d.extend_from_slice(&[0, 0, 0, 0, 0]);
    d.extend_from_slice(&[0, 0, 0, 0]);
    d.extend_from_slice(&[walkable as u8, 1, 1, 0, 0, 0]);
    d.extend_from_slice(&[0, 0, 0, 0]);
    d.push(0);
    string16(&mut d, "");
    string16(&mut d, "");
    d.extend_from_slice(&[0, 0, 0, 0, 0]);
    for _ in 0..2 {
        d.extend_from_slice(&[6, 0]);
    }
    if boxes.is_empty() {
        d.extend_from_slice(&[6, 0]);
    } else {
        d.extend_from_slice(&[6, 1]);
        d.extend_from_slice(&(boxes.len() as u16).to_be_bytes());
        for corner in boxes.iter().flatten() {
            d.extend_from_slice(&(corner * 10.0).to_be_bytes());
        }
    }
    for _ in 0..3 {
        string16(&mut d, "");
        d.extend_from_slice(&[0; 12]);
    }
    d.extend_from_slice(&[0, 0]);
    string16(&mut d, "");
    d
}

fn definitions(nodes: &[(u16, Vec<u8>)]) -> Vec<u8> {
    let mut inner = Vec::new();
    for (id, f) in nodes {
        inner.extend_from_slice(&id.to_be_bytes());
        inner.extend_from_slice(&(f.len() as u16).to_be_bytes());
        inner.extend_from_slice(f);
    }
    let mut d = vec![1];
    d.extend_from_slice(&(nodes.len() as u16).to_be_bytes());
    d.extend_from_slice(&(inner.len() as u32).to_be_bytes());
    d.extend(inner);
    d
}

fn known_world() -> World {
    let mut world = World::new();
    let defs = definitions(&[
        (1, features("default:stone", true, &[])),
        (2, features("default:grass", false, &[])),
        (3, features("stairs:slab", true, &[[-0.5, -0.5, -0.5, 0.5, 0.0, 0.5]])),
    ]);
    let packed = zstd::encode_all(defs.as_slice(), 1).unwrap();
    world.set_nodedef(parse_nodedef_zstd(&packed, 46).unwrap());
    world
}

fn at(x: i32, y: i32, z: i32) -> IVec3 {
    IVec3 { x, y, z }
}

#[test]
fn a_block_is_read_back_node_by_node() {
    let mut world = known_world();
    assert_eq!(world.get_node(at(0, 0, 0)), None);
    let pos = BlockPos { x: -1, y: 0, z: 1 };
    world.ingest_block(pos, &block(&[(0, 1), (15 + 2 * 16 + 3 * 256, 2)]), 29).unwrap();
    assert_eq!(world.block_count(), 1);
    let stone = MapNode { content: 1, param1: 15, param2: 1 };
    assert_eq!(world.get_node(at(-16, 0, 16)), Some(stone));
    assert_eq!(world.get_node(at(-1, 2, 19)).unwrap().content, 2);
    assert_eq!(world.get_node(at(-15, 0, 16)).unwrap().content, AIR);
    assert_eq!(world.get_node(at(0, 0, 16)), None);
    assert_eq!(world.node_name(stone), "default:stone");
    assert_eq!(world.node_name(MapNode { content: AIR, param1: 0, param2: 0 }), "air");
}

#[test]
fn broken_blocks_are_refused_and_change_nothing() {
    let mut world = World::new();
    let pos = BlockPos { x: 0, y: 0, z: 0 };
    let mut fault = |data: &[u8]| world.ingest_block(pos, data, 29).unwrap_err();
    assert!(matches!(fault(&[]), BlockError::Empty));
    assert!(matches!(fault(&[1, 2, 3]), BlockError::NoMagic));
    assert!(matches!(fault(&[0x28, 0xb5, 0x2f, 0xfd, 0xff]), BlockError::Stream(_)));
    let packed = |d: &[u8]| zstd::encode_all(d, 1).unwrap();
    assert!(matches!(fault(&packed(&[])), BlockError::EmptyFrame));
    assert!(matches!(fault(&packed(&[1, 2])), BlockError::ShortHeader));
    assert!(matches!(fault(&packed(&[9; 64])), BlockError::NoLayout));
    assert_eq!(world.block_count(), 0);
}

#[test]
fn what_follows_a_frame_is_ignored() {
    let mut data = block(&[(5, 1)]);
    data.extend_from_slice(b"trailing bytes that are no frame");
    let mut world = World::new();
    world.ingest_block(BlockPos { x: 0, y: 0, z: 0 }, &data, 29).unwrap();
    assert_eq!(world.get_node(at(5, 0, 0)).unwrap().content, 1);
    let unknown = || Some(String::from("Unknown frame descriptor"));
    assert_eq!(judge_stream(vec![1], unknown()).unwrap(), [1]);
    assert!(judge_stream(vec![], unknown()).is_err());
    assert!(judge_stream(vec![1], Some(String::from("other"))).is_err());
}

#[test]
fn narrow_nodes_are_read_too() {
    let mut d = vec![1, 2];
    d.extend(std::iter::repeat(7).take(NODES));
    d.extend(std::iter::repeat(8).take(NODES));
    d.extend(std::iter::repeat(9).take(NODES));
    let nodes = parse_nodes(&d).unwrap();
    assert_eq!(nodes.len(), NODES);
    assert_eq!(nodes[4095], MapNode { content: 7, param1: 8, param2: 9 });
}

#[test]
fn collision_boxes_follow_the_definitions() {
    let mut world = known_world();
    let data = block(&[(0, 1), (1, 2), (2, 3), (3, 127), (4, 900)]);
    world.ingest_block(BlockPos { x: 0, y: 0, z: 0 }, &data, 29).unwrap();
    let half = 0.5_f32.to_bits();
    let whole = world.collision_boxes(at(0, 0, 0)).unwrap();
    assert_eq!(whole.len(), 1);
    assert_eq!(whole[0].max, Vec3 { x: half, y: half, z: half });
    assert_eq!(world.collision_boxes(at(1, 0, 0)).unwrap().len(), 0);
    let slab = world.collision_boxes(at(2, 0, 0)).unwrap();
    assert_eq!(f32::from_bits(slab[0].max.x).abs(), f32::from_bits(slab[0].min.x).abs());
    assert_eq!(f32::from_bits(slab[0].max.y), 0.0);
    assert!(world.collision_boxes(at(3, 0, 0)).is_none());
    assert_eq!(world.collision_boxes(at(4, 0, 0)).unwrap().len(), 1);
    assert_eq!(world.collision_boxes(at(5, 0, 0)).unwrap().len(), 0);
    assert!(world.collision_boxes(at(100, 0, 0)).is_none());
}

#[test]
fn definitions_are_refused_with_a_reason() {
    assert_eq!(parse_nodedef(&[]).unwrap_err(), DefFault::OutOfBounds);
    assert_eq!(parse_nodedef(&[0]).unwrap_err(), DefFault::ManagerVersion(0));
    let mut old = features("a", true, &[]);
    old[0] = 12;
    let defs = definitions(&[(0, old)]);
    assert_eq!(parse_nodedef(&defs).unwrap_err(), DefFault::FeaturesVersion(12));
    let mut tiles = features("a", true, &[]);
    let tile_count_at = 1 + 3 + 2 + 8 + 2 + 3 + 2 + 4;
    assert_eq!(tiles[tile_count_at], 6);
    tiles[tile_count_at] = 5;
    assert_eq!(
        parse_nodedef(&definitions(&[(0, tiles)])).unwrap_err(),
        DefFault::TileCount(5)
    );
    let mut tile = features("a", true, &[]);
    tile[tile_count_at + 1] = 5;
    assert_eq!(
        parse_nodedef(&definitions(&[(0, tile)])).unwrap_err(),
        DefFault::TileVersion(5)
    );
    let mut boxed = features("a", true, &[]);
    let box_at = boxed.len() - 2 - 2 - 3 * 14 - 2;
    assert_eq!(boxed[box_at], 6);
    boxed[box_at] = 1;
    assert_eq!(
        parse_nodedef(&definitions(&[(0, boxed)])).unwrap_err(),
        DefFault::BoxVersion(1)
    );
    assert!(matches!(parse_nodedef_zstd(&[1, 2], 46), Err(NodeDefError::Decompress(_))));
}

#[test]
fn definitions_are_found_by_their_number() {
    let defs = definitions(&[(2, features("default:stone", true, &[]))]);
    let manager = parse_nodedef(&defs).unwrap();
    assert_eq!(manager.name(2), Some("default:stone"));
    assert_eq!(manager.name(0), None);
    let stone = manager.get(2).unwrap();
    assert!(stone.walkable && !stone.climbable);
    assert_eq!(stone.groups, [(String::from("cracky"), 3)]);
    assert!(manager.get(3).is_none());
}

fn init_data(name: &str, is_player: bool, x: f32) -> Vec<u8> {
    let mut d = vec![1];
    string16(&mut d, name);
    d.push(is_player as u8);
    d.extend_from_slice(&[0, 7]);
    d.extend_from_slice(&x.to_be_bytes());
    d.extend_from_slice(&[0; 8]);
    d.extend_from_slice(&[0; 12]);
    d.extend_from_slice(&[0, 20]);
    d.push(0);
    d
}

#[test]
fn objects_tell_who_and_where_they_are() {
    let info = parse_active_object_init(&init_data("Bob", true, 30.0)).unwrap();
    assert_eq!((info.name.as_str(), info.is_player), ("Bob", true));
    assert_eq!(f32::from_bits(info.pos.x), 30.0);
    assert!(matches!(parse_active_object_init(&[0]), Err(ObjectFault::Version(0))));
    assert!(matches!(parse_active_object_init(&[1, 0]), Err(ObjectFault::OutOfBounds)));
    let mut update = vec![1];
    update.extend_from_slice(&5.0_f32.to_be_bytes());
    assert!(parse_active_object_update_position(&update).is_err());
    update.extend_from_slice(&[0; 50]);
    let moved = parse_active_object_update_position(&update).unwrap().unwrap();
    assert_eq!(f32::from_bits(moved.x), 5.0);
    assert!(parse_active_object_update_position(&[2]).unwrap().is_none());
    assert!(parse_active_object_update_position(&[]).is_err());
}

#[test]
fn players_are_found_by_name() {
    let mut players = Players::new();
    let here = Vec3 { x: 0, y: 0, z: 0 };
    players.insert(4, RemotePlayer { name: String::from("Alice"), pos: here });
    players.insert(5, RemotePlayer { name: String::from("Bob"), pos: here });
    assert_eq!(find_target_id(&players, Some(" Bob ")), Some(5));
    assert_eq!(find_target_id(&players, Some("Carol")), None);
    assert_eq!(find_target_id(&players, None), None);
    let there = Vec3 { x: 1, y: 2, z: 3 };
    players.set_pos(5, there);
    assert_eq!(players.get(5).unwrap().pos, there);
    players.remove(5);
    assert!(players.get(5).is_none());
    assert_eq!(players.len(), 1);
    assert_eq!(players.entry(0).0, 4);
}

#[test]
fn nearby_nodes_are_collected_nearest_first() {
    let mut world = known_world();
    let data = block(&[(0, 1), (3, 1), (9, 1), (16, 2)]);
    world.ingest_block(BlockPos { x: 0, y: 0, z: 0 }, &data, 29).unwrap();
    let found = collect_candidates(&world, at(2, 0, 0), 4, "default:stone", None);
    assert_eq!(found.len(), 2);
    assert!(found.contains(&at(0, 0, 0)) && found.contains(&at(3, 0, 0)));
    let ranks: Vec<u32> = found
        .iter()
        .map(|p| ((p.x as f32 - 2.0) * (p.x as f32 - 2.0)).to_bits())
        .collect();
    let within = vec![true; found.len()];
    let targets = choose_targets(&found, &ranks, &within, None, 2);
    assert_eq!(targets.front(), Some(&Some(at(3, 0, 0))));
    assert_eq!(targets.len(), 2);
    let preferred = Some(Ranked { pos: at(9, 9, 9), rank: 0 });
    let targets = choose_targets(&found, &ranks, &within, preferred, 1);
    assert_eq!(targets.front(), Some(&Some(at(9, 9, 9))));
}

#[test]
fn surroundings_are_reported() {
    let mut world = known_world();
    let data = block(&[(0, 1), (1, 2)]);
    world.ingest_block(BlockPos { x: 0, y: 0, z: 0 }, &data, 29).unwrap();
    assert_eq!(obstacle_kind(&world, at(100, 0, 0)), "unknown");
    let text = build_observe_json(
        at(1, 0, 0),
        "north",
        1,
        &world,
        &Players::new(),
        &vec![],
        false,
        None,
        None,
        &NavigationSnapshot::default(),
        &serde_json::Value::from(0.0),
    );
    let seen: serde_json::Value = serde_json::from_str(&text).unwrap();
    assert_eq!(seen["facing"], "north");
    assert_eq!(seen["nodes"].as_array().unwrap().len(), 27);
    assert_eq!(seen["nodes"][10]["name"], "default:stone");
    assert_eq!(seen["nodes"][0]["name"], "unknown");
    assert_eq!(seen["obstacles"]["left"], obstacle_kind(&world, at(0, 0, 0)));
    assert_eq!(seen["controller"]["navigation"]["status"], "idle");
}

#[test]
fn a_reader_stops_at_the_end() {
    let mut reader = ByteReader::new(&[0, 1, 65, 9]);
    assert_eq!(reader.read_string16().unwrap(), "A");
    assert_eq!(reader.position(), 3);
    assert_eq!(reader.remaining(), 1);
    assert!(reader.read_u16().is_err());
    assert!(reader.skip(1).is_ok());
    assert!(reader.read_u8().is_err());
    let mut broken = ByteReader::new(&[0, 2, 0xff, 65]);
    assert_eq!(broken.read_string16().unwrap(), "\u{fffd}A");
}

/// A frame with one raw block, which declares its size and a window of the given
/// logarithm.
fn raw_frame(content: &[u8], window_log: u8) -> Vec<u8> {
    let mut d = vec![0x28, 0xb5, 0x2f, 0xfd, 0x40, (window_log - 10) << 3];
    d.extend_from_slice(&((content.len() - 256) as u16).to_le_bytes());
    d.extend_from_slice(&((content.len() << 3 | 1) as u32).to_le_bytes()[..3]);
    d.extend_from_slice(content);
    d
}

#[test]
fn small_frames_are_read_whatever_their_window() {
    let content = [7_u8; 300];
    assert_eq!(decode_zstd_frame(&raw_frame(&content, 20)).unwrap(), content);
    assert_eq!(decode_zstd_frame(&raw_frame(&content, 30)).unwrap(), content);
    let large = vec![7_u8; 9_000];
    assert_eq!(decode_zstd_frame(&raw_frame(&large, 20)).unwrap(), large);
    let fault = decode_zstd_frame(&raw_frame(&large, 30));
    assert!(matches!(fault, Err(BlockError::Stream(_))));
}

#[test]
fn negative_positions_lie_in_the_blocks_before() {
    let mut world = World::new();
    let pos = BlockPos { x: -1, y: -1, z: -1 };
    world.ingest_block(pos, &block(&[(15 + 15 * 16 + 15 * 256, 3)]), 29).unwrap();
    assert_eq!(world.get_node(at(-1, -1, -1)).unwrap().content, 3);
    assert_eq!(world.get_node(at(-16, -16, -16)).unwrap().content, AIR);
    assert_eq!(world.get_node(at(-17, -1, -1)), None);
}

#[test]
fn division_rounds_down() {
    assert_eq!((div_floor(-1, 16), mod_floor(-1, 16)), (-1, 15));
    assert_eq!((div_floor(33, 16), mod_floor(33, 16)), (2, 1));
    assert_eq!((div_floor(i32::MIN, 1), mod_floor(i32::MIN, 16)), (i32::MIN, 0));
}
