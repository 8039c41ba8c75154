//! The HTTP interface, traces and texts.

use luanti_proto_bot::api::http::{
    hex_val, param, parse_json_field, parse_json_value, parse_query, read_request, url_decode,
    write_json_error, write_reply, HeadTooLong, Request,
};
use luanti_proto_bot::api::routes::{
    clip_message, parse_move_direction, route, settle, MoveNumbers, Plan,
};
use luanti_proto_bot::bot::chat::{log_chat, ChatLog};
use luanti_proto_bot::bot::commands::ApiCommand;
use luanti_proto_bot::bot::navigation::{MoveDirection, MoveSpec};
use luanti_proto_bot::network::events::{MtpEvent, TracePacket};
use luanti_proto_bot::scan::{parse_int, replace, trim};
use luanti_proto_bot::text::{push_dec, push_hex, to_chars};
use luanti_proto_bot::trace::{build_observation_line, build_trace_json, escape_json, MoveTexts};
use luanti_proto_bot::types::IVec3;

const NO_NUMBERS: MoveNumbers = MoveNumbers {
    speed: None,
    steps: None,
    dx: None,
    dy: None,
    dz: None,
    x: None,
    y: None,
    z: None,
};

fn request(text: &str) -> Request {
    read_request(text.as_bytes(), "").unwrap().unwrap()
}

fn plan(text: &str) -> Plan {
    route(&request(text), &ChatLog::default(), "here", &NO_NUMBERS)
}

fn post(path: &str, body: &str) -> Plan {
    plan(&format!("POST {path} HTTP/1.1\r\nHost: x\r\n\r\n{body}"))
}

#[test]
fn a_request_is_taken_apart() {
    let r = request("POST /mine?x=1&y=-2&note=a+b%21 HTTP/1.1\r\nHost: x\r\n\r\n{\"z\":1}");
    assert_eq!(r.method, "POST");
    assert_eq!(r.endpoint, "/mine");
    assert_eq!(param(&r.params, "y"), Some("-2"));
    assert_eq!(param(&r.params, "note"), Some("a b!"));
    assert_eq!(param(&r.params, "z"), None);
    assert_eq!(r.body, "{\"z\":1}");
    assert!(r.authorized);
    assert!(read_request(b"GET / HTTP/1.1\r\n", "").unwrap().is_none());
}

#[test]
fn the_token_has_to_be_shown() {
    let bare = b"GET /health HTTP/1.1\r\nHost: x\r\n\r\n";
    let shown = b"GET /health HTTP/1.1\r\nAuthorization: Bearer  abc \r\n\r\n";
    let wrong = b"GET /health HTTP/1.1\r\nAuthorization: Bearer abcd\r\n\r\n";
    let late = b"GET /health HTTP/1.1\r\n\r\nAuthorization: Bearer abc\r\n";
    let authorized = |data: &[u8]| read_request(data, "abc").unwrap().unwrap().authorized;
    assert!(!authorized(bare));
    assert!(authorized(shown));
    assert!(!authorized(wrong));
    assert!(!authorized(late));
    let refused = read_request(bare, "abc").unwrap().unwrap();
    let plan = route(&refused, &ChatLog::default(), "", &NO_NUMBERS);
    assert!(matches!(plan, Plan::Reply(text) if text == "HTTP/1.1 401 Unauthorized\r\n\r\n"));
}

#[test]
fn a_repaired_head_may_be_too_long() {
    assert!(matches!(read_request(b"\xff\r\n\r\n", ""), Err(HeadTooLong)));
    let r = read_request(b"GET /a\r\n\r\n\xff", "").unwrap().unwrap();
    assert_eq!(r.body, "\u{fffd}");
}

#[test]
fn queries_are_decoded() {
    assert_eq!(url_decode("%41+%zz%4"), "A %zz%4");
    assert_eq!(url_decode("%e9"), "\u{e9}");
    assert_eq!((hex_val(b'f'), hex_val(b'G')), (Some(15), None));
    let params = parse_query("a=1&&b&a=2&c=x=y");
    assert_eq!(param(&params, "a"), Some("2"));
    assert_eq!(param(&params, "b"), Some(""));
    assert_eq!(param(&params, "c"), Some("x=y"));
}

#[test]
fn fields_are_found_in_bodies() {
    let body = "{\"target\" : \"A\\\"b\\n\", \"n\": 1}";
    assert_eq!(parse_json_field(body, "target").as_deref(), Some("A\"b\n"));
    assert_eq!(parse_json_field(body, "n"), None);
    assert_eq!(parse_json_field("{\"a\":\"open", "a"), None);
    assert!(parse_json_value("  ").is_none());
    assert_eq!(parse_json_value(" [1] ").unwrap()[0], 1);
}

#[test]
fn replies_count_bytes() {
    assert_eq!(
        write_reply("200 OK", "text/plain", "h\u{e9}"),
        "HTTP/1.1 200 OK\r\nContent-Type: text/plain\r\nContent-Length: 3\r\n\r\nh\u{e9}"
    );
    let error = write_json_error("400 Bad Request", "why");
    assert!(error.starts_with("HTTP/1.1 400 Bad Request\r\nContent-Type: application/json"));
    assert!(error.contains("\"error\":\"why\""));
}

#[test]
fn commands_about_players_need_one() {
    let sent = |path: &str| post(path, "{\"target\":\"Bob\"}");
    let is = |plan: Plan| match plan {
        Plan::Answer { command: Some(c), body, json: false } if body == "OK" => c,
        _ => panic!("not passed on"),
    };
    assert!(matches!(is(sent("/follow")), ApiCommand::Follow(t) if t == "Bob"));
    assert!(matches!(is(sent("/attack")), ApiCommand::Attack(_)));
    assert!(matches!(is(sent("/approach")), ApiCommand::Approach(_)));
    assert!(matches!(is(sent("/interact")), ApiCommand::Interact(_)));
    assert!(matches!(is(sent("/fight")), ApiCommand::Fight(_)));
    assert!(matches!(is(sent("/tp")), ApiCommand::Teleport(_)));
    assert!(matches!(is(post("/teleport?target=Al", "")), ApiCommand::Teleport(t) if t == "Al"));
    assert!(matches!(post("/follow", ""), Plan::Reply(t) if t.starts_with("HTTP/1.1 400")));
    assert!(matches!(post("/nowhere", ""), Plan::Reply(t) if t.starts_with("HTTP/1.1 400")));
}

#[test]
fn commands_about_things_wait_for_the_server() {
    let awaited = |plan: Plan| match plan {
        Plan::Await { command, tag, patience_ms, late, .. } => {
            assert_eq!(patience_ms, 2_000);
            assert!(late.starts_with("HTTP/1.1 504 Gateway Timeout"));
            (command, tag.unwrap())
        }
        _ => panic!("not awaited"),
    };
    let pos = IVec3 { x: 1, y: 2, z: -3 };
    let (mine, tag) = awaited(post("/mine?x=1&y=2&z=-3", ""));
    assert!(matches!(mine, ApiCommand::Mine(Some(p)) if p == pos));
    assert_eq!(tag, "BOT_MINE");
    let (place, _) = awaited(post("/place?x=1", ""));
    assert!(matches!(place, ApiCommand::Place(None)));
    let (dropped, _) = awaited(post("/drop", "{\"item\":\"dirt\",\"count\":70000}"));
    assert!(matches!(
        dropped,
        ApiCommand::Drop { item: Some(i), count: Some(u16::MAX) } if i == "dirt"
    ));
    let (dropped, _) = awaited(post("/drop?count=5", "{\"count\":7}"));
    assert!(matches!(dropped, ApiCommand::Drop { item: None, count: Some(5) }));
    let (wield, tag) = awaited(post("/wield?item=axe", ""));
    assert!(matches!(wield, ApiCommand::Wield(i) if i == "axe"));
    assert_eq!(tag, "BOT_WIELD");
    assert!(matches!(post("/wield", ""), Plan::Silence));
    let (used, _) = awaited(post("/use", ""));
    assert!(matches!(used, ApiCommand::Use(None)));
    let (sleep, tag) = awaited(post("/sleep", "{\"radius\":99}"));
    assert!(matches!(sleep, ApiCommand::Sleep(Some(20))));
    assert_eq!(tag, "BOT_SLEEP");
    assert!(matches!(post("/sleep", "nonsense"), Plan::Reply(t) if t.contains("invalid_json")));
}

#[test]
fn messages_are_said_within_a_limit() {
    let text = |plan: Plan| match plan {
        Plan::Answer { command: Some(ApiCommand::Say(text)), json: true, .. } => text,
        _ => panic!("not said"),
    };
    assert_eq!(text(post("/chat", "{\"message\":\" hi \"}")), "hi");
    assert_eq!(text(post("/chat", "{\"msg\":\"hi\"}")), "hi");
    assert_eq!(text(post("/say?msg=hello+you", "")), "hello you");
    assert_eq!(text(post("/say", "{\"message\":\"a\"}")), "a");
    let long = "a".repeat(300);
    assert_eq!(text(post(&format!("/say?msg={long}"), "")).len(), 256);
    assert!(matches!(
        post("/say", ""),
        Plan::Answer { command: None, body, .. } if body.contains("missing_message")
    ));
    assert!(matches!(post("/chat", ""), Plan::Reply(t) if t.contains("invalid_json")));
    let split = format!("{}\u{e9}{}", "a".repeat(255), "b".repeat(9));
    assert_eq!(clip_message(&split), None);
    let body = format!("{{\"message\":\"{split}\"}}");
    assert!(matches!(post("/chat", &body), Plan::Uncut));
    let whole = format!("{}\u{e9}{}", "a".repeat(254), "b".repeat(9));
    assert_eq!(clip_message(&whole).unwrap().len(), 256);
}

#[test]
fn moves_are_relative_or_absolute() {
    let numbers = MoveNumbers {
        speed: Some(3.0_f32.to_bits()),
        dx: Some(1.0_f32.to_bits()),
        x: Some(7.0_f32.to_bits()),
        z: Some(8.0_f32.to_bits()),
        ..NO_NUMBERS
    };
    let planned = |path: &str, n: &MoveNumbers| {
        let r = request(&format!("POST {path} HTTP/1.1\r\n\r\n"));
        match route(&r, &ChatLog::default(), "", n) {
            Plan::Answer { command: Some(ApiCommand::Move(m)), .. } => Some(m),
            _ => None,
        }
    };
    let step = planned("/move?direction=FWD", &numbers).unwrap();
    assert!(matches!(
        step.spec,
        MoveSpec::Direction { dir: MoveDirection::Forward, steps } if steps == 1.0_f32.to_bits()
    ));
    assert_eq!(step.speed, Some(3.0_f32.to_bits()));
    assert!(matches!(
        planned("/move", &numbers).unwrap().spec,
        MoveSpec::Delta { dy: 0, dz: 0, .. }
    ));
    assert!(planned("/move", &NO_NUMBERS).is_none());
    assert!(planned("/move?dir=up", &numbers).is_none());
    assert!(matches!(
        planned("/move_to", &numbers).unwrap().spec,
        MoveSpec::Target { y: None, .. }
    ));
    assert!(planned("/move_to", &NO_NUMBERS).is_none());
    assert_eq!(parse_move_direction(" backward "), Some(MoveDirection::Backward));
}

#[test]
fn questions_are_answered() {
    let get = |path: &str| plan(&format!("GET {path} HTTP/1.1\r\n\r\n"));
    assert!(matches!(
        get("/health"),
        Plan::Answer { command: None, body, json: false } if body == "OK"
    ));
    assert!(matches!(
        get("/where"),
        Plan::Answer { command: Some(ApiCommand::Where), body, .. } if body == "here"
    ));
    assert!(matches!(
        get("/observe?radius=50"),
        Plan::Await {
            command: ApiCommand::Observe { radius: 8 },
            tag: None,
            patience_ms: 250,
            json: true,
            ..
        }
    ));
    assert!(matches!(
        get("/observe_server"),
        Plan::Await {
            command: ApiCommand::ObserveServer { radius: 2 },
            tag: Some("BOT_OBSERVE"),
            json: false,
            ..
        }
    ));
    let mut log = ChatLog::default();
    log_chat(&mut log, 5, "Bob", "one");
    log_chat(&mut log, 6, "Bob", "two");
    let page = route(
        &request("GET /chat?since=1 HTTP/1.1\r\n\r\n"),
        &log,
        "",
        &NO_NUMBERS,
    );
    let Plan::Answer { body, json: true, .. } = page else {
        panic!("no page");
    };
    assert_eq!(
        body,
        "{\"last\":2,\"messages\":[{\"id\":2,\"ts_ms\":6,\"from\":\"Bob\",\"msg\":\"two\"}]}"
    );
}

#[test]
fn awaited_replies_are_settled() {
    let late = || String::from("late");
    assert_eq!(settle(None, true, false, late()), "late");
    let plain = settle(Some(String::from("body")), false, false, late());
    assert!(plain.ends_with("text/plain\r\nContent-Length: 4\r\n\r\nbody"));
    let odd = settle(Some(String::from("no json")), true, true, late());
    assert!(odd.contains("sleep_response_invalid_json") && odd.contains("no json"));
    let fine = settle(Some(String::from("{}")), true, true, late());
    assert!(fine.ends_with("\r\n\r\n{}"));
}

fn move_texts() -> MoveTexts {
    MoveTexts {
        x: String::from("1.00"),
        y: String::from("2.00"),
        z: String::from("3.00"),
        pitch: String::from("0.10"),
        yaw: String::from("0.20"),
    }
}

#[test]
fn traces_are_json() {
    let packet = TracePacket {
        channel: 0,
        packet_type: 1,
        reliable_seq: Some(9),
        control_type: None,
        split_seq: None,
        split_chunk: None,
        split_count: None,
        cmd: Some(0x2f),
        payload_len: Some(4),
    };
    let event = Some(MtpEvent::ChatMessage {
        message_type: 1,
        sender: String::from("Bob \"x\""),
        message: String::from("hi"),
    });
    let line = build_trace_json(12, &packet, &event, &move_texts());
    let value: serde_json::Value = serde_json::from_str(&line).unwrap();
    assert_eq!(value["t_ms"], 12);
    let seen = build_observation_line(12, true, false, &move_texts(), "Bob", "hi\n");
    let value: serde_json::Value = serde_json::from_str(&seen).unwrap();
    assert_eq!(value["t_ms"], 12);
    assert_eq!(escape_json("a\"b\\"), "a\\\"b\\\\");
}

#[test]
fn texts_are_scanned() {
    assert_eq!(trim(&to_chars(" \u{a0}x\n")), ['x']);
    assert_eq!(replace("a{p}b{p}", "{p}", "X"), "aXbX");
    assert_eq!(parse_int(&to_chars("-12"), -100, 100), Some(-12));
    assert_eq!(parse_int(&to_chars("-1"), 0, 100), None);
    assert_eq!(parse_int(&to_chars("101"), 0, 100), None);
    assert_eq!(parse_int(&to_chars("+7"), 0, 100), Some(7));
    let mut text = String::new();
    push_dec(&mut text, i64::MIN);
    push_hex(&mut text, 0xbeef);
    assert_eq!(text, "-9223372036854775808beef");
}
