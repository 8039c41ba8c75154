//! What each request of the HTTP interface asks for.
//!
//! Numbers with a fraction are read by the caller, who hands them in as single
//! precision bit patterns.

use super::http::{
    body_json, error_json, json_error, json_error_reply, json_field, json_ok, ok_json, pair_views,
    param, param_of, parse_json_field, parse_json_value, reply_text, write_json_error, write_reply,
    Request, RequestView,
};
use crate::bot::chat::{
    build_chat_json, chat_json, collect_chat_entries, collected, last_id, ChatLog, LogView,
};
use crate::bot::commands::{clamped, ApiCommand, CommandView};
use crate::bot::navigation::{MoveDirection, MoveRequest, MoveSpec};
use crate::json::{
    bool_member, bool_value, i64_member, i64_of, json_text, json_value, member, member_of,
    null_value, set_member, str_member, str_of, str_value, u64_member, u64_of, value_text,
    JsonValue,
};
use crate::scan::{lowered, number_in, parse_int, same, to_ascii_lower, trim, trimmed};
use crate::text::{copy_range, from_chars, text_view, to_chars, utf8_to_string};
use crate::types::IVec3;
use vstd::prelude::*;
use vstd::string::*;
use vstd::utf8::*;

verus! {

/// The numbers with a fraction among the parameters of a request, where they are
/// there and can be read.
#[derive(Clone, Copy, Debug)]
pub struct MoveNumbers {
    pub speed: Option<u32>,
    pub steps: Option<u32>,
    pub dx: Option<u32>,
    pub dy: Option<u32>,
    pub dz: Option<u32>,
    pub x: Option<u32>,
    pub y: Option<u32>,
    pub z: Option<u32>,
}

/// How a request is answered.
#[derive(Debug)]
#[allow(inconsistent_fields)]
pub enum Plan {
    /// At once, with the given body; a command may go to the bot.
    Answer { command: Option<ApiCommand>, body: String, json: bool },
    /// With what the bot or the server says to a command, if that comes in time.
    Await {
        command: ApiCommand,
        /// The tag of the server's reply; without one the bot itself replies.
        tag: Option<&'static str>,
        patience_ms: u64,
        json: bool,
        /// The reply has to be JSON.
        checked: bool,
        /// What is answered if nothing comes in time.
        late: String,
    },
    /// With this reply.
    Reply(String),
    /// Not at all.
    Silence,
    /// The message is too long and cannot be cut at its limit.
    Uncut,
}

/// The value of a [`Plan`].
#[allow(inconsistent_fields)]
pub ghost enum PlanView {
    Answer { command: Option<CommandView>, body: Seq<char>, json: bool },
    Await {
        command: CommandView,
        tag: Option<Seq<char>>,
        patience_ms: u64,
        json: bool,
        checked: bool,
        late: Seq<char>,
    },
    Reply(Seq<char>),
    Silence,
    Uncut,
}

pub open spec fn command_view(command: Option<ApiCommand>) -> Option<CommandView> {
    match command {
        Some(c) => Some(c@),
        None => None,
    }
}

pub open spec fn tag_view(tag: Option<&'static str>) -> Option<Seq<char>> {
    match tag {
        Some(t) => Some(t@),
        None => None,
    }
}

impl View for Plan {
    type V = PlanView;

    open spec fn view(&self) -> PlanView {
        match *self {
            Plan::Answer { command, body, json } => PlanView::Answer {
                command: command_view(command),
                body: body@,
                json,
            },
            Plan::Await { command, tag, patience_ms, json, checked, late } => PlanView::Await {
                command: command@,
                tag: tag_view(tag),
                patience_ms,
                json,
                checked,
                late: late@,
            },
            Plan::Reply(text) => PlanView::Reply(text@),
            Plan::Silence => PlanView::Silence,
            Plan::Uncut => PlanView::Uncut,
        }
    }
}

/// The reply to a request that is not understood.
pub open spec fn bad_request() -> PlanView {
    PlanView::Reply("HTTP/1.1 400 Bad Request\r\n\r\n"@)
}

/// A command is passed on.
pub open spec fn passed_on(command: CommandView) -> PlanView {
    PlanView::Answer { command: Some(command), body: "OK"@, json: false }
}

/// How long the bot's own reply is waited for, in milliseconds.
pub const BOT_PATIENCE_MS: u64 = 250;

/// How long the server's reply is waited for, in milliseconds.
pub const SERVER_PATIENCE_MS: u64 = 2_000;

/// The server's reply is awaited and passed on.
pub open spec fn awaited(command: CommandView, tag: Seq<char>, late: Seq<char>) -> PlanView {
    PlanView::Await {
        command,
        tag: Some(tag),
        patience_ms: SERVER_PATIENCE_MS,
        json: true,
        checked: false,
        late,
    }
}

/// A number in a parameter.
pub open spec fn int_param(
    params: Seq<(Seq<char>, Seq<char>)>,
    name: Seq<char>,
    min: int,
    max: int,
) -> Option<int> {
    match param_of(params, name) {
        Some(v) => number_in(v, min, max),
        None => None,
    }
}

/// The position in the parameters `x`, `y` and `z`.
pub open spec fn pos_param(params: Seq<(Seq<char>, Seq<char>)>) -> Option<IVec3> {
    let x = int_param(params, "x"@, i32::MIN as int, i32::MAX as int);
    let y = int_param(params, "y"@, i32::MIN as int, i32::MAX as int);
    let z = int_param(params, "z"@, i32::MIN as int, i32::MAX as int);
    match (x, y, z) {
        (Some(x), Some(y), Some(z)) => Some(IVec3 { x: x as i32, y: y as i32, z: z as i32 }),
        _ => None,
    }
}

/// A text in a parameter, or else in the body.
pub open spec fn text_param(r: RequestView, name: Seq<char>) -> Option<Seq<char>> {
    match param_of(r.params, name) {
        Some(v) => Some(v),
        None => json_field(r.body, name),
    }
}

/// How far the bot looks around.
pub open spec fn observe_radius(params: Seq<(Seq<char>, Seq<char>)>) -> i32 {
    clamped(
        match int_param(params, "radius"@, i32::MIN as int, i32::MAX as int) {
            Some(n) => n,
            None => 2,
        },
        1,
        8,
    ) as i32
}

/// The longest message that is said, in bytes.
pub const MAX_MESSAGE: usize = 256;

/// A message within the limit; a longer one is cut at the limit, if that does not
/// cut a character apart.
pub open spec fn clipped(message: Seq<char>) -> Option<Seq<char>> {
    let bytes = encode_utf8(message);
    if bytes.len() <= MAX_MESSAGE {
        Some(message)
    } else if valid_utf8(bytes.take(MAX_MESSAGE as int)) {
        Some(decode_utf8(bytes.take(MAX_MESSAGE as int)))
    } else {
        None
    }
}

/// Something is to be said.
pub open spec fn say_plan(message: Seq<char>) -> PlanView {
    let text = trimmed(message);
    if text.len() == 0 {
        PlanView::Answer {
            command: None,
            body: json_text(error_json("missing_message"@)),
            json: true,
        }
    } else {
        match clipped(text) {
            Some(text) => PlanView::Answer {
                command: Some(CommandView::Say(text)),
                body: json_text(ok_json()),
                json: true,
            },
            None => PlanView::Uncut,
        }
    }
}

/// The message in a JSON body.
pub open spec fn json_message(v: JsonValue) -> Seq<char> {
    let found = match member_of(v, "message"@) {
        Some(m) => Some(m),
        None => member_of(v, "msg"@),
    };
    match found {
        Some(m) => match str_of(m) {
            Some(text) => text,
            None => seq![],
        },
        None => seq![],
    }
}

/// The message in a parameter, or else in the body.
pub open spec fn said_message(r: RequestView) -> Seq<char> {
    match param_of(r.params, "msg"@) {
        Some(v) => v,
        None => match json_field(r.body, "message"@) {
            Some(v) => v,
            None => match json_field(r.body, "msg"@) {
                Some(v) => v,
                None => seq![],
            },
        },
    }
}

/// The radius within which a bed is looked for.
pub open spec fn sleep_radius(v: JsonValue) -> i32 {
    let wanted = match member_of(v, "radius"@) {
        Some(m) => match i64_of(m) {
            Some(n) => n as int,
            None => 6,
        },
        None => 6,
    };
    clamped(wanted, 1, 20) as i32
}

/// What is to be dropped, and how many of it. The body is read only where no
/// parameter names the item.
pub open spec fn drop_command(r: RequestView) -> CommandView {
    let item = param_of(r.params, "item"@);
    let count = match int_param(r.params, "count"@, 0, u16::MAX as int) {
        Some(n) => Some(n as u16),
        None => None,
    };
    if item is Some {
        CommandView::Drop { item, count }
    } else {
        match body_json(r.body) {
            Some(v) => CommandView::Drop {
                item: match member_of(v, "item"@) {
                    Some(m) => str_of(m),
                    None => None,
                },
                count: if count is Some {
                    count
                } else {
                    match member_of(v, "count"@) {
                        Some(m) => match u64_of(m) {
                            Some(n) => Some(clamped(n as int, 0, u16::MAX as int) as u16),
                            None => None,
                        },
                        None => None,
                    }
                },
            },
            None => CommandView::Drop { item, count },
        }
    }
}

/// A direction by name.
pub open spec fn direction_named(value: Seq<char>) -> Option<MoveDirection> {
    let name = lowered(trimmed(value));
    if name == "forward"@ || name == "fwd"@ {
        Some(MoveDirection::Forward)
    } else if name == "back"@ || name == "backward"@ {
        Some(MoveDirection::Backward)
    } else if name == "left"@ {
        Some(MoveDirection::Left)
    } else if name == "right"@ {
        Some(MoveDirection::Right)
    } else {
        None
    }
}

/// A number that is not zero.
pub open spec fn nonzero(bits: u32) -> bool {
    bits % 0x8000_0000 != 0
}

pub open spec fn or_zero(n: Option<u32>) -> u32 {
    match n {
        Some(bits) => bits,
        None => 0,
    }
}

/// The number one.
pub const ONE_STEP: u32 = 0x3f80_0000;

/// A move relative to the bot: in a direction, or by so many nodes along the axes.
pub open spec fn relative_move(params: Seq<(Seq<char>, Seq<char>)>, n: MoveNumbers) -> Option<
    MoveRequest,
> {
    let named = match param_of(params, "direction"@) {
        Some(v) => Some(v),
        None => param_of(params, "dir"@),
    };
    match named {
        Some(name) => match direction_named(name) {
            Some(dir) => {
                let steps = match n.steps {
                    Some(s) => s,
                    None => ONE_STEP,
                };
                Some(MoveRequest { spec: MoveSpec::Direction { dir, steps }, speed: n.speed })
            },
            None => None,
        },
        None => {
            let (dx, dy, dz) = (or_zero(n.dx), or_zero(n.dy), or_zero(n.dz));
            if nonzero(dx) || nonzero(dy) || nonzero(dz) {
                Some(MoveRequest { spec: MoveSpec::Delta { dx, dy, dz }, speed: n.speed })
            } else {
                None
            }
        },
    }
}

/// A move to a place; its height may be left open.
pub open spec fn absolute_move(n: MoveNumbers) -> Option<MoveRequest> {
    match (n.x, n.z) {
        (Some(x), Some(z)) => Some(
            MoveRequest { spec: MoveSpec::Target { x, y: n.y, z }, speed: n.speed },
        ),
        _ => None,
    }
}

/// A command about a player, where one is named.
pub open spec fn target_plan(r: RequestView) -> PlanView {
    match text_param(r, "target"@) {
        Some(target) => if r.endpoint == "/follow"@ {
            passed_on(CommandView::Follow(target))
        } else if r.endpoint == "/attack"@ {
            passed_on(CommandView::Attack(target))
        } else if r.endpoint == "/approach"@ {
            passed_on(CommandView::Approach(target))
        } else if r.endpoint == "/interact"@ {
            passed_on(CommandView::Interact(target))
        } else if r.endpoint == "/fight"@ {
            passed_on(CommandView::Fight(target))
        } else {
            passed_on(CommandView::Teleport(target))
        },
        None => bad_request(),
    }
}

/// A command about a player.
pub open spec fn target_endpoint(endpoint: Seq<char>) -> bool {
    endpoint == "/follow"@ || endpoint == "/attack"@ || endpoint == "/approach"@ || endpoint
        == "/interact"@ || endpoint == "/fight"@ || endpoint == "/tp"@ || endpoint == "/teleport"@
}

pub open spec fn mine_late() -> Seq<char> {
    "HTTP/1.1 504 Gateway Timeout\r\nContent-Type: text/plain\r\nContent-Length: 12\r\n\r\nmine timeout"@
}

pub open spec fn place_late() -> Seq<char> {
    "HTTP/1.1 504 Gateway Timeout\r\nContent-Type: text/plain\r\nContent-Length: 13\r\n\r\nplace timeout"@
}

pub open spec fn drop_late() -> Seq<char> {
    "HTTP/1.1 504 Gateway Timeout\r\nContent-Type: text/plain\r\nContent-Length: 12\r\n\r\ndrop timeout"@
}

pub open spec fn wield_late() -> Seq<char> {
    "HTTP/1.1 504 Gateway Timeout\r\nContent-Type: text/plain\r\nContent-Length: 13\r\n\r\nwield timeout"@
}

pub open spec fn use_late() -> Seq<char> {
    "HTTP/1.1 504 Gateway Timeout\r\nContent-Type: text/plain\r\nContent-Length: 11\r\n\r\nuse timeout"@
}

pub open spec fn observe_late() -> Seq<char> {
    "HTTP/1.1 504 Gateway Timeout\r\nContent-Type: text/plain\r\nContent-Length: 21\r\n\r\nobserve_server timeout"@
}

/// A command about things, which the server replies to.
pub open spec fn things_plan(r: RequestView) -> PlanView {
    if r.endpoint == "/mine"@ {
        awaited(CommandView::Mine(pos_param(r.params)), "BOT_MINE"@, mine_late())
    } else if r.endpoint == "/place"@ {
        awaited(CommandView::Place(pos_param(r.params)), "BOT_PLACE"@, place_late())
    } else if r.endpoint == "/drop"@ {
        awaited(drop_command(r), "BOT_DROP"@, drop_late())
    } else if r.endpoint == "/wield"@ {
        match text_param(r, "item"@) {
            Some(item) => awaited(CommandView::Wield(item), "BOT_WIELD"@, wield_late()),
            None => PlanView::Silence,
        }
    } else {
        awaited(CommandView::Use(text_param(r, "item"@)), "BOT_USE"@, use_late())
    }
}

pub open spec fn things_endpoint(endpoint: Seq<char>) -> bool {
    endpoint == "/mine"@ || endpoint == "/place"@ || endpoint == "/drop"@ || endpoint == "/wield"@
        || endpoint == "/use"@
}

/// The bot is to sleep.
pub open spec fn sleep_plan(r: RequestView) -> PlanView {
    match body_json(r.body) {
        Some(v) => PlanView::Await {
            command: CommandView::Sleep(Some(sleep_radius(v))),
            tag: Some("BOT_SLEEP"@),
            patience_ms: SERVER_PATIENCE_MS,
            json: true,
            checked: true,
            late: json_error_reply("504 Gateway Timeout"@, "sleep_timeout"@),
        },
        None => PlanView::Reply(json_error_reply("400 Bad Request"@, "invalid_json"@)),
    }
}

/// A request that changes something.
pub open spec fn post_plan(r: RequestView, n: MoveNumbers) -> PlanView {
    if target_endpoint(r.endpoint) {
        target_plan(r)
    } else if things_endpoint(r.endpoint) {
        things_plan(r)
    } else if r.endpoint == "/chat"@ {
        match body_json(r.body) {
            Some(v) => say_plan(json_message(v)),
            None => PlanView::Reply(json_error_reply("400 Bad Request"@, "invalid_json"@)),
        }
    } else if r.endpoint == "/say"@ {
        say_plan(said_message(r))
    } else if r.endpoint == "/sleep"@ {
        sleep_plan(r)
    } else if r.endpoint == "/move"@ {
        match relative_move(r.params, n) {
            Some(request) => passed_on(CommandView::Move(request)),
            None => bad_request(),
        }
    } else if r.endpoint == "/move_to"@ {
        match absolute_move(n) {
            Some(request) => passed_on(CommandView::Move(request)),
            None => bad_request(),
        }
    } else if r.endpoint == "/stop"@ {
        passed_on(CommandView::Stop)
    } else {
        bad_request()
    }
}

/// A request that asks for something.
pub open spec fn get_plan(r: RequestView, log: LogView, where_text: Seq<char>) -> PlanView {
    if r.endpoint == "/health"@ {
        PlanView::Answer { command: None, body: "OK"@, json: false }
    } else if r.endpoint == "/where"@ {
        PlanView::Answer { command: Some(CommandView::Where), body: where_text, json: false }
    } else if r.endpoint == "/observe"@ {
        PlanView::Await {
            command: CommandView::Observe { radius: observe_radius(r.params) },
            tag: None,
            patience_ms: BOT_PATIENCE_MS,
            json: true,
            checked: false,
            late: "HTTP/1.1 504 Gateway Timeout\r\n\r\n"@,
        }
    } else if r.endpoint == "/observe_server"@ {
        PlanView::Await {
            command: CommandView::ObserveServer { radius: observe_radius(r.params) },
            tag: Some("BOT_OBSERVE"@),
            patience_ms: SERVER_PATIENCE_MS,
            json: false,
            checked: false,
            late: observe_late(),
        }
    } else if r.endpoint == "/chat"@ {
        PlanView::Answer { command: None, body: chat_page(r.params, log), json: true }
    } else {
        bad_request()
    }
}

/// The messages that were asked for.
pub open spec fn chat_page(params: Seq<(Seq<char>, Seq<char>)>, log: LogView) -> Seq<char> {
    let since = match int_param(params, "since"@, 0, u64::MAX as int) {
        Some(n) => n,
        None => 0,
    };
    let limit = match int_param(params, "limit"@, 0, usize::MAX as int) {
        Some(n) => n,
        None => 50,
    };
    chat_json(collected(log, since as u64, clamped(limit, 1, 100)), last_id(log))
}

/// How a request is answered.
pub open spec fn plan_for(
    r: RequestView,
    log: LogView,
    where_text: Seq<char>,
    n: MoveNumbers,
) -> PlanView {
    if !r.authorized {
        PlanView::Reply("HTTP/1.1 401 Unauthorized\r\n\r\n"@)
    } else if r.method == "GET"@ {
        get_plan(r, log, where_text)
    } else if r.method == "POST"@ {
        post_plan(r, n)
    } else {
        bad_request()
    }
}

fn refuse() -> (plan: Plan)
    ensures
        plan@ == bad_request(),
{
    Plan::Reply("HTTP/1.1 400 Bad Request\r\n\r\n".to_owned())
}

fn pass_on(command: ApiCommand) -> (plan: Plan)
    ensures
        plan@ == passed_on(command@),
{
    Plan::Answer { command: Some(command), body: "OK".to_owned(), json: false }
}

fn await_reply(command: ApiCommand, tag: &'static str, late: &str) -> (plan: Plan)
    ensures
        plan@ == awaited(command@, tag@, late@),
{
    Plan::Await {
        command,
        tag: Some(tag),
        patience_ms: SERVER_PATIENCE_MS,
        json: true,
        checked: false,
        late: late.to_owned(),
    }
}

fn read_int(params: &Vec<(String, String)>, name: &str, min: i128, max: i128) -> (n: Option<i128>)
    requires
        -0x1_0000_0000_0000_0000 <= min <= 0,
        0 <= max <= 0x1_0000_0000_0000_0000,
    ensures
        match n {
            Some(n) => int_param(pair_views(params@), name@, min as int, max as int) == Some(
                n as int,
            ) && min <= n <= max,
            None => int_param(pair_views(params@), name@, min as int, max as int) is None,
        },
{
    let text = param(params, name)?;
    parse_int(to_chars(text).as_slice(), min, max)
}

fn read_pos(params: &Vec<(String, String)>) -> (pos: Option<IVec3>)
    ensures
        pos == pos_param(pair_views(params@)),
{
    let min: i128 = -0x8000_0000;
    let max: i128 = 0x7fff_ffff;
    let x: i128 = read_int(params, "x", min, max)?;
    let y: i128 = read_int(params, "y", min, max)?;
    let z: i128 = read_int(params, "z", min, max)?;
    Some(IVec3 { x: x as i32, y: y as i32, z: z as i32 })
}

fn owned(value: Option<&str>) -> (text: Option<String>)
    ensures
        match value {
            Some(v) => text_view(text) == Some(v@),
            None => text is None,
        },
{
    match value {
        Some(v) => Some(v.to_owned()),
        None => None,
    }
}

fn read_text(r: &Request, name: &str) -> (text: Option<String>)
    ensures
        text_view(text) == text_param(r@, name@),
{
    match param(&r.params, name) {
        Some(v) => Some(v.to_owned()),
        None => parse_json_field(r.body.as_str(), name),
    }
}

fn clamp_int(n: i128, min: i128, max: i128) -> (r: i128)
    requires
        min <= max,
    ensures
        r == clamped(n as int, min as int, max as int),
{
    if n < min {
        min
    } else if n > max {
        max
    } else {
        n
    }
}

fn read_radius(params: &Vec<(String, String)>) -> (radius: i32)
    ensures
        radius == observe_radius(pair_views(params@)),
{
    let n: i128 = match read_int(params, "radius", -0x8000_0000, 0x7fff_ffff) {
        Some(n) => n,
        None => 2,
    };
    clamp_int(n, 1, 8) as i32
}

/// Cuts a message at the limit, unless that cuts a character apart.
pub fn clip_message(message: &str) -> (text: Option<String>)
    ensures
        text_view(text) == clipped(message@),
{
    let bytes = message.as_bytes();
    if bytes.len() <= MAX_MESSAGE {
        return Some(message.to_owned());
    }
    let front: Vec<u8> = copy_range(bytes, 0, MAX_MESSAGE);
    assert(front@ =~= bytes@.take(MAX_MESSAGE as int));
    utf8_to_string(front)
}

fn plan_to_say(message: &str) -> (plan: Plan)
    ensures
        plan@ == say_plan(message@),
{
    let chars: Vec<char> = to_chars(message);
    let t: &[char] = trim(chars.as_slice());
    if t.len() == 0 {
        return Plan::Answer { command: None, body: json_error("missing_message"), json: true };
    }
    match clip_message(from_chars(t).as_str()) {
        Some(text) => Plan::Answer {
            command: Some(ApiCommand::Say(text)),
            body: json_ok(),
            json: true,
        },
        None => Plan::Uncut,
    }
}

fn read_json_message(v: &serde_json::Value) -> (text: String)
    ensures
        text@ == json_message(json_value(*v)),
{
    let found = match member(v, "message") {
        Some(m) => Some(m),
        None => member(v, "msg"),
    };
    match found {
        Some(m) => match m.as_str() {
            Some(text) => text.to_owned(),
            None => String::new(),
        },
        None => String::new(),
    }
}

fn read_said(r: &Request) -> (text: String)
    ensures
        text@ == said_message(r@),
{
    if let Some(v) = param(&r.params, "msg") {
        return v.to_owned();
    }
    if let Some(v) = parse_json_field(r.body.as_str(), "message") {
        return v;
    }
    match parse_json_field(r.body.as_str(), "msg") {
        Some(v) => v,
        None => String::new(),
    }
}

fn read_sleep_radius(v: &serde_json::Value) -> (radius: i32)
    ensures
        radius == sleep_radius(json_value(*v)),
{
    let wanted: i64 = match member(v, "radius") {
        Some(m) => match m.as_i64() {
            Some(n) => n,
            None => 6,
        },
        None => 6,
    };
    clamp_int(wanted as i128, 1, 20) as i32
}

fn read_drop(r: &Request) -> (command: ApiCommand)
    ensures
        command@ == drop_command(r@),
{
    let item = owned(param(&r.params, "item"));
    let count: Option<u16> = match read_int(&r.params, "count", 0, 0xffff) {
        Some(n) => Some(n as u16),
        None => None,
    };
    if item.is_some() {
        return ApiCommand::Drop { item, count };
    }
    match parse_json_value(r.body.as_str()) {
        Some(v) => {
            let item = match member(&v, "item") {
                Some(m) => owned(m.as_str()),
                None => None,
            };
            let count: Option<u16> = if count.is_some() {
                count
            } else {
                match member(&v, "count") {
                    Some(m) => match m.as_u64() {
                        Some(n) => Some(clamp_int(n as i128, 0, 0xffff) as u16),
                        None => None,
                    },
                    None => None,
                }
            };
            ApiCommand::Drop { item, count }
        },
        None => ApiCommand::Drop { item, count },
    }
}

pub fn parse_move_direction(value: &str) -> (dir: Option<MoveDirection>)
    ensures
        dir == direction_named(value@),
{
    let chars: Vec<char> = to_chars(value);
    let name: Vec<char> = to_ascii_lower(trim(chars.as_slice()));
    let s: &[char] = name.as_slice();
    if same(s, "forward") || same(s, "fwd") {
        Some(MoveDirection::Forward)
    } else if same(s, "back") || same(s, "backward") {
        Some(MoveDirection::Backward)
    } else if same(s, "left") {
        Some(MoveDirection::Left)
    } else if same(s, "right") {
        Some(MoveDirection::Right)
    } else {
        None
    }
}

fn zero_if_none(n: Option<u32>) -> (bits: u32)
    ensures
        bits == or_zero(n),
{
    match n {
        Some(bits) => bits,
        None => 0,
    }
}

fn read_relative(params: &Vec<(String, String)>, n: &MoveNumbers) -> (request: Option<MoveRequest>)
    ensures
        request == relative_move(pair_views(params@), *n),
{
    let named = match param(params, "direction") {
        Some(v) => Some(v),
        None => param(params, "dir"),
    };
    match named {
        Some(name) => {
            let dir = parse_move_direction(name)?;
            let steps: u32 = match n.steps {
                Some(s) => s,
                None => ONE_STEP,
            };
            Some(MoveRequest { spec: MoveSpec::Direction { dir, steps }, speed: n.speed })
        },
        None => {
            let dx: u32 = zero_if_none(n.dx);
            let dy: u32 = zero_if_none(n.dy);
            let dz: u32 = zero_if_none(n.dz);
            if dx % 0x8000_0000 != 0 || dy % 0x8000_0000 != 0 || dz % 0x8000_0000 != 0 {
                Some(MoveRequest { spec: MoveSpec::Delta { dx, dy, dz }, speed: n.speed })
            } else {
                None
            }
        },
    }
}

fn is_endpoint(r: &Request, name: &str) -> (yes: bool)
    ensures
        yes == (r@.endpoint == name@),
{
    r.endpoint == name.to_owned()
}

fn is_target_endpoint(r: &Request) -> (yes: bool)
    ensures
        yes == target_endpoint(r@.endpoint),
{
    is_endpoint(r, "/follow") || is_endpoint(r, "/attack") || is_endpoint(r, "/approach")
        || is_endpoint(r, "/interact") || is_endpoint(r, "/fight") || is_endpoint(r, "/tp")
        || is_endpoint(r, "/teleport")
}

fn is_things_endpoint(r: &Request) -> (yes: bool)
    ensures
        yes == things_endpoint(r@.endpoint),
{
    is_endpoint(r, "/mine") || is_endpoint(r, "/place") || is_endpoint(r, "/drop") || is_endpoint(
        r,
        "/wield",
    ) || is_endpoint(r, "/use")
}

fn route_target(r: &Request) -> (plan: Plan)
    ensures
        plan@ == target_plan(r@),
{
    let target = match read_text(r, "target") {
        Some(target) => target,
        None => return refuse(),
    };
    if is_endpoint(r, "/follow") {
        pass_on(ApiCommand::Follow(target))
    } else if is_endpoint(r, "/attack") {
        pass_on(ApiCommand::Attack(target))
    } else if is_endpoint(r, "/approach") {
        pass_on(ApiCommand::Approach(target))
    } else if is_endpoint(r, "/interact") {
        pass_on(ApiCommand::Interact(target))
    } else if is_endpoint(r, "/fight") {
        pass_on(ApiCommand::Fight(target))
    } else {
        pass_on(ApiCommand::Teleport(target))
    }
}

fn route_things(r: &Request) -> (plan: Plan)
    ensures
        plan@ == things_plan(r@),
{
    if is_endpoint(r, "/mine") {
        await_reply(
            ApiCommand::Mine(read_pos(&r.params)),
            "BOT_MINE",
            "HTTP/1.1 504 Gateway Timeout\r\nContent-Type: text/plain\r\nContent-Length: 12\r\n\r\nmine timeout",
        )
    } else if is_endpoint(r, "/place") {
        await_reply(
            ApiCommand::Place(read_pos(&r.params)),
            "BOT_PLACE",
            "HTTP/1.1 504 Gateway Timeout\r\nContent-Type: text/plain\r\nContent-Length: 13\r\n\r\nplace timeout",
        )
    } else if is_endpoint(r, "/drop") {
        await_reply(
            read_drop(r),
            "BOT_DROP",
            "HTTP/1.1 504 Gateway Timeout\r\nContent-Type: text/plain\r\nContent-Length: 12\r\n\r\ndrop timeout",
        )
    } else if is_endpoint(r, "/wield") {
        match read_text(r, "item") {
            Some(item) => await_reply(
                ApiCommand::Wield(item),
                "BOT_WIELD",
                "HTTP/1.1 504 Gateway Timeout\r\nContent-Type: text/plain\r\nContent-Length: 13\r\n\r\nwield timeout",
            ),
            None => Plan::Silence,
        }
    } else {
        await_reply(
            ApiCommand::Use(read_text(r, "item")),
            "BOT_USE",
            "HTTP/1.1 504 Gateway Timeout\r\nContent-Type: text/plain\r\nContent-Length: 11\r\n\r\nuse timeout",
        )
    }
}

fn route_sleep(r: &Request) -> (plan: Plan)
    ensures
        plan@ == sleep_plan(r@),
{
    match parse_json_value(r.body.as_str()) {
        Some(v) => Plan::Await {
            command: ApiCommand::Sleep(Some(read_sleep_radius(&v))),
            tag: Some("BOT_SLEEP"),
            patience_ms: SERVER_PATIENCE_MS,
            json: true,
            checked: true,
            late: write_json_error("504 Gateway Timeout", "sleep_timeout"),
        },
        None => Plan::Reply(write_json_error("400 Bad Request", "invalid_json")),
    }
}

fn route_move(request: Option<MoveRequest>) -> (plan: Plan)
    ensures
        plan@ == (match request {
            Some(m) => passed_on(CommandView::Move(m)),
            None => bad_request(),
        }),
{
    match request {
        Some(m) => pass_on(ApiCommand::Move(m)),
        None => refuse(),
    }
}

fn route_post(r: &Request, n: &MoveNumbers) -> (plan: Plan)
    ensures
        plan@ == post_plan(r@, *n),
{
    if is_target_endpoint(r) {
        return route_target(r);
    }
    if is_things_endpoint(r) {
        return route_things(r);
    }
    if is_endpoint(r, "/chat") {
        return match parse_json_value(r.body.as_str()) {
            Some(v) => plan_to_say(read_json_message(&v).as_str()),
            None => Plan::Reply(write_json_error("400 Bad Request", "invalid_json")),
        };
    }
    if is_endpoint(r, "/say") {
        return plan_to_say(read_said(r).as_str());
    }
    if is_endpoint(r, "/sleep") {
        return route_sleep(r);
    }
    if is_endpoint(r, "/move") {
        return route_move(read_relative(&r.params, n));
    }
    if is_endpoint(r, "/move_to") {
        return route_move(
            match (n.x, n.z) {
                (Some(x), Some(z)) => Some(
                    MoveRequest { spec: MoveSpec::Target { x, y: n.y, z }, speed: n.speed },
                ),
                _ => None,
            },
        );
    }
    if is_endpoint(r, "/stop") {
        return pass_on(ApiCommand::Stop);
    }
    refuse()
}

fn read_page(params: &Vec<(String, String)>, log: &ChatLog) -> (page: String)
    ensures
        page@ == chat_page(pair_views(params@), log@),
{
    let since: i128 = match read_int(params, "since", 0, u64::MAX as i128) {
        Some(n) => n,
        None => 0,
    };
    let limit: i128 = match read_int(params, "limit", 0, usize::MAX as i128) {
        Some(n) => n,
        None => 50,
    };
    let (entries, last) = collect_chat_entries(
        log,
        since as u64,
        clamp_int(limit, 1, 100) as usize,
    );
    build_chat_json(entries, last)
}

fn route_get(r: &Request, log: &ChatLog, where_text: &str) -> (plan: Plan)
    ensures
        plan@ == get_plan(r@, log@, where_text@),
{
    if is_endpoint(r, "/health") {
        return Plan::Answer { command: None, body: "OK".to_owned(), json: false };
    }
    if is_endpoint(r, "/where") {
        return Plan::Answer {
            command: Some(ApiCommand::Where),
            body: where_text.to_owned(),
            json: false,
        };
    }
    if is_endpoint(r, "/observe") {
        return Plan::Await {
            command: ApiCommand::Observe { radius: read_radius(&r.params) },
            tag: None,
            patience_ms: BOT_PATIENCE_MS,
            json: true,
            checked: false,
            late: "HTTP/1.1 504 Gateway Timeout\r\n\r\n".to_owned(),
        };
    }
    if is_endpoint(r, "/observe_server") {
        return Plan::Await {
            command: ApiCommand::ObserveServer { radius: read_radius(&r.params) },
            tag: Some("BOT_OBSERVE"),
            patience_ms: SERVER_PATIENCE_MS,
            json: false,
            checked: false,
            late: "HTTP/1.1 504 Gateway Timeout\r\nContent-Type: text/plain\r\nContent-Length: 21\r\n\r\nobserve_server timeout".to_owned(),
        };
    }
    if is_endpoint(r, "/chat") {
        return Plan::Answer { command: None, body: read_page(&r.params, log), json: true };
    }
    refuse()
}

/// Says how a request is answered. `where_text` is the bot's position in words.
pub fn route(r: &Request, log: &ChatLog, where_text: &str, n: &MoveNumbers) -> (plan: Plan)
    ensures
        plan@ == plan_for(r@, log@, where_text@, *n),
{
    if !r.authorized {
        return Plan::Reply("HTTP/1.1 401 Unauthorized\r\n\r\n".to_owned());
    }
    if r.method == "GET".to_owned() {
        return route_get(r, log, where_text);
    }
    if r.method == "POST".to_owned() {
        return route_post(r, n);
    }
    refuse()
}

pub open spec fn content_type(json: bool) -> Seq<char> {
    if json {
        "application/json"@
    } else {
        "text/plain"@
    }
}

/// A reply that should have been JSON and is not.
pub open spec fn invalid_reply(raw: Seq<char>) -> JsonValue {
    JsonValue::Object(
        Map::empty().insert("ok"@, JsonValue::Bool(false)).insert(
            "error"@,
            JsonValue::Str("sleep_response_invalid_json"@),
        ).insert("raw"@, JsonValue::Str(raw)),
    )
}

/// The answer with a body.
pub open spec fn answered_with(body: Seq<char>, json: bool) -> Seq<char> {
    reply_text("200 OK"@, content_type(json), body)
}

/// The answer once the reply that was awaited has come, or has not.
pub open spec fn settled(reply: Option<Seq<char>>, json: bool, checked: bool, late: Seq<char>) -> Seq<
    char,
> {
    match reply {
        Some(body) => answered_with(
            if checked && body_json(body) is None {
                json_text(invalid_reply(body))
            } else {
                body
            },
            json,
        ),
        None => late,
    }
}

/// Answers with a body.
pub fn answer_with(body: &str, json: bool) -> (text: String)
    ensures
        text@ == answered_with(body@, json),
{
    write_reply(
        "200 OK",
        if json {
            "application/json"
        } else {
            "text/plain"
        },
        body,
    )
}

/// Answers once the reply that was awaited has come, or has not.
pub fn settle(reply: Option<String>, json: bool, checked: bool, late: String) -> (text: String)
    ensures
        text@ == settled(text_view(reply), json, checked, late@),
{
    match reply {
        Some(body) => {
            if checked && parse_json_value(body.as_str()).is_none() {
                let mut fault = null_value();
                set_member(&mut fault, "ok", bool_value(false));
                set_member(&mut fault, "error", str_value("sleep_response_invalid_json"));
                set_member(&mut fault, "raw", str_value(body.as_str()));
                return answer_with(value_text(&fault).as_str(), json);
            }
            answer_with(body.as_str(), json)
        },
        None => late,
    }
}

/// Who does not show the token gets nothing done, whatever is asked for.
pub proof fn unauthorized_requests_do_nothing(
    r: RequestView,
    log: LogView,
    where_text: Seq<char>,
    n: MoveNumbers,
)
    requires
        !r.authorized,
    ensures
        plan_for(r, log, where_text, n) == PlanView::Reply("HTTP/1.1 401 Unauthorized\r\n\r\n"@),
{
}

/// A message that is said never exceeds the limit.
pub proof fn said_messages_are_bounded(message: Seq<char>)
    ensures
        match say_plan(message) {
            PlanView::Answer { command: Some(CommandView::Say(text)), .. } => 0 < text.len()
                && encode_utf8(text).len() <= MAX_MESSAGE,
            _ => true,
        },
{
    let text = trimmed(message);
    let bytes = encode_utf8(text);
    if bytes.len() > MAX_MESSAGE && valid_utf8(bytes.take(MAX_MESSAGE as int)) {
        let front = bytes.take(MAX_MESSAGE as int);
        decode_utf8_encode_utf8(front);
        if decode_utf8(front).len() == 0 {
            assert(encode_utf8(decode_utf8(front)) =~= Seq::<u8>::empty());
        }
    }
}

proof fn endpoints_are_told_apart()
    ensures
        "/follow"@ != "/attack"@,
        "/follow"@ != "/approach"@,
        "/follow"@ != "/interact"@,
        "/follow"@ != "/fight"@,
        "/follow"@ != "/tp"@,
        "/follow"@ != "/teleport"@,
        "/follow"@ != "/mine"@,
        "/follow"@ != "/place"@,
        "/follow"@ != "/drop"@,
        "/follow"@ != "/wield"@,
        "/follow"@ != "/use"@,
        "/follow"@ != "/chat"@,
        "/follow"@ != "/say"@,
        "/follow"@ != "/sleep"@,
        "/follow"@ != "/move"@,
        "/follow"@ != "/move_to"@,
        "/follow"@ != "/stop"@,
        "/follow"@ != "/health"@,
        "/follow"@ != "/where"@,
        "/follow"@ != "/observe"@,
        "/follow"@ != "/observe_server"@,
        "/attack"@ != "/approach"@,
        "/attack"@ != "/interact"@,
        "/attack"@ != "/fight"@,
        "/attack"@ != "/tp"@,
        "/attack"@ != "/teleport"@,
        "/attack"@ != "/mine"@,
        "/attack"@ != "/place"@,
        "/attack"@ != "/drop"@,
        "/attack"@ != "/wield"@,
        "/attack"@ != "/use"@,
        "/attack"@ != "/chat"@,
        "/attack"@ != "/say"@,
        "/attack"@ != "/sleep"@,
        "/attack"@ != "/move"@,
        "/attack"@ != "/move_to"@,
        "/attack"@ != "/stop"@,
        "/attack"@ != "/health"@,
        "/attack"@ != "/where"@,
        "/attack"@ != "/observe"@,
        "/attack"@ != "/observe_server"@,
        "/approach"@ != "/interact"@,
        "/approach"@ != "/fight"@,
        "/approach"@ != "/tp"@,
        "/approach"@ != "/teleport"@,
        "/approach"@ != "/mine"@,
        "/approach"@ != "/place"@,
        "/approach"@ != "/drop"@,
        "/approach"@ != "/wield"@,
        "/approach"@ != "/use"@,
        "/approach"@ != "/chat"@,
        "/approach"@ != "/say"@,
        "/approach"@ != "/sleep"@,
        "/approach"@ != "/move"@,
        "/approach"@ != "/move_to"@,
        "/approach"@ != "/stop"@,
        "/approach"@ != "/health"@,
        "/approach"@ != "/where"@,
        "/approach"@ != "/observe"@,
        "/approach"@ != "/observe_server"@,
        "/interact"@ != "/fight"@,
        "/interact"@ != "/tp"@,
        "/interact"@ != "/teleport"@,
        "/interact"@ != "/mine"@,
        "/interact"@ != "/place"@,
        "/interact"@ != "/drop"@,
        "/interact"@ != "/wield"@,
        "/interact"@ != "/use"@,
        "/interact"@ != "/chat"@,
        "/interact"@ != "/say"@,
        "/interact"@ != "/sleep"@,
        "/interact"@ != "/move"@,
        "/interact"@ != "/move_to"@,
        "/interact"@ != "/stop"@,
        "/interact"@ != "/health"@,
        "/interact"@ != "/where"@,
        "/interact"@ != "/observe"@,
        "/interact"@ != "/observe_server"@,
        "/fight"@ != "/tp"@,
        "/fight"@ != "/teleport"@,
        "/fight"@ != "/mine"@,
        "/fight"@ != "/place"@,
        "/fight"@ != "/drop"@,
        "/fight"@ != "/wield"@,
        "/fight"@ != "/use"@,
        "/fight"@ != "/chat"@,
        "/fight"@ != "/say"@,
        "/fight"@ != "/sleep"@,
        "/fight"@ != "/move"@,
        "/fight"@ != "/move_to"@,
        "/fight"@ != "/stop"@,
        "/fight"@ != "/health"@,
        "/fight"@ != "/where"@,
        "/fight"@ != "/observe"@,
        "/fight"@ != "/observe_server"@,
        "/tp"@ != "/teleport"@,
        "/tp"@ != "/mine"@,
        "/tp"@ != "/place"@,
        "/tp"@ != "/drop"@,
        "/tp"@ != "/wield"@,
        "/tp"@ != "/use"@,
        "/tp"@ != "/chat"@,
        "/tp"@ != "/say"@,
        "/tp"@ != "/sleep"@,
        "/tp"@ != "/move"@,
        "/tp"@ != "/move_to"@,
        "/tp"@ != "/stop"@,
        "/tp"@ != "/health"@,
        "/tp"@ != "/where"@,
        "/tp"@ != "/observe"@,
        "/tp"@ != "/observe_server"@,
        "/teleport"@ != "/mine"@,
        "/teleport"@ != "/place"@,
        "/teleport"@ != "/drop"@,
        "/teleport"@ != "/wield"@,
        "/teleport"@ != "/use"@,
        "/teleport"@ != "/chat"@,
        "/teleport"@ != "/say"@,
        "/teleport"@ != "/sleep"@,
        "/teleport"@ != "/move"@,
        "/teleport"@ != "/move_to"@,
        "/teleport"@ != "/stop"@,
        "/teleport"@ != "/health"@,
        "/teleport"@ != "/where"@,
        "/teleport"@ != "/observe"@,
        "/teleport"@ != "/observe_server"@,
        "/mine"@ != "/place"@,
        "/mine"@ != "/drop"@,
        "/mine"@ != "/wield"@,
        "/mine"@ != "/use"@,
        "/mine"@ != "/chat"@,
        "/mine"@ != "/say"@,
        "/mine"@ != "/sleep"@,
        "/mine"@ != "/move"@,
        "/mine"@ != "/move_to"@,
        "/mine"@ != "/stop"@,
        "/mine"@ != "/health"@,
        "/mine"@ != "/where"@,
        "/mine"@ != "/observe"@,
        "/mine"@ != "/observe_server"@,
        "/place"@ != "/drop"@,
        "/place"@ != "/wield"@,
        "/place"@ != "/use"@,
        "/place"@ != "/chat"@,
        "/place"@ != "/say"@,
        "/place"@ != "/sleep"@,
        "/place"@ != "/move"@,
        "/place"@ != "/move_to"@,
        "/place"@ != "/stop"@,
        "/place"@ != "/health"@,
        "/place"@ != "/where"@,
        "/place"@ != "/observe"@,
        "/place"@ != "/observe_server"@,
        "/drop"@ != "/wield"@,
        "/drop"@ != "/use"@,
        "/drop"@ != "/chat"@,
        "/drop"@ != "/say"@,
        "/drop"@ != "/sleep"@,
        "/drop"@ != "/move"@,
        "/drop"@ != "/move_to"@,
        "/drop"@ != "/stop"@,
        "/drop"@ != "/health"@,
        "/drop"@ != "/where"@,
        "/drop"@ != "/observe"@,
        "/drop"@ != "/observe_server"@,
        "/wield"@ != "/use"@,
        "/wield"@ != "/chat"@,
        "/wield"@ != "/say"@,
        "/wield"@ != "/sleep"@,
        "/wield"@ != "/move"@,
        "/wield"@ != "/move_to"@,
        "/wield"@ != "/stop"@,
        "/wield"@ != "/health"@,
        "/wield"@ != "/where"@,
        "/wield"@ != "/observe"@,
        "/wield"@ != "/observe_server"@,
        "/use"@ != "/chat"@,
        "/use"@ != "/say"@,
        "/use"@ != "/sleep"@,
        "/use"@ != "/move"@,
        "/use"@ != "/move_to"@,
        "/use"@ != "/stop"@,
        "/use"@ != "/health"@,
        "/use"@ != "/where"@,
        "/use"@ != "/observe"@,
        "/use"@ != "/observe_server"@,
        "/chat"@ != "/say"@,
        "/chat"@ != "/sleep"@,
        "/chat"@ != "/move"@,
        "/chat"@ != "/move_to"@,
        "/chat"@ != "/stop"@,
        "/chat"@ != "/health"@,
        "/chat"@ != "/where"@,
        "/chat"@ != "/observe"@,
        "/chat"@ != "/observe_server"@,
        "/say"@ != "/sleep"@,
        "/say"@ != "/move"@,
        "/say"@ != "/move_to"@,
        "/say"@ != "/stop"@,
        "/say"@ != "/health"@,
        "/say"@ != "/where"@,
        "/say"@ != "/observe"@,
        "/say"@ != "/observe_server"@,
        "/sleep"@ != "/move"@,
        "/sleep"@ != "/move_to"@,
        "/sleep"@ != "/stop"@,
        "/sleep"@ != "/health"@,
        "/sleep"@ != "/where"@,
        "/sleep"@ != "/observe"@,
        "/sleep"@ != "/observe_server"@,
        "/move"@ != "/move_to"@,
        "/move"@ != "/stop"@,
        "/move"@ != "/health"@,
        "/move"@ != "/where"@,
        "/move"@ != "/observe"@,
        "/move"@ != "/observe_server"@,
        "/move_to"@ != "/stop"@,
        "/move_to"@ != "/health"@,
        "/move_to"@ != "/where"@,
        "/move_to"@ != "/observe"@,
        "/move_to"@ != "/observe_server"@,
        "/stop"@ != "/health"@,
        "/stop"@ != "/where"@,
        "/stop"@ != "/observe"@,
        "/stop"@ != "/observe_server"@,
        "/health"@ != "/where"@,
        "/health"@ != "/observe"@,
        "/health"@ != "/observe_server"@,
        "/where"@ != "/observe"@,
        "/where"@ != "/observe_server"@,
        "/observe"@ != "/observe_server"@,
        "GET"@ != "POST"@,
{
    reveal_strlit("GET");
    reveal_strlit("POST");
    assert("GET"@.len() == 3 && "POST"@.len() == 4);
    reveal_strlit("/follow");
    assert("/follow"@.len() == 7 && "/follow"@[1] == 'f' && "/follow"@[2] == 'o');
    reveal_strlit("/attack");
    assert("/attack"@.len() == 7 && "/attack"@[1] == 'a' && "/attack"@[2] == 't');
    reveal_strlit("/approach");
    assert("/approach"@.len() == 9 && "/approach"@[1] == 'a' && "/approach"@[2] == 'p');
    reveal_strlit("/interact");
    assert("/interact"@.len() == 9 && "/interact"@[1] == 'i' && "/interact"@[2] == 'n');
    reveal_strlit("/fight");
    assert("/fight"@.len() == 6 && "/fight"@[1] == 'f' && "/fight"@[2] == 'i');
    reveal_strlit("/tp");
    assert("/tp"@.len() == 3 && "/tp"@[1] == 't' && "/tp"@[2] == 'p');
    reveal_strlit("/teleport");
    assert("/teleport"@.len() == 9 && "/teleport"@[1] == 't' && "/teleport"@[2] == 'e');
    reveal_strlit("/mine");
    assert("/mine"@.len() == 5 && "/mine"@[1] == 'm' && "/mine"@[2] == 'i');
    reveal_strlit("/place");
    assert("/place"@.len() == 6 && "/place"@[1] == 'p' && "/place"@[2] == 'l');
    reveal_strlit("/drop");
    assert("/drop"@.len() == 5 && "/drop"@[1] == 'd' && "/drop"@[2] == 'r');
    reveal_strlit("/wield");
    assert("/wield"@.len() == 6 && "/wield"@[1] == 'w' && "/wield"@[2] == 'i');
    reveal_strlit("/use");
    assert("/use"@.len() == 4 && "/use"@[1] == 'u' && "/use"@[2] == 's');
    reveal_strlit("/chat");
    assert("/chat"@.len() == 5 && "/chat"@[1] == 'c' && "/chat"@[2] == 'h');
    reveal_strlit("/say");
    assert("/say"@.len() == 4 && "/say"@[1] == 's' && "/say"@[2] == 'a');
    reveal_strlit("/sleep");
    assert("/sleep"@.len() == 6 && "/sleep"@[1] == 's' && "/sleep"@[2] == 'l');
    reveal_strlit("/move");
    assert("/move"@.len() == 5 && "/move"@[1] == 'm' && "/move"@[2] == 'o');
    reveal_strlit("/move_to");
    assert("/move_to"@.len() == 8 && "/move_to"@[1] == 'm' && "/move_to"@[2] == 'o');
    reveal_strlit("/stop");
    assert("/stop"@.len() == 5 && "/stop"@[1] == 's' && "/stop"@[2] == 't');
    reveal_strlit("/health");
    assert("/health"@.len() == 7 && "/health"@[1] == 'h' && "/health"@[2] == 'e');
    reveal_strlit("/where");
    assert("/where"@.len() == 6 && "/where"@[1] == 'w' && "/where"@[2] == 'h');
    reveal_strlit("/observe");
    assert("/observe"@.len() == 8 && "/observe"@[1] == 'o' && "/observe"@[2] == 'b');
    reveal_strlit("/observe_server");
    assert("/observe_server"@.len() == 15 && "/observe_server"@[1] == 'o');
    assert("/observe_server"@[2] == 'b');
}

/// A request about a player asks for what its endpoint names, of the player that a parameter or
/// the body names; without one it is refused.
pub proof fn player_requests_name_their_player(
    r: RequestView,
    log: LogView,
    where_text: Seq<char>,
    n: MoveNumbers,
    target: Seq<char>,
)
    requires
        r.authorized,
        r.method == "POST"@,
        param_of(r.params, "target"@) == Some(target) || (param_of(r.params, "target"@) is None
            && json_field(r.body, "target"@) == Some(target)),
    ensures
        r.endpoint == "/follow"@ ==> plan_for(r, log, where_text, n) == passed_on(
            CommandView::Follow(target),
        ),
        r.endpoint == "/attack"@ ==> plan_for(r, log, where_text, n) == passed_on(
            CommandView::Attack(target),
        ),
        r.endpoint == "/approach"@ ==> plan_for(r, log, where_text, n) == passed_on(
            CommandView::Approach(target),
        ),
        r.endpoint == "/interact"@ ==> plan_for(r, log, where_text, n) == passed_on(
            CommandView::Interact(target),
        ),
        r.endpoint == "/fight"@ ==> plan_for(r, log, where_text, n) == passed_on(
            CommandView::Fight(target),
        ),
        r.endpoint == "/tp"@ || r.endpoint == "/teleport"@ ==> plan_for(r, log, where_text, n)
            == passed_on(CommandView::Teleport(target)),
        passed_on(CommandView::Follow(target)) == (PlanView::Answer {
            command: Some(CommandView::Follow(target)),
            body: "OK"@,
            json: false,
        }),
{
    endpoints_are_told_apart();
}

/// A request about things waits two seconds for the server's reply with its own tag, and passes
/// the reply on.
pub proof fn requests_about_things_wait_for_the_server(
    r: RequestView,
    log: LogView,
    where_text: Seq<char>,
    n: MoveNumbers,
)
    requires
        r.authorized,
        r.method == "POST"@,
    ensures
        ({
            let plan = plan_for(r, log, where_text, n);
            &&& r.endpoint == "/mine"@ || r.endpoint == "/place"@ || r.endpoint == "/drop"@
                || r.endpoint == "/use"@ ==> plan is Await && plan->patience_ms == 2000
                && plan->Await_json && !plan->checked
            &&& r.endpoint == "/mine"@ ==> plan->tag == Some("BOT_MINE"@) && plan->Await_command
                == CommandView::Mine(pos_param(r.params))
            &&& r.endpoint == "/place"@ ==> plan->tag == Some("BOT_PLACE"@) && plan->Await_command
                == CommandView::Place(pos_param(r.params))
            &&& r.endpoint == "/drop"@ ==> plan->tag == Some("BOT_DROP"@) && plan->Await_command
                == drop_command(r)
            &&& r.endpoint == "/use"@ ==> plan->tag == Some("BOT_USE"@) && plan->Await_command
                == CommandView::Use(text_param(r, "item"@))
            &&& r.endpoint == "/wield"@ ==> match text_param(r, "item"@) {
                Some(item) => plan is Await && plan->tag == Some("BOT_WIELD"@)
                    && plan->Await_command == CommandView::Wield(item),
                None => plan is Silence,
            }
            &&& r.endpoint == "/sleep"@ ==> match body_json(r.body) {
                Some(v) => plan is Await && plan->tag == Some("BOT_SLEEP"@) && plan->checked
                    && plan->Await_command == CommandView::Sleep(Some(sleep_radius(v))),
                None => plan == PlanView::Reply(
                    json_error_reply("400 Bad Request"@, "invalid_json"@),
                ),
            }
        }),
{
    endpoints_are_told_apart();
}

/// A position is asked for by three numbers, all of which have to be there and to fit.
pub proof fn positions_are_three_parameters(params: Seq<(Seq<char>, Seq<char>)>)
    ensures
        match pos_param(params) {
            Some(p) => {
                &&& param_of(params, "x"@) is Some && number_in(
                    param_of(params, "x"@)->0,
                    -0x8000_0000,
                    0x7fff_ffff,
                ) == Some(p.x as int)
                &&& param_of(params, "y"@) is Some && number_in(
                    param_of(params, "y"@)->0,
                    -0x8000_0000,
                    0x7fff_ffff,
                ) == Some(p.y as int)
                &&& param_of(params, "z"@) is Some && number_in(
                    param_of(params, "z"@)->0,
                    -0x8000_0000,
                    0x7fff_ffff,
                ) == Some(p.z as int)
            },
            None => int_param(params, "x"@, -0x8000_0000, 0x7fff_ffff) is None || int_param(
                params,
                "y"@,
                -0x8000_0000,
                0x7fff_ffff,
            ) is None || int_param(params, "z"@, -0x8000_0000, 0x7fff_ffff) is None,
        },
{
}

/// What is to be said is said without the space around it; an empty message is refused, and one
/// within 256 bytes is said whole.
pub proof fn messages_are_said_whole(message: Seq<char>)
    ensures
        trimmed(message).len() == 0 ==> say_plan(message) == (PlanView::Answer {
            command: None,
            body: json_text(error_json("missing_message"@)),
            json: true,
        }),
        trimmed(message).len() > 0 && encode_utf8(trimmed(message)).len() <= 256 ==> say_plan(
            message,
        ) == (PlanView::Answer {
            command: Some(CommandView::Say(trimmed(message))),
            body: json_text(ok_json()),
            json: true,
        }),
        match clipped(message) {
            Some(text) => encode_utf8(message).len() > 256 ==> encode_utf8(text) == encode_utf8(
                message,
            ).take(256),
            None => encode_utf8(message).len() > 256 && !valid_utf8(encode_utf8(message).take(256)),
        },
{
    let bytes = encode_utf8(message);
    if bytes.len() > 256 && valid_utf8(bytes.take(256)) {
        decode_utf8_encode_utf8(bytes.take(256));
    }
}

/// The other requests that change something: chat in the body or in a parameter, moves, and
/// stopping. What is not known is refused.
pub proof fn other_posts_are_understood(
    r: RequestView,
    log: LogView,
    where_text: Seq<char>,
    n: MoveNumbers,
)
    requires
        r.authorized,
        r.method == "POST"@,
    ensures
        ({
            let plan = plan_for(r, log, where_text, n);
            &&& r.endpoint == "/stop"@ ==> plan == passed_on(CommandView::Stop)
            &&& r.endpoint == "/say"@ ==> plan == say_plan(said_message(r))
            &&& r.endpoint == "/chat"@ ==> match body_json(r.body) {
                Some(v) => plan == say_plan(json_message(v)),
                None => plan == PlanView::Reply(
                    json_error_reply("400 Bad Request"@, "invalid_json"@),
                ),
            }
            &&& r.endpoint == "/move"@ ==> match relative_move(r.params, n) {
                Some(request) => plan == passed_on(CommandView::Move(request)),
                None => plan == PlanView::Reply("HTTP/1.1 400 Bad Request\r\n\r\n"@),
            }
            &&& r.endpoint == "/move_to"@ ==> match absolute_move(n) {
                Some(request) => plan == passed_on(CommandView::Move(request)),
                None => plan == PlanView::Reply("HTTP/1.1 400 Bad Request\r\n\r\n"@),
            }
            &&& r.endpoint == "/health"@ || r.endpoint == "/where"@ || r.endpoint == "/observe"@
                ==> plan == PlanView::Reply("HTTP/1.1 400 Bad Request\r\n\r\n"@)
        }),
{
    endpoints_are_told_apart();
}

/// The requests that only look: each is answered at once or by the bot or by the server, and
/// none of them changes what the bot does.
pub proof fn gets_are_understood(
    r: RequestView,
    log: LogView,
    where_text: Seq<char>,
    n: MoveNumbers,
)
    requires
        r.authorized,
        r.method == "GET"@,
    ensures
        ({
            let plan = plan_for(r, log, where_text, n);
            &&& r.endpoint == "/health"@ ==> plan == (PlanView::Answer {
                command: None,
                body: "OK"@,
                json: false,
            })
            &&& r.endpoint == "/where"@ ==> plan == (PlanView::Answer {
                command: Some(CommandView::Where),
                body: where_text,
                json: false,
            })
            &&& r.endpoint == "/observe"@ ==> plan is Await && plan->tag is None
                && plan->patience_ms == 250 && plan->Await_command == (CommandView::Observe {
                radius: observe_radius(r.params),
            })
            &&& r.endpoint == "/observe_server"@ ==> plan is Await && plan->tag == Some(
                "BOT_OBSERVE"@,
            ) && plan->patience_ms == 2000 && plan->Await_command == (CommandView::ObserveServer {
                radius: observe_radius(r.params),
            })
            &&& r.endpoint == "/chat"@ ==> plan == (PlanView::Answer {
                command: None,
                body: chat_page(r.params, log),
                json: true,
            })
            &&& r.endpoint == "/follow"@ || r.endpoint == "/stop"@ || r.endpoint == "/mine"@
                ==> plan == PlanView::Reply("HTTP/1.1 400 Bad Request\r\n\r\n"@)
            &&& 1 <= observe_radius(r.params) <= 8
            &&& param_of(r.params, "radius"@) is None ==> observe_radius(r.params) == 2
        }),
{
    endpoints_are_told_apart();
}

/// A page of the chat holds the messages behind the number that is asked for, fifty unless
/// another number between one and a hundred is asked for, and the number of the last one.
pub proof fn chat_pages_are_as_asked_for(
    params: Seq<(Seq<char>, Seq<char>)>,
    log: LogView,
    since: u64,
    limit: int,
)
    requires
        int_param(params, "since"@, 0, u64::MAX as int) == Some(since as int) || (param_of(
            params,
            "since"@,
        ) is None && since == 0),
        int_param(params, "limit"@, 0, usize::MAX as int) == Some(limit) || (param_of(
            params,
            "limit"@,
        ) is None && limit == 50),
    ensures
        chat_page(params, log) == chat_json(
            collected(
                log,
                since,
                if limit < 1 {
                    1
                } else if limit > 100 {
                    100
                } else {
                    limit
                },
            ),
            last_id(log),
        ),
{
}

/// Moves are asked for by a direction, with one step unless a number is given, or by so many
/// nodes along the axes, of which one at least is not zero.
pub proof fn relative_moves_are_as_asked_for(
    params: Seq<(Seq<char>, Seq<char>)>,
    n: MoveNumbers,
)
    ensures
        match relative_move(params, n) {
            Some(request) => {
                &&& request.speed == n.speed
                &&& match request.spec {
                    MoveSpec::Direction { dir, steps } => {
                        &&& param_of(params, "direction"@) is Some || param_of(params, "dir"@) is Some
                        &&& steps == match n.steps {
                            Some(s) => s,
                            None => 0x3f80_0000,
                        }
                        &&& direction_named(
                            match param_of(params, "direction"@) {
                                Some(v) => v,
                                None => param_of(params, "dir"@)->0,
                            },
                        ) == Some(dir)
                    },
                    MoveSpec::Delta { dx, dy, dz } => {
                        &&& param_of(params, "direction"@) is None && param_of(params, "dir"@) is None
                        &&& dx == or_zero(n.dx) && dy == or_zero(n.dy) && dz == or_zero(n.dz)
                        &&& nonzero(dx) || nonzero(dy) || nonzero(dz)
                    },
                    _ => false,
                }
            },
            None => true,
        },
        match absolute_move(n) {
            Some(request) => {
                &&& request.speed == n.speed
                &&& n.x is Some && n.z is Some
                &&& request.spec == (MoveSpec::Target { x: n.x->0, y: n.y, z: n.z->0 })
            },
            None => n.x is None || n.z is None,
        },
{
}

/// Directions are named in any case and with space around them.
pub proof fn directions_are_named(value: Seq<char>)
    ensures
        ({
            let name = lowered(trimmed(value));
            &&& name == "forward"@ || name == "fwd"@ <==> direction_named(value) == Some(
                MoveDirection::Forward,
            )
            &&& name == "left"@ ==> direction_named(value) == Some(MoveDirection::Left)
            &&& name == "right"@ ==> direction_named(value) == Some(MoveDirection::Right)
            &&& name == "back"@ || name == "backward"@ ==> direction_named(value) == Some(
                MoveDirection::Backward,
            )
        }),
{
    reveal_strlit("forward");
    reveal_strlit("fwd");
    reveal_strlit("back");
    reveal_strlit("backward");
    reveal_strlit("left");
    reveal_strlit("right");
    assert("forward"@.len() == 7 && "fwd"@.len() == 3 && "back"@.len() == 4);
    assert("backward"@.len() == 8 && "left"@.len() == 4 && "right"@.len() == 5);
    assert("back"@[0] == 'b' && "left"@[0] == 'l');
}

/// What is awaited is answered with the reply that came, or, where none came in time, as late.
/// Only a reply that has to be JSON and is not is replaced.
pub proof fn awaited_replies_are_passed_on(
    body: Seq<char>,
    json: bool,
    checked: bool,
    late: Seq<char>,
)
    ensures
        settled(None, json, checked, late) == late,
        !checked || body_json(body) is Some ==> settled(Some(body), json, checked, late)
            == reply_text(
            "200 OK"@,
            if json {
                "application/json"@
            } else {
                "text/plain"@
            },
            body,
        ),
        str_member(invalid_reply(body), "raw"@) == Some(body),
        bool_member(invalid_reply(body), "ok"@) == Some(false),
        answered_with(body, json) == settled(Some(body), json, false, late),
{
    reveal_strlit("ok");
    reveal_strlit("error");
    reveal_strlit("raw");
    assert("ok"@.len() == 2 && "error"@.len() == 5 && "raw"@.len() == 3);
}

/// What is dropped is named by a parameter, and counted by one; where no parameter names it, the body
/// does, and counts it unless a parameter does.
pub proof fn drops_are_as_asked_for(r: RequestView, item: Seq<char>, v: JsonValue, n: u16)
    ensures
        param_of(r.params, "item"@) == Some(item) && int_param(r.params, "count"@, 0, 65535) == Some(
            n as int,
        ) ==> drop_command(r) == (CommandView::Drop { item: Some(item), count: Some(n) }),
        param_of(r.params, "item"@) == Some(item) && int_param(
            r.params,
            "count"@,
            0,
            65535,
        ) is None ==> drop_command(r) == (CommandView::Drop { item: Some(item), count: None }),
        param_of(r.params, "item"@) is None && body_json(r.body) is None ==> drop_command(r) is Drop
            && drop_command(r)->Drop_item is None,
        param_of(r.params, "item"@) is None && body_json(r.body) == Some(v) && str_member(
            v,
            "item"@,
        ) == Some(item) && int_param(r.params, "count"@, 0, 65535) is None && u64_member(
            v,
            "count"@,
        ) == Some(n as u64) ==> drop_command(r) == (CommandView::Drop {
            item: Some(item),
            count: Some(n),
        }),
{
}

/// A message in a JSON body is its member `message`, or `msg` where there is none; one in a request
/// is the parameter `msg`, or else the body's.
pub proof fn messages_are_found(r: RequestView, v: JsonValue, text: Seq<char>)
    ensures
        str_member(v, "message"@) == Some(text) ==> json_message(v) == text,
        member_of(v, "message"@) is None && str_member(v, "msg"@) == Some(text) ==> json_message(v)
            == text,
        member_of(v, "message"@) is None && member_of(v, "msg"@) is None ==> json_message(v).len()
            == 0,
        param_of(r.params, "msg"@) == Some(text) ==> said_message(r) == text,
        param_of(r.params, "msg"@) is None && json_field(r.body, "message"@) == Some(text)
            ==> said_message(r) == text,
        param_of(r.params, "msg"@) is None && json_field(r.body, "message"@) is None && json_field(
            r.body,
            "msg"@,
        ) == Some(text) ==> said_message(r) == text,
        param_of(r.params, "msg"@) is None && json_field(r.body, "message"@) is None && json_field(
            r.body,
            "msg"@,
        ) is None ==> said_message(r).len() == 0,
{
}

/// A bed is looked for within six nodes unless another distance up to twenty is asked for.
pub proof fn beds_are_looked_for_nearby(v: JsonValue, n: i64)
    ensures
        1 <= sleep_radius(v) <= 20,
        i64_member(v, "radius"@) is None ==> sleep_radius(v) == 6,
        i64_member(v, "radius"@) == Some(n) && 1 <= n <= 20 ==> sleep_radius(v) == n,
        i64_member(v, "radius"@) == Some(n) && n < 1 ==> sleep_radius(v) == 1,
        i64_member(v, "radius"@) == Some(n) && n > 20 ==> sleep_radius(v) == 20,
{
}

/// A text is taken from the parameter, and from the body only where no parameter has it.
pub proof fn parameters_go_before_the_body(r: RequestView, name: Seq<char>)
    ensures
        param_of(r.params, name) is Some ==> text_param(r, name) == param_of(r.params, name),
        param_of(r.params, name) is None ==> text_param(r, name) == json_field(r.body, name),
{
}

/// Whoever waits in vain for the server is told so, and by which request.
pub proof fn late_replies_name_their_request(
    r: RequestView,
    log: LogView,
    where_text: Seq<char>,
    n: MoveNumbers,
)
    requires
        r.authorized,
        r.method == "POST"@,
    ensures
        ({
            let plan = plan_for(r, log, where_text, n);
            &&& r.endpoint == "/mine"@ ==> plan->late
                == "HTTP/1.1 504 Gateway Timeout\r\nContent-Type: text/plain\r\nContent-Length: 12\r\n\r\nmine timeout"@
            &&& r.endpoint == "/place"@ ==> plan->late
                == "HTTP/1.1 504 Gateway Timeout\r\nContent-Type: text/plain\r\nContent-Length: 13\r\n\r\nplace timeout"@
            &&& r.endpoint == "/drop"@ ==> plan->late
                == "HTTP/1.1 504 Gateway Timeout\r\nContent-Type: text/plain\r\nContent-Length: 12\r\n\r\ndrop timeout"@
            &&& r.endpoint == "/use"@ ==> plan->late
                == "HTTP/1.1 504 Gateway Timeout\r\nContent-Type: text/plain\r\nContent-Length: 11\r\n\r\nuse timeout"@
            &&& r.endpoint == "/sleep"@ && body_json(r.body) is Some ==> plan->late
                == json_error_reply("504 Gateway Timeout"@, "sleep_timeout"@)
        }),
{
    endpoints_are_told_apart();
}

} // verus!
